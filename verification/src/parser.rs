//! The section parser: raw markdown text to an ordered sequence of sections
//! at a given heading depth.
//!
//! The document is read line by line. A heading line whose depth equals the
//! configured one opens a new section, titled with the trimmed remainder of
//! the heading line; headings of any other depth are plain content. The lines
//! that follow a section's heading accumulate as its description until its
//! first fenced code block opens or the section ends. A fence line (three
//! backticks at the start of a line) opens a code block whose language is the
//! lowercased, trimmed info string and whose body is the literal text between
//! the fence lines, byte for byte; while a fence is open no line is
//! structural, and a fence still open at the end of the document is an error.

use vstd::prelude::*;
use crate::errors::ParseError;
use crate::text::{
    char_len, exec_line_end, exec_trim_range, line_end, lower_seq, trim_range, ascii_lowercase,
};

verus! {

/// One fenced code block: language identifier and literal body.
#[derive(Debug, Clone, PartialEq, Eq)]
pub struct Code {
    /// The fence's info string, trimmed and lowercased.
    pub lang: String,
    /// The text between the fence lines, exactly as written.
    pub body: String,
}

/// Mathematical image of a `Code`.
#[verifier::ext_equal]
pub struct CodeView {
    pub lang: Seq<char>,
    pub body: Seq<char>,
}

impl View for Code {
    type V = CodeView;

    open spec fn view(&self) -> CodeView {
        CodeView { lang: self.lang@, body: self.body@ }
    }
}

/// One task: a section of the document.
#[derive(Debug, Clone, PartialEq, Eq)]
pub struct Section {
    /// The trimmed remainder of the heading line.
    pub title: String,
    /// The trimmed free text between the heading and the first code block,
    /// when it is not empty.
    pub description: Option<String>,
    /// The section's code blocks, in source order, which is execution order.
    pub codes: Vec<Code>,
}

/// Mathematical image of a `Section`.
#[verifier::ext_equal]
pub struct SectionView {
    pub title: Seq<char>,
    pub description: Option<Seq<char>>,
    pub codes: Seq<CodeView>,
}

impl View for Section {
    type V = SectionView;

    open spec fn view(&self) -> SectionView {
        SectionView {
            title: self.title@,
            description: match self.description {
                Some(d) => Some(d@),
                None => None,
            },
            codes: self.codes@.map_values(|c: Code| c@),
        }
    }
}

/// The images of a sequence of sections.
pub open spec fn secs_view(v: Seq<Section>) -> Seq<SectionView> {
    v.map_values(|sec: Section| sec@)
}

/// Count of '#' characters at the head of the line `[i, le)`.
pub open spec fn count_hashes(s: Seq<char>, i: int, le: int) -> int
    decreases le - i,
{
    if i < 0 || i >= le {
        0
    } else if s[i] == '#' {
        1 + count_hashes(s, i + 1, le)
    } else {
        0
    }
}

proof fn lemma_count_hashes_bounds(s: Seq<char>, i: int, le: int)
    requires
        0 <= i <= le,
    ensures
        0 <= count_hashes(s, i, le) <= le - i,
    decreases le - i,
{
    if i < le && s[i] == '#' {
        lemma_count_hashes_bounds(s, i + 1, le);
    }
}

/// The line `[i, le)` is a heading of exactly depth `level`: `level` leading
/// '#' characters followed by the line's end or by a space.
pub open spec fn is_level_heading(s: Seq<char>, i: int, le: int, level: int) -> bool {
    count_hashes(s, i, le) == level && (i + level == le || s[i + level] == ' ')
}

/// The line `[i, le)` is a fence line: it starts with three backticks.
pub open spec fn is_fence(s: Seq<char>, i: int, le: int) -> bool {
    le - i >= 3 && s[i] == '`' && s[i + 1] == '`' && s[i + 2] == '`'
}

/// A section still being gathered: its title, the bounds of its description
/// region, and the code blocks seen so far.
pub struct PartialView {
    pub title: Seq<char>,
    pub desc_start: int,
    pub desc_end: Option<int>,
    pub codes: Seq<CodeView>,
}

/// An open fence: its language and where its body starts.
pub struct FenceView {
    pub lang: Seq<char>,
    pub body_start: int,
}

/// The description a closing section gets: the trimmed region from the line
/// after its heading to its first fence (or to `end`), or `None` when that
/// region trims to nothing.
pub open spec fn desc_close(s: Seq<char>, p: PartialView, end: int) -> Option<Seq<char>> {
    let de = match p.desc_end {
        Some(e) => e,
        None => end,
    };
    let d = trim_range(s, p.desc_start, de);
    if d.len() == 0 {
        None
    } else {
        Some(d)
    }
}

/// A gathered section closed at position `end`.
pub open spec fn close_partial(s: Seq<char>, p: PartialView, end: int) -> SectionView {
    SectionView { title: p.title, description: desc_close(s, p, end), codes: p.codes }
}

/// The parser, one line per step. `cur` is the section being gathered,
/// `fence` the open fence, `done` the sections already closed; `None` means
/// an unterminated fence.
pub open spec fn parse_at(
    s: Seq<char>,
    level: int,
    i: int,
    cur: Option<PartialView>,
    fence: Option<FenceView>,
    done: Seq<SectionView>,
) -> Option<Seq<SectionView>>
    decreases s.len() - i,
    when i >= 0
    via parse_at_dec
{
    if i >= s.len() {
        match fence {
            Some(f) => None,
            None => match cur {
                None => Some(done),
                Some(p) => Some(done.push(close_partial(s, p, s.len() as int))),
            },
        }
    } else {
        let le = line_end(s, i);
        let next = if le >= s.len() {
            s.len() as int
        } else {
            le + 1
        };
        match fence {
            Some(f) => {
                if is_fence(s, i, le) {
                    let cur2 = match cur {
                        Some(p) => Some(
                            PartialView {
                                title: p.title,
                                desc_start: p.desc_start,
                                desc_end: p.desc_end,
                                codes: p.codes.push(
                                    CodeView { lang: f.lang, body: s.subrange(f.body_start, i) },
                                ),
                            },
                        ),
                        None => None,
                    };
                    parse_at(s, level, next, cur2, None, done)
                } else {
                    parse_at(s, level, next, cur, Some(f), done)
                }
            },
            None => {
                if is_fence(s, i, le) {
                    let lang = lower_seq(trim_range(s, i + 3, le));
                    let cur2 = match cur {
                        Some(p) => Some(
                            PartialView {
                                title: p.title,
                                desc_start: p.desc_start,
                                desc_end: match p.desc_end {
                                    Some(e) => Some(e),
                                    None => Some(i),
                                },
                                codes: p.codes,
                            },
                        ),
                        None => None,
                    };
                    parse_at(
                        s,
                        level,
                        next,
                        cur2,
                        Some(FenceView { lang, body_start: next }),
                        done,
                    )
                } else if is_level_heading(s, i, le, level) {
                    let done2 = match cur {
                        Some(p) => done.push(close_partial(s, p, i)),
                        None => done,
                    };
                    let p2 = PartialView {
                        title: trim_range(s, i + level, le),
                        desc_start: next,
                        desc_end: None,
                        codes: Seq::empty(),
                    };
                    parse_at(s, level, next, Some(p2), None, done2)
                } else {
                    parse_at(s, level, next, cur, None, done)
                }
            },
        }
    }
}

#[via_fn]
proof fn parse_at_dec(
    s: Seq<char>,
    level: int,
    i: int,
    cur: Option<PartialView>,
    fence: Option<FenceView>,
    done: Seq<SectionView>,
) {
    if 0 <= i < s.len() {
        crate::text::lemma_line_end_bounds(s, i);
    }
}

/// What parsing a whole document at depth `level` yields: the ordered
/// sections, or `None` for an unterminated fence.
pub open spec fn spec_parse(s: Seq<char>, level: int) -> Option<Seq<SectionView>> {
    parse_at(s, level, 0, None, None, Seq::empty())
}

struct PartialSec {
    title: String,
    desc_start: usize,
    desc_end: Option<usize>,
    codes: Vec<Code>,
}

spec fn partial_view(p: &PartialSec) -> PartialView {
    PartialView {
        title: p.title@,
        desc_start: p.desc_start as int,
        desc_end: match p.desc_end {
            Some(e) => Some(e as int),
            None => None,
        },
        codes: p.codes@.map_values(|c: Code| c@),
    }
}

spec fn opt_partial_view(c: &Option<PartialSec>) -> Option<PartialView> {
    match c {
        Some(p) => Some(partial_view(p)),
        None => None,
    }
}

struct FenceSt {
    lang: String,
    body_start: usize,
}

spec fn fence_view(f: &FenceSt) -> FenceView {
    FenceView { lang: f.lang@, body_start: f.body_start as int }
}

spec fn opt_fence_view(f: &Option<FenceSt>) -> Option<FenceView> {
    match f {
        Some(f) => Some(fence_view(f)),
        None => None,
    }
}

fn exec_count_hashes(s: &str, i: usize, le: usize) -> (c: usize)
    requires
        i <= le <= s@.len(),
    ensures
        c == count_hashes(s@, i as int, le as int),
        i + c <= le,
{
    let mut j: usize = i;
    loop
        invariant
            i <= j <= le <= s@.len(),
            count_hashes(s@, i as int, le as int) == (j - i) + count_hashes(
                s@,
                j as int,
                le as int,
            ),
        ensures
            i <= j <= le,
            count_hashes(s@, i as int, le as int) == j - i,
        decreases le - j,
    {
        if j >= le {
            break;
        }
        let c = s.get_char(j);
        if c != '#' {
            break;
        }
        proof {
            lemma_count_hashes_bounds(s@, j + 1, le as int);
        }
        j = j + 1;
    }
    j - i
}

fn exec_is_fence(s: &str, i: usize, le: usize) -> (b: bool)
    requires
        i <= le <= s@.len(),
    ensures
        b == is_fence(s@, i as int, le as int),
{
    if le - i < 3 {
        return false;
    }
    s.get_char(i) == '`' && s.get_char(i + 1) == '`' && s.get_char(i + 2) == '`'
}

fn exec_is_level_heading(s: &str, i: usize, le: usize, level: u8) -> (b: bool)
    requires
        i <= le <= s@.len(),
        1 <= level,
    ensures
        b == is_level_heading(s@, i as int, le as int, level as int),
        b ==> i + level <= le,
{
    let c = exec_count_hashes(s, i, le);
    if c != level as usize {
        return false;
    }
    if i + c == le {
        return true;
    }
    s.get_char(i + c) == ' '
}

/// A gathered section closed at position `end`, as an executable value.
fn close_section(text: &str, p: PartialSec, end: usize) -> (sec: Section)
    requires
        p.desc_start <= end <= text@.len(),
        match p.desc_end {
            Some(e) => p.desc_start <= e <= end,
            None => true,
        },
    ensures
        sec@ == close_partial(text@, partial_view(&p), end as int),
{
    let de = match p.desc_end {
        Some(e) => e,
        None => end,
    };
    let d = exec_trim_range(text, p.desc_start, de);
    let description = if d.as_str().is_empty() {
        None
    } else {
        Some(d)
    };
    Section { title: p.title, description, codes: p.codes }
}

/// Parses `text` into its sections at heading depth `heading_level`.
///
/// A depth outside `[1, 6]` is rejected; a fence still open at the end of the
/// document is an unterminated-fence error; any other document yields exactly
/// the sections of `spec_parse`, in document order. An empty document yields
/// the empty sequence.
pub fn parse(text: &str, heading_level: u8) -> (r: Result<Vec<Section>, ParseError>)
    ensures
        1 <= heading_level <= 6 ==> match spec_parse(text@, heading_level as int) {
            Some(secs) => r matches Ok(v) && secs_view(v@) == secs,
            None => r == Err::<Vec<Section>, ParseError>(ParseError::UnterminatedFence),
        },
        !(1 <= heading_level <= 6) ==> r == Err::<Vec<Section>, ParseError>(
            ParseError::InvalidHeadingLevel(heading_level),
        ),
{
    if !(1 <= heading_level && heading_level <= 6) {
        return Err(ParseError::InvalidHeadingLevel(heading_level));
    }
    let n = char_len(text);
    let ghost target = spec_parse(text@, heading_level as int);
    let mut i: usize = 0;
    let mut cur: Option<PartialSec> = None;
    let mut fence: Option<FenceSt> = None;
    let mut done: Vec<Section> = Vec::new();
    proof {
        assert(secs_view(done@) =~= Seq::<SectionView>::empty());
    }
    loop
        invariant
            i <= n,
            n == text@.len(),
            1 <= heading_level <= 6,
            match fence {
                Some(f) => f.body_start <= i,
                None => true,
            },
            match cur {
                Some(p) => p.desc_start <= i && (match p.desc_end {
                    Some(e) => p.desc_start <= e <= i,
                    None => true,
                }),
                None => true,
            },
            target == parse_at(
                text@,
                heading_level as int,
                i as int,
                opt_partial_view(&cur),
                opt_fence_view(&fence),
                secs_view(done@),
            ),
        ensures
            i == n,
        decreases n - i,
    {
        if i >= n {
            break;
        }
        let le = exec_line_end(text, i);
        let next = if le >= n {
            n
        } else {
            le + 1
        };
        let fence_line = exec_is_fence(text, i, le);
        let ghost pre_cur = opt_partial_view(&cur);
        let ghost pre_fence = opt_fence_view(&fence);
        let ghost pre_done = secs_view(done@);
        match fence {
            Some(f) => {
                if fence_line {
                    let body_str = text.substring_char(f.body_start, i);
                    let body = String::from_str(body_str);
                    let ghost code_v = CodeView {
                        lang: f.lang@,
                        body: text@.subrange(f.body_start as int, i as int),
                    };
                    match cur {
                        Some(mut p) => {
                            let ghost pre_codes = p.codes@;
                            p.codes.push(Code { lang: f.lang, body });
                            proof {
                                assert(p.codes@.map_values(|c: Code| c@) =~= pre_codes.map_values(
                                    |c: Code| c@,
                                ).push(code_v));
                            }
                            cur = Some(p);
                        },
                        None => {
                            cur = None;
                        },
                    }
                    fence = None;
                } else {
                    fence = Some(f);
                }
            },
            None => {
                fence = None;
                if fence_line {
                    let info = exec_trim_range(text, i + 3, le);
                    let lang = ascii_lowercase(info.as_str());
                    match cur {
                        Some(mut p) => {
                            if p.desc_end.is_none() {
                                p.desc_end = Some(i);
                            }
                            cur = Some(p);
                        },
                        None => {
                            cur = None;
                        },
                    }
                    fence = Some(FenceSt { lang, body_start: next });
                } else {
                    let heading = exec_is_level_heading(text, i, le, heading_level);
                    if heading {
                        match cur {
                            Some(p) => {
                                let sec = close_section(text, p, i);
                                let ghost pre = done@;
                                done.push(sec);
                                proof {
                                    assert(secs_view(done@) =~= secs_view(pre).push(
                                        close_partial(text@, pre_cur->0, i as int),
                                    ));
                                }
                            },
                            None => {},
                        }
                        let title = exec_trim_range(text, i + heading_level as usize, le);
                        cur = Some(
                            PartialSec {
                                title,
                                desc_start: next,
                                desc_end: None,
                                codes: Vec::new(),
                            },
                        );
                        proof {
                            assert(opt_partial_view(&cur)->0.codes =~= Seq::<CodeView>::empty());
                        }
                    }
                }
            },
        }
        proof {
            assert(target == parse_at(
                text@,
                heading_level as int,
                next as int,
                opt_partial_view(&cur),
                opt_fence_view(&fence),
                secs_view(done@),
            ));
        }
        i = next;
    }
    match fence {
        Some(f) => Err(ParseError::UnterminatedFence),
        None => {
            match cur {
                Some(p) => {
                    let sec = close_section(text, p, n);
                    let ghost pre = done@;
                    done.push(sec);
                    proof {
                        assert(secs_view(done@) =~= secs_view(pre).push(sec@));
                    }
                    Ok(done)
                },
                None => Ok(done),
            }
        },
    }
}

/// The read-only listing query: the parsed sections, unchanged. Any filtering
/// for display is the caller's, over this result.
pub fn list(sections: &Vec<Section>) -> (r: &Vec<Section>)
    ensures
        r@ == sections@,
{
    sections
}

} // verus!
