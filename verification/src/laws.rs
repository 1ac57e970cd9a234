//! Document-level laws of the parser, proved against `spec_parse`: the
//! parsed titles are exactly the level-matching heading texts in document
//! order; the parsed bodies are exactly the literal texts between fence
//! lines; and a document without a level-matching heading parses to the
//! empty sequence.

use vstd::prelude::*;
use crate::parser::{
    close_partial, is_fence, is_level_heading, parse_at, spec_parse, CodeView, FenceView,
    PartialView, SectionView,
};
use crate::text::{line_end, trim_range, lemma_line_end_bounds};

verus! {

/// The titles of the sections, in order.
pub open spec fn titles_of(ss: Seq<SectionView>) -> Seq<Seq<char>> {
    ss.map_values(|x: SectionView| x.title)
}

/// The trimmed texts of the heading lines of exactly depth `level` outside
/// fences, from position `i` on, in document order.
pub open spec fn headings_at(s: Seq<char>, level: int, i: int, infence: bool) -> Seq<Seq<char>>
    decreases s.len() - i,
    when i >= 0
    via headings_at_dec
{
    if i >= s.len() {
        Seq::empty()
    } else {
        let le = line_end(s, i);
        let next = if le >= s.len() {
            s.len() as int
        } else {
            le + 1
        };
        if infence {
            headings_at(s, level, next, !is_fence(s, i, le))
        } else {
            if is_fence(s, i, le) {
                headings_at(s, level, next, true)
            } else if is_level_heading(s, i, le, level) {
                seq![trim_range(s, i + level, le)] + headings_at(s, level, next, false)
            } else {
                headings_at(s, level, next, false)
            }
        }
    }
}

#[via_fn]
proof fn headings_at_dec(s: Seq<char>, level: int, i: int, infence: bool) {
    if 0 <= i < s.len() {
        lemma_line_end_bounds(s, i);
    }
}

spec fn opt_title(cur: Option<PartialView>) -> Seq<Seq<char>> {
    match cur {
        Some(p) => seq![p.title],
        None => Seq::empty(),
    }
}

proof fn lemma_parse_titles_at(
    s: Seq<char>,
    level: int,
    i: int,
    cur: Option<PartialView>,
    fence: Option<FenceView>,
    done: Seq<SectionView>,
)
    requires
        i >= 0,
        parse_at(s, level, i, cur, fence, done) is Some,
    ensures
        titles_of(parse_at(s, level, i, cur, fence, done)->0) =~= titles_of(done) + opt_title(cur)
            + headings_at(s, level, i, fence is Some),
    decreases s.len() - i,
{
    if i >= s.len() {
        match cur {
            Some(p) => {
                assert(titles_of(done.push(close_partial(s, p, s.len() as int))) =~= titles_of(
                    done,
                ).push(p.title));
            },
            None => {},
        }
    } else {
        lemma_line_end_bounds(s, i);
        let le = line_end(s, i);
        let next = if le >= s.len() {
            s.len() as int
        } else {
            le + 1
        };
        match fence {
            Some(f) => {
                if is_fence(s, i, le) {
                    let cur2 = match cur {
                        Some(p) => Some(
                            PartialView {
                                title: p.title,
                                desc_start: p.desc_start,
                                desc_end: p.desc_end,
                                codes: p.codes.push(
                                    CodeView { lang: f.lang, body: s.subrange(f.body_start, i) },
                                ),
                            },
                        ),
                        None => None,
                    };
                    lemma_parse_titles_at(s, level, next, cur2, None, done);
                } else {
                    lemma_parse_titles_at(s, level, next, cur, Some(f), done);
                }
            },
            None => {
                if is_fence(s, i, le) {
                    let lang = crate::text::lower_seq(trim_range(s, i + 3, le));
                    let cur2 = match cur {
                        Some(p) => Some(
                            PartialView {
                                title: p.title,
                                desc_start: p.desc_start,
                                desc_end: match p.desc_end {
                                    Some(e) => Some(e),
                                    None => Some(i),
                                },
                                codes: p.codes,
                            },
                        ),
                        None => None,
                    };
                    lemma_parse_titles_at(
                        s,
                        level,
                        next,
                        cur2,
                        Some(FenceView { lang, body_start: next }),
                        done,
                    );
                } else if is_level_heading(s, i, le, level) {
                    let done2 = match cur {
                        Some(p) => done.push(close_partial(s, p, i)),
                        None => done,
                    };
                    let p2 = PartialView {
                        title: trim_range(s, i + level, le),
                        desc_start: next,
                        desc_end: None,
                        codes: Seq::empty(),
                    };
                    lemma_parse_titles_at(s, level, next, Some(p2), None, done2);
                    match cur {
                        Some(p) => {
                            assert(titles_of(done.push(close_partial(s, p, i))) =~= titles_of(
                                done,
                            ).push(p.title));
                        },
                        None => {},
                    }
                } else {
                    lemma_parse_titles_at(s, level, next, cur, None, done);
                }
            },
        }
    }
}

/// For any heading depth and any document that parses, the sections' titles
/// equal exactly the trimmed texts of the depth-matching heading lines
/// outside fences, in document order.
pub proof fn lemma_parse_titles(s: Seq<char>, level: int)
    requires
        spec_parse(s, level) is Some,
    ensures
        titles_of(spec_parse(s, level)->0) == headings_at(s, level, 0, false),
{
    lemma_parse_titles_at(s, level, 0, None, None, Seq::empty());
    assert(titles_of(Seq::empty()) =~= Seq::<Seq<char>>::empty());
    assert(titles_of(spec_parse(s, level)->0) =~= headings_at(s, level, 0, false));
}

/// No line of the document, from position `i` on, is a heading of exactly
/// depth `level`.
pub open spec fn no_level_heading(s: Seq<char>, level: int, i: int) -> bool
    decreases s.len() - i,
    when i >= 0
    via no_level_heading_dec
{
    if i >= s.len() {
        true
    } else {
        let le = line_end(s, i);
        let next = if le >= s.len() {
            s.len() as int
        } else {
            le + 1
        };
        !is_level_heading(s, i, le, level) && no_level_heading(s, level, next)
    }
}

#[via_fn]
proof fn no_level_heading_dec(s: Seq<char>, level: int, i: int) {
    if 0 <= i < s.len() {
        lemma_line_end_bounds(s, i);
    }
}

proof fn lemma_no_heading_no_titles(s: Seq<char>, level: int, i: int, infence: bool)
    requires
        i >= 0,
        no_level_heading(s, level, i),
    ensures
        headings_at(s, level, i, infence) =~= Seq::<Seq<char>>::empty(),
    decreases s.len() - i,
{
    if i < s.len() {
        lemma_line_end_bounds(s, i);
        let le = line_end(s, i);
        let next = if le >= s.len() {
            s.len() as int
        } else {
            le + 1
        };
        if infence {
            lemma_no_heading_no_titles(s, level, next, !is_fence(s, i, le));
        } else {
            if is_fence(s, i, le) {
                lemma_no_heading_no_titles(s, level, next, true);
            } else {
                lemma_no_heading_no_titles(s, level, next, false);
            }
        }
    }
}

/// A document with no heading at the configured depth parses (and so lists)
/// as the empty sequence of sections, not as an error.
pub proof fn lemma_no_heading_lists_empty(s: Seq<char>, level: int)
    requires
        no_level_heading(s, level, 0),
        spec_parse(s, level) is Some,
    ensures
        spec_parse(s, level)->0 =~= Seq::<SectionView>::empty(),
{
    lemma_parse_titles(s, level);
    lemma_no_heading_no_titles(s, level, 0, false);
    assert(titles_of(spec_parse(s, level)->0).len() == 0);
}

/// The bodies of a sequence of code blocks, in order.
pub open spec fn bodies_of_codes(cs: Seq<CodeView>) -> Seq<Seq<char>> {
    cs.map_values(|c: CodeView| c.body)
}

/// All code bodies of a sequence of sections, in document order.
pub open spec fn all_bodies(ss: Seq<SectionView>) -> Seq<Seq<char>>
    decreases ss.len(),
{
    if ss.len() == 0 {
        Seq::empty()
    } else {
        all_bodies(ss.drop_last()) + bodies_of_codes(ss.last().codes)
    }
}

/// The literal texts between fence lines of the document's fenced blocks
/// inside sections, from position `i` on: each element is by construction a
/// contiguous subrange of the document, reproduced byte for byte. `insec`
/// says whether a section is open, `open` where an open fence's body began.
pub open spec fn fenced_bodies(
    s: Seq<char>,
    level: int,
    i: int,
    insec: bool,
    open: Option<int>,
) -> Seq<Seq<char>>
    decreases s.len() - i,
    when i >= 0
    via fenced_bodies_dec
{
    if i >= s.len() {
        Seq::empty()
    } else {
        let le = line_end(s, i);
        let next = if le >= s.len() {
            s.len() as int
        } else {
            le + 1
        };
        match open {
            Some(b) => if is_fence(s, i, le) {
                (if insec {
                    seq![s.subrange(b, i)]
                } else {
                    Seq::empty()
                }) + fenced_bodies(s, level, next, insec, None)
            } else {
                fenced_bodies(s, level, next, insec, Some(b))
            },
            None => if is_fence(s, i, le) {
                fenced_bodies(s, level, next, insec, Some(next))
            } else if is_level_heading(s, i, le, level) {
                fenced_bodies(s, level, next, true, None)
            } else {
                fenced_bodies(s, level, next, insec, None)
            },
        }
    }
}

#[via_fn]
proof fn fenced_bodies_dec(s: Seq<char>, level: int, i: int, insec: bool, open: Option<int>) {
    if 0 <= i < s.len() {
        lemma_line_end_bounds(s, i);
    }
}

spec fn cur_bodies(cur: Option<PartialView>) -> Seq<Seq<char>> {
    match cur {
        Some(p) => bodies_of_codes(p.codes),
        None => Seq::empty(),
    }
}

spec fn fence_start(fence: Option<FenceView>) -> Option<int> {
    match fence {
        Some(f) => Some(f.body_start),
        None => None,
    }
}

proof fn lemma_parse_bodies_at(
    s: Seq<char>,
    level: int,
    i: int,
    cur: Option<PartialView>,
    fence: Option<FenceView>,
    done: Seq<SectionView>,
)
    requires
        i >= 0,
        parse_at(s, level, i, cur, fence, done) is Some,
    ensures
        all_bodies(parse_at(s, level, i, cur, fence, done)->0) =~= all_bodies(done) + cur_bodies(
            cur,
        ) + fenced_bodies(s, level, i, cur is Some, fence_start(fence)),
    decreases s.len() - i,
{
    if i >= s.len() {
        match cur {
            Some(p) => {
                let done2 = done.push(close_partial(s, p, s.len() as int));
                assert(done2.drop_last() =~= done);
                assert(all_bodies(done2) =~= all_bodies(done) + bodies_of_codes(p.codes));
            },
            None => {},
        }
    } else {
        lemma_line_end_bounds(s, i);
        let le = line_end(s, i);
        let next = if le >= s.len() {
            s.len() as int
        } else {
            le + 1
        };
        match fence {
            Some(f) => {
                if is_fence(s, i, le) {
                    match cur {
                        Some(p) => {
                            let code = CodeView { lang: f.lang, body: s.subrange(f.body_start, i) };
                            let cur2 = Some(
                                PartialView {
                                    title: p.title,
                                    desc_start: p.desc_start,
                                    desc_end: p.desc_end,
                                    codes: p.codes.push(code),
                                },
                            );
                            lemma_parse_bodies_at(s, level, next, cur2, None, done);
                            assert(bodies_of_codes(p.codes.push(code)) =~= bodies_of_codes(
                                p.codes,
                            ).push(code.body));
                        },
                        None => {
                            lemma_parse_bodies_at(s, level, next, None, None, done);
                        },
                    }
                } else {
                    lemma_parse_bodies_at(s, level, next, cur, Some(f), done);
                }
            },
            None => {
                if is_fence(s, i, le) {
                    let lang = crate::text::lower_seq(trim_range(s, i + 3, le));
                    let cur2 = match cur {
                        Some(p) => Some(
                            PartialView {
                                title: p.title,
                                desc_start: p.desc_start,
                                desc_end: match p.desc_end {
                                    Some(e) => Some(e),
                                    None => Some(i),
                                },
                                codes: p.codes,
                            },
                        ),
                        None => None,
                    };
                    lemma_parse_bodies_at(
                        s,
                        level,
                        next,
                        cur2,
                        Some(FenceView { lang, body_start: next }),
                        done,
                    );
                } else if is_level_heading(s, i, le, level) {
                    let done2 = match cur {
                        Some(p) => done.push(close_partial(s, p, i)),
                        None => done,
                    };
                    let p2 = PartialView {
                        title: trim_range(s, i + level, le),
                        desc_start: next,
                        desc_end: None,
                        codes: Seq::empty(),
                    };
                    lemma_parse_bodies_at(s, level, next, Some(p2), None, done2);
                    assert(bodies_of_codes(p2.codes) =~= Seq::<Seq<char>>::empty());
                    match cur {
                        Some(p) => {
                            assert(done2.drop_last() =~= done);
                            assert(all_bodies(done2) =~= all_bodies(done) + bodies_of_codes(
                                p.codes,
                            ));
                        },
                        None => {},
                    }
                } else {
                    lemma_parse_bodies_at(s, level, next, cur, None, done);
                }
            },
        }
    }
}

/// The bodies of the parsed code blocks equal, in document order, the
/// literal texts between the fence lines of the document's in-section fenced
/// blocks — each one a contiguous subrange of the document, with no loss and
/// no normalization.
pub proof fn lemma_parse_bodies(s: Seq<char>, level: int)
    requires
        spec_parse(s, level) is Some,
    ensures
        all_bodies(spec_parse(s, level)->0) == fenced_bodies(s, level, 0, false, None),
{
    lemma_parse_bodies_at(s, level, 0, None, None, Seq::empty());
    assert(all_bodies(spec_parse(s, level)->0) =~= fenced_bodies(s, level, 0, false, None));
}

} // verus!
