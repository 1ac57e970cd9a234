//! The runtime registry: a mapping from language identifier to a runtime
//! specification (command and delivery mode), seeded with builtin defaults
//! and mutable through `lang:command` overrides.

use vstd::prelude::*;
use crate::errors::ConfigError;
use crate::mode::ExecutionMode;
use crate::text::{exec_first_colon, first_colon, lower_seq, ascii_lowercase, char_len};

verus! {

/// A runtime for one language: the command to spawn and how the code block's
/// body is delivered to it.
#[derive(Debug, Clone, PartialEq, Eq)]
pub struct RuntimeSpec {
    pub command: String,
    pub mode: ExecutionMode,
}

/// Mathematical image of a `RuntimeSpec`.
#[verifier::ext_equal]
pub struct RuntimeSpecView {
    pub command: Seq<char>,
    pub mode: ExecutionMode,
}

impl View for RuntimeSpec {
    type V = RuntimeSpecView;

    open spec fn view(&self) -> RuntimeSpecView {
        RuntimeSpecView { command: self.command@, mode: self.mode }
    }
}

/// The mapping a sequence of registry entries denotes: later entries win,
/// though a well-formed registry never repeats a key.
pub open spec fn entries_map(s: Seq<(String, RuntimeSpec)>) -> Map<Seq<char>, RuntimeSpecView>
    decreases s.len(),
{
    if s.len() == 0 {
        Map::empty()
    } else {
        entries_map(s.drop_last()).insert(s.last().0@, s.last().1@)
    }
}

/// No language identifier occurs twice among the entries.
pub open spec fn entries_unique(s: Seq<(String, RuntimeSpec)>) -> bool {
    forall|i: int, j: int| 0 <= i < j < s.len() ==> s[i].0@ != s[j].0@
}

proof fn lemma_entries_map_index(s: Seq<(String, RuntimeSpec)>, i: int)
    requires
        entries_unique(s),
        0 <= i < s.len(),
    ensures
        entries_map(s).contains_key(s[i].0@),
        entries_map(s)[s[i].0@] == s[i].1@,
    decreases s.len(),
{
    if i < s.len() - 1 {
        lemma_entries_map_index(s.drop_last(), i);
        assert(s.drop_last()[i] == s[i]);
    }
}

proof fn lemma_entries_map_domain(s: Seq<(String, RuntimeSpec)>)
    ensures
        forall|k: Seq<char>|
            entries_map(s).contains_key(k) <==> exists|i: int| 0 <= i < s.len() && s[i].0@ == k,
    decreases s.len(),
{
    if s.len() > 0 {
        lemma_entries_map_domain(s.drop_last());
        assert forall|k: Seq<char>| entries_map(s).contains_key(k) implies exists|i: int|
            0 <= i < s.len() && s[i].0@ == k by {
            if k == s.last().0@ {
                assert(s[s.len() - 1].0@ == k);
            } else {
                assert(entries_map(s.drop_last()).contains_key(k));
                let i = choose|i: int| 0 <= i < s.drop_last().len() && s.drop_last()[i].0@ == k;
                assert(s.drop_last()[i] == s[i]);
                assert(s[i].0@ == k);
            }
        }
        assert forall|k: Seq<char>|
            (exists|i: int| 0 <= i < s.len() && s[i].0@ == k) implies entries_map(
            s,
        ).contains_key(k) by {
            let i = choose|i: int| 0 <= i < s.len() && s[i].0@ == k;
            if i < s.len() - 1 {
                assert(s.drop_last()[i] == s[i]);
                assert(0 <= i < s.drop_last().len() && s.drop_last()[i].0@ == k);
                assert(entries_map(s.drop_last()).contains_key(k));
                assert(entries_map(s) == entries_map(s.drop_last()).insert(
                    s.last().0@,
                    s.last().1@,
                ));
            } else {
                assert(s[i] == s.last());
                assert(k == s.last().0@);
                assert(entries_map(s) == entries_map(s.drop_last()).insert(
                    s.last().0@,
                    s.last().1@,
                ));
            }
        }
    }
}

proof fn lemma_entries_map_update(s: Seq<(String, RuntimeSpec)>, i: int, e: (String, RuntimeSpec))
    requires
        entries_unique(s),
        0 <= i < s.len(),
        e.0@ == s[i].0@,
    ensures
        entries_unique(s.update(i, e)),
        entries_map(s.update(i, e)) == entries_map(s).insert(e.0@, e.1@),
    decreases s.len(),
{
    let t = s.update(i, e);
    assert forall|a: int, b: int| 0 <= a < b < t.len() implies t[a].0@ != t[b].0@ by {
        assert(s[a].0@ != s[b].0@);
    }
    if i == s.len() - 1 {
        assert(t.drop_last() =~= s.drop_last());
        assert(entries_map(t) =~= entries_map(s).insert(e.0@, e.1@));
    } else {
        assert(t.drop_last() =~= s.drop_last().update(i, e));
        lemma_entries_map_update(s.drop_last(), i, e);
        assert(t.last() == s.last());
        assert(entries_map(t) == entries_map(s.drop_last()).insert(e.0@, e.1@).insert(
            s.last().0@,
            s.last().1@,
        ));
        assert(s[i].0@ != s.last().0@);
        assert(entries_map(s.drop_last()).insert(e.0@, e.1@).insert(s.last().0@, s.last().1@)
            =~= entries_map(s.drop_last()).insert(s.last().0@, s.last().1@).insert(e.0@, e.1@));
    }
}

/// The mapping from language identifiers to runtimes.
#[derive(Debug, Clone, PartialEq, Eq)]
pub struct Registry {
    entries: Vec<(String, RuntimeSpec)>,
}

impl View for Registry {
    type V = Map<Seq<char>, RuntimeSpecView>;

    closed spec fn view(&self) -> Map<Seq<char>, RuntimeSpecView> {
        entries_map(self.entries@)
    }
}

/// The mode an override gives a language: the batch mode when one was given,
/// else the language's previously registered mode, else the configured
/// default.
pub open spec fn mode_for(
    m: Map<Seq<char>, RuntimeSpecView>,
    lang: Seq<char>,
    mode: Option<ExecutionMode>,
    default: ExecutionMode,
) -> ExecutionMode {
    match mode {
        Some(mo) => mo,
        None => if m.contains_key(lang) {
            m[lang].mode
        } else {
            default
        },
    }
}

impl Registry {
    /// All language identifiers are distinct.
    pub closed spec fn wf(&self) -> bool {
        entries_unique(self.entries@)
    }

    /// The empty registry.
    pub fn new() -> (r: Registry)
        ensures
            r.wf(),
            r@ == Map::<Seq<char>, RuntimeSpecView>::empty(),
    {
        Registry { entries: Vec::new() }
    }

    /// Number of registered languages.
    pub fn len(&self) -> (n: usize)
        requires
            self.wf(),
        ensures
            n == self@.dom().len(),
    {
        proof {
            lemma_entries_len(self.entries@);
        }
        self.entries.len()
    }

    /// Index of the entry registered for `key`, when there is one.
    fn find(&self, key: &String) -> (r: Option<usize>)
        ensures
            match r {
                Some(i) => i < self.entries@.len() && self.entries@[i as int].0@ == key@,
                None => forall|j: int| 0 <= j < self.entries@.len() ==> self.entries@[j].0@
                    != key@,
            },
    {
        let n = self.entries.len();
        let mut i: usize = 0;
        loop
            invariant
                i <= n,
                n == self.entries@.len(),
                forall|j: int| 0 <= j < i ==> self.entries@[j].0@ != key@,
            decreases n - i,
        {
            if i >= n {
                return None;
            }
            if self.entries[i].0 == *key {
                return Some(i);
            }
            i = i + 1;
        }
    }

    /// The runtime registered for `lang`, or `None` when the language is
    /// unregistered.
    pub fn resolve(&self, lang: &str) -> (r: Option<&RuntimeSpec>)
        requires
            self.wf(),
        ensures
            match r {
                Some(rt) => self@.contains_key(lang@) && rt@ == self@[lang@],
                None => !self@.contains_key(lang@),
            },
    {
        let key = lang.to_owned();
        proof {
            lemma_entries_map_domain(self.entries@);
        }
        match self.find(&key) {
            Some(i) => {
                proof {
                    lemma_entries_map_index(self.entries@, i as int);
                }
                Some(&self.entries[i].1)
            },
            None => None,
        }
    }

    /// Registers `lang`, replacing any previous runtime for it; the new mode
    /// follows the override rule of `mode_for`.
    pub fn upsert(
        &mut self,
        lang: String,
        command: String,
        mode: Option<ExecutionMode>,
        default: ExecutionMode,
    )
        requires
            old(self).wf(),
        ensures
            final(self).wf(),
            final(self)@ == old(self)@.insert(
                lang@,
                RuntimeSpecView { command: command@, mode: mode_for(old(self)@, lang@, mode, default) },
            ),
    {
        match self.find(&lang) {
            Some(i) => {
                let new_mode = match mode {
                    Some(mo) => mo,
                    None => self.entries[i].1.mode,
                };
                proof {
                    lemma_entries_map_index(self.entries@, i as int);
                }
                let ghost pre = self.entries@;
                let entry = (lang, RuntimeSpec { command, mode: new_mode });
                proof {
                    lemma_entries_map_update(pre, i as int, entry);
                }
                self.entries[i] = entry;
            },
            None => {
                proof {
                    lemma_entries_map_domain(self.entries@);
                }
                let new_mode = match mode {
                    Some(mo) => mo,
                    None => default,
                };
                let ghost pre = self.entries@;
                self.entries.push((lang, RuntimeSpec { command, mode: new_mode }));
                proof {
                    assert(self.entries@.drop_last() =~= pre);
                }
            },
        }
    }
}

proof fn lemma_entries_len(s: Seq<(String, RuntimeSpec)>)
    requires
        entries_unique(s),
    ensures
        entries_map(s).dom().finite(),
        entries_map(s).dom().len() == s.len(),
    decreases s.len(),
{
    if s.len() > 0 {
        lemma_entries_len(s.drop_last());
        lemma_entries_map_domain(s.drop_last());
        assert(!entries_map(s.drop_last()).contains_key(s.last().0@));
    }
}

/// The language named by an override entry: everything before the first
/// colon, lowercased.
pub open spec fn override_lang(s: Seq<char>) -> Seq<char> {
    lower_seq(s.subrange(0, first_colon(s, 0)))
}

/// The command named by an override entry: everything after the first colon,
/// verbatim (commands may themselves contain colons).
pub open spec fn override_cmd(s: Seq<char>) -> Seq<char> {
    s.subrange(first_colon(s, 0) + 1, s.len() as int)
}

/// An override entry is well-shaped when it holds a colon with at least one
/// character on each side.
pub open spec fn override_valid(s: Seq<char>) -> bool {
    let c = first_colon(s, 0);
    0 < c && c + 1 < s.len()
}

/// One override applied to a registry mapping.
pub open spec fn apply_one(
    m: Map<Seq<char>, RuntimeSpecView>,
    ov: Seq<char>,
    mode: Option<ExecutionMode>,
    default: ExecutionMode,
) -> Map<Seq<char>, RuntimeSpecView> {
    m.insert(
        override_lang(ov),
        RuntimeSpecView {
            command: override_cmd(ov),
            mode: mode_for(m, override_lang(ov), mode, default),
        },
    )
}

/// A whole override batch applied left to right.
pub open spec fn apply_batch(
    m: Map<Seq<char>, RuntimeSpecView>,
    ovs: Seq<Seq<char>>,
    mode: Option<ExecutionMode>,
    default: ExecutionMode,
) -> Map<Seq<char>, RuntimeSpecView>
    decreases ovs.len(),
{
    if ovs.len() == 0 {
        m
    } else {
        apply_batch(apply_one(m, ovs[0], mode, default), ovs.drop_first(), mode, default)
    }
}

/// Every entry of the batch is well-shaped.
pub open spec fn batch_valid(ovs: Seq<Seq<char>>) -> bool {
    forall|i: int| 0 <= i < ovs.len() ==> override_valid(#[trigger] ovs[i])
}

/// Index of the first ill-shaped entry (the batch's length when none is).
pub open spec fn first_invalid(ovs: Seq<Seq<char>>) -> int
    decreases ovs.len(),
{
    if ovs.len() == 0 {
        0
    } else if !override_valid(ovs[0]) {
        0
    } else {
        1 + first_invalid(ovs.drop_first())
    }
}

proof fn lemma_first_invalid_at(ovs: Seq<Seq<char>>, k: int)
    requires
        0 <= k < ovs.len(),
        forall|j: int| 0 <= j < k ==> override_valid(#[trigger] ovs[j]),
        !override_valid(ovs[k]),
    ensures
        first_invalid(ovs) == k,
        !batch_valid(ovs),
    decreases ovs.len(),
{
    if k > 0 {
        let rest = ovs.drop_first();
        assert forall|j: int| 0 <= j < k - 1 implies override_valid(#[trigger] rest[j]) by {
            assert(rest[j] == ovs[j + 1]);
        }
        assert(rest[k - 1] == ovs[k]);
        lemma_first_invalid_at(rest, k - 1);
    }
}

proof fn lemma_entries_map_congruent(a: Seq<(String, RuntimeSpec)>, b: Seq<(String, RuntimeSpec)>)
    requires
        a.len() == b.len(),
        forall|j: int| 0 <= j < a.len() ==> #[trigger] a[j].0@ == b[j].0@ && a[j].1@ == b[j].1@,
    ensures
        entries_map(a) == entries_map(b),
    decreases a.len(),
{
    if a.len() > 0 {
        assert forall|j: int| 0 <= j < a.drop_last().len() implies #[trigger] a.drop_last()[j].0@
            == b.drop_last()[j].0@ && a.drop_last()[j].1@ == b.drop_last()[j].1@ by {
            assert(a[j].0@ == b[j].0@ && a[j].1@ == b[j].1@);
        }
        lemma_entries_map_congruent(a.drop_last(), b.drop_last());
        assert(a[a.len() - 1].0@ == b[b.len() - 1].0@ && a[a.len() - 1].1@ == b[b.len() - 1].1@);
    }
}

impl Registry {
    /// The registered languages with their runtimes, one row each, for
    /// callers that persist or display the whole table.
    pub fn rows(&self) -> (r: Vec<(String, RuntimeSpec)>)
        requires
            self.wf(),
        ensures
            entries_unique(r@),
            entries_map(r@) == self@,
    {
        let n = self.entries.len();
        let mut r: Vec<(String, RuntimeSpec)> = Vec::new();
        let mut k: usize = 0;
        loop
            invariant
                k <= n,
                n == self.entries@.len(),
                self.wf(),
                r@.len() == k,
                forall|j: int| 0 <= j < k ==> #[trigger] r@[j].0@ == self.entries@[j].0@
                    && r@[j].1@ == self.entries@[j].1@,
            ensures
                k == n,
                r@.len() == n,
                forall|j: int| 0 <= j < n ==> #[trigger] r@[j].0@ == self.entries@[j].0@
                    && r@[j].1@ == self.entries@[j].1@,
            decreases n - k,
        {
            if k >= n {
                break;
            }
            let lang = self.entries[k].0.clone();
            let rt = RuntimeSpec {
                command: self.entries[k].1.command.clone(),
                mode: self.entries[k].1.mode,
            };
            proof {
                assert(rt@ =~= self.entries@[k as int].1@);
            }
            r.push((lang, rt));
            k = k + 1;
        }
        proof {
            lemma_entries_map_congruent(r@, self.entries@);
        }
        r
    }
}

/// Index of the first ill-shaped override entry, when there is one.
fn check_overrides(overrides: &Vec<String>) -> (r: Option<usize>)
    ensures
        match r {
            Some(k) => k < overrides@.len() && first_invalid(overrides.deep_view()) == k
                && !batch_valid(overrides.deep_view()),
            None => batch_valid(overrides.deep_view()),
        },
{
    let ghost ovs = overrides.deep_view();
    let n = overrides.len();
    let mut k: usize = 0;
    loop
        invariant
            k <= n,
            n == ovs.len(),
            ovs == overrides.deep_view(),
            forall|j: int| 0 <= j < k ==> override_valid(#[trigger] ovs[j]),
        decreases n - k,
    {
        if k >= n {
            return None;
        }
        let entry: &String = &overrides[k];
        let c = exec_first_colon(entry.as_str());
        let len = char_len(entry.as_str());
        assert(entry@ == ovs[k as int]);
        if !(c > 0 && c < len && len - c > 1) {
            proof {
                lemma_first_invalid_at(ovs, k as int);
            }
            return Some(k);
        }
        k = k + 1;
    }
}

impl Registry {
    /// Applies a batch of `lang:command` overrides, left to right. Each entry
    /// is split on its first colon only; the left side, lowercased, is the
    /// language, the right side is the command. When `mode` is given, every
    /// language touched by the batch also receives that mode; when it is
    /// absent, a previously registered language keeps its mode and a new one
    /// gets `default`. An entry without a colon, or with an empty language or
    /// command, is rejected by value, and the registry is left unchanged.
    pub fn apply_overrides(
        &mut self,
        overrides: &Vec<String>,
        mode: Option<ExecutionMode>,
        default: ExecutionMode,
    ) -> (r: Result<(), ConfigError>)
        requires
            old(self).wf(),
        ensures
            final(self).wf(),
            batch_valid(overrides.deep_view()) ==> r == Ok::<(), ConfigError>(()) && final(self)@
                == apply_batch(old(self)@, overrides.deep_view(), mode, default),
            !batch_valid(overrides.deep_view()) ==> (r matches Err(e) && e
                matches ConfigError::MalformedOverride(t) && t@ == overrides.deep_view()[
                first_invalid(overrides.deep_view())
            ] && final(self)@ == old(self)@),
    {
        let ghost ovs = overrides.deep_view();
        match check_overrides(overrides) {
            Some(k) => {
                assert(overrides@[k as int]@ == ovs[k as int]);
                return Err(ConfigError::MalformedOverride(overrides[k].clone()));
            },
            None => {},
        }
        let n = overrides.len();
        proof {
            assert(ovs.skip(0) =~= ovs);
        }
        let mut k: usize = 0;
        loop
            invariant
                k <= n,
                n == ovs.len(),
                ovs == overrides.deep_view(),
                batch_valid(ovs),
                self.wf(),
                apply_batch(old(self)@, ovs, mode, default) == apply_batch(
                    self@,
                    ovs.skip(k as int),
                    mode,
                    default,
                ),
            ensures
                k == n,
            decreases n - k,
        {
            if k >= n {
                break;
            }
            let entry: &String = &overrides[k];
            let c = exec_first_colon(entry.as_str());
            let len = char_len(entry.as_str());
            assert(entry@ == ovs[k as int]);
            assert(override_valid(ovs[k as int]));
            let lang_raw = entry.as_str().substring_char(0, c);
            let lang = ascii_lowercase(lang_raw);
            let cmd_str = entry.as_str().substring_char(c + 1, len);
            let cmd = String::from_str(cmd_str);
            assert(lang@ == override_lang(ovs[k as int]));
            assert(cmd@ == override_cmd(ovs[k as int]));
            let ghost pre = self@;
            self.upsert(lang, cmd, mode, default);
            proof {
                assert(self@ == apply_one(pre, ovs[k as int], mode, default));
                assert(ovs.skip(k as int)[0] == ovs[k as int]);
                assert(ovs.skip(k as int).drop_first() =~= ovs.skip(k as int + 1));
                assert(apply_batch(pre, ovs.skip(k as int), mode, default) == apply_batch(
                    apply_one(pre, ovs[k as int], mode, default),
                    ovs.skip(k as int + 1),
                    mode,
                    default,
                ));
            }
            k = k + 1;
        }
        proof {
            assert(ovs.skip(n as int) =~= Seq::<Seq<char>>::empty());
        }
        Ok(())
    }
}


/// Whether some entry of the batch overrides language `k`.
pub open spec fn touches(ovs: Seq<Seq<char>>, k: Seq<char>) -> bool {
    exists|j: int| 0 <= j < ovs.len() && override_lang(#[trigger] ovs[j]) == k
}

/// The command of the last batch entry that overrides `k`.
pub open spec fn last_cmd(ovs: Seq<Seq<char>>, k: Seq<char>) -> Seq<char>
    decreases ovs.len(),
{
    if ovs.len() == 0 {
        Seq::empty()
    } else if touches(ovs.drop_first(), k) {
        last_cmd(ovs.drop_first(), k)
    } else {
        override_cmd(ovs[0])
    }
}

/// What a whole batch does to one key: a language never touched keeps its
/// binding; a touched language ends bound to the command of the last entry
/// that names it, with the batch mode when one was given, else with its
/// previous mode, else with the default.
pub proof fn lemma_apply_batch_key(
    m: Map<Seq<char>, RuntimeSpecView>,
    ovs: Seq<Seq<char>>,
    mode: Option<ExecutionMode>,
    default: ExecutionMode,
    k: Seq<char>,
)
    ensures
        ({
            let m2 = apply_batch(m, ovs, mode, default);
            &&& (m2.contains_key(k) <==> (m.contains_key(k) || touches(ovs, k)))
            &&& (!touches(ovs, k) && m.contains_key(k) ==> m2[k] == m[k])
            &&& (touches(ovs, k) ==> m2[k].command == last_cmd(ovs, k) && m2[k].mode == mode_for(
                m,
                k,
                mode,
                default,
            ))
        }),
    decreases ovs.len(),
{
    if ovs.len() > 0 {
        let m1 = apply_one(m, ovs[0], mode, default);
        let rest = ovs.drop_first();
        lemma_apply_batch_key(m1, rest, mode, default, k);
        let l0 = override_lang(ovs[0]);
        assert(touches(ovs, k) <==> (l0 == k || touches(rest, k))) by {
            if touches(rest, k) {
                let j = choose|j: int| 0 <= j < rest.len() && override_lang(rest[j]) == k;
                assert(rest[j] == ovs[j + 1]);
                assert(override_lang(ovs[j + 1]) == k);
            }
            if touches(ovs, k) && l0 != k {
                let j = choose|j: int| 0 <= j < ovs.len() && override_lang(ovs[j]) == k;
                assert(j != 0);
                assert(rest[j - 1] == ovs[j]);
                assert(override_lang(rest[j - 1]) == k);
            }
            if l0 == k {
                assert(override_lang(ovs[0]) == k);
            }
        }
        if l0 != k {
            assert(m1.contains_key(k) <==> m.contains_key(k));
            if m.contains_key(k) {
                assert(m1[k] == m[k]);
            }
        }
    }
}

/// Applying the same override batch twice, with the same batch mode, yields
/// the same registry mapping as applying it once.
pub proof fn lemma_apply_batch_idempotent(
    m: Map<Seq<char>, RuntimeSpecView>,
    ovs: Seq<Seq<char>>,
    mode: Option<ExecutionMode>,
    default: ExecutionMode,
)
    ensures
        apply_batch(apply_batch(m, ovs, mode, default), ovs, mode, default) == apply_batch(
            m,
            ovs,
            mode,
            default,
        ),
{
    let m1 = apply_batch(m, ovs, mode, default);
    let m2 = apply_batch(m1, ovs, mode, default);
    assert forall|k: Seq<char>| #[trigger] m2.contains_key(k) <==> m1.contains_key(k) by {
        lemma_apply_batch_key(m, ovs, mode, default, k);
        lemma_apply_batch_key(m1, ovs, mode, default, k);
    }
    assert forall|k: Seq<char>| m1.contains_key(k) implies #[trigger] m2[k] == m1[k] by {
        lemma_apply_batch_key(m, ovs, mode, default, k);
        lemma_apply_batch_key(m1, ovs, mode, default, k);
        if touches(ovs, k) {
            assert(m2[k].command == m1[k].command);
            match mode {
                Some(mo) => {
                    assert(m2[k].mode == mo && m1[k].mode == mo);
                },
                None => {
                    assert(m2[k].mode == m1[k].mode);
                },
            }
            assert(m2[k] =~= m1[k]);
        }
    }
    assert(m2 =~= m1);
}

/// Overriding a registered language's command without giving a mode keeps
/// that language's previously registered mode: it is never reset to any
/// hardcoded default.
pub proof fn lemma_override_without_mode_keeps_mode(
    m: Map<Seq<char>, RuntimeSpecView>,
    ovs: Seq<Seq<char>>,
    default: ExecutionMode,
    k: Seq<char>,
)
    requires
        m.contains_key(k),
    ensures
        apply_batch(m, ovs, None, default).contains_key(k),
        apply_batch(m, ovs, None, default)[k].mode == m[k].mode,
{
    lemma_apply_batch_key(m, ovs, None, default, k);
}

} // verus!
