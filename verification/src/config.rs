//! Configuration: the heading depth that opens a task, the runtime registry
//! and the default delivery mode. Loaded once, possibly amended by overrides
//! before a run begins, immutable during the run. Reading a configuration
//! file from disk is the caller's job; the caller hands the plain values to
//! `Config::from_parts`.

use vstd::prelude::*;
use crate::errors::{ConfigError, ParseError};
use crate::mode::ExecutionMode;
use crate::registry::{
    apply_batch, batch_valid, first_invalid, Registry, RuntimeSpec, RuntimeSpecView,
};
use crate::text::{ascii_lowercase, lower_seq};

verus! {

/// The builtin runtime seed. Shell languages (`sh`, `bash`, `zsh`, `shell`)
/// run under the shell of the same name (`shell` under `sh`); `python` runs
/// under `python3`; `javascript` and `js` run under `node`; `ruby` runs under
/// `ruby`. Every seeded language delivers its body on standard input.
pub open spec fn builtin_map() -> Map<Seq<char>, RuntimeSpecView> {
    Map::empty().insert(
        "sh"@,
        RuntimeSpecView { command: "sh"@, mode: ExecutionMode::Stdin },
    ).insert(
        "bash"@,
        RuntimeSpecView { command: "bash"@, mode: ExecutionMode::Stdin },
    ).insert(
        "zsh"@,
        RuntimeSpecView { command: "zsh"@, mode: ExecutionMode::Stdin },
    ).insert(
        "shell"@,
        RuntimeSpecView { command: "sh"@, mode: ExecutionMode::Stdin },
    ).insert(
        "python"@,
        RuntimeSpecView { command: "python3"@, mode: ExecutionMode::Stdin },
    ).insert(
        "javascript"@,
        RuntimeSpecView { command: "node"@, mode: ExecutionMode::Stdin },
    ).insert(
        "js"@,
        RuntimeSpecView { command: "node"@, mode: ExecutionMode::Stdin },
    ).insert(
        "ruby"@,
        RuntimeSpecView { command: "ruby"@, mode: ExecutionMode::Stdin },
    )
}

/// The registry seeded with the builtin table documented at `builtin_map`.
pub fn builtin_registry() -> (r: Registry)
    ensures
        r.wf(),
        r@ == builtin_map(),
{
    let mut r = Registry::new();
    let m = Some(ExecutionMode::Stdin);
    let d = ExecutionMode::Stdin;
    r.upsert(String::from_str("sh"), String::from_str("sh"), m, d);
    r.upsert(String::from_str("bash"), String::from_str("bash"), m, d);
    r.upsert(String::from_str("zsh"), String::from_str("zsh"), m, d);
    r.upsert(String::from_str("shell"), String::from_str("sh"), m, d);
    r.upsert(String::from_str("python"), String::from_str("python3"), m, d);
    r.upsert(String::from_str("javascript"), String::from_str("node"), m, d);
    r.upsert(String::from_str("js"), String::from_str("node"), m, d);
    r.upsert(String::from_str("ruby"), String::from_str("ruby"), m, d);
    proof {
        assert(r@ =~= builtin_map());
    }
    r
}

/// The mapping a sequence of `(language, command, mode)` parts denotes:
/// languages are lowercased, later parts win.
pub open spec fn parts_map(s: Seq<(String, String, ExecutionMode)>) -> Map<
    Seq<char>,
    RuntimeSpecView,
>
    decreases s.len(),
{
    if s.len() == 0 {
        Map::empty()
    } else {
        parts_map(s.drop_last()).insert(
            lower_seq(s.last().0@),
            RuntimeSpecView { command: s.last().1@, mode: s.last().2 },
        )
    }
}

/// Heading depth, runtime registry and default delivery mode.
#[derive(Debug)]
pub struct Config {
    heading_level: u8,
    runtimes: Registry,
    default_mode: ExecutionMode,
}

impl Config {
    /// The heading depth lies in `[1, 6]` and the registry holds each
    /// language once.
    pub closed spec fn wf(&self) -> bool {
        1 <= self.heading_level <= 6 && self.runtimes.wf()
    }

    pub closed spec fn spec_heading_level(&self) -> u8 {
        self.heading_level
    }

    pub closed spec fn runtimes_map(&self) -> Map<Seq<char>, RuntimeSpecView> {
        self.runtimes@
    }

    pub closed spec fn spec_default_mode(&self) -> ExecutionMode {
        self.default_mode
    }

    /// A well-formed configuration's heading depth lies in `[1, 6]`.
    pub proof fn lemma_wf_level(&self)
        requires
            self.wf(),
        ensures
            1 <= self.spec_heading_level() <= 6,
    {
    }

    pub fn heading_level(&self) -> (l: u8)
        ensures
            l == self.spec_heading_level(),
    {
        self.heading_level
    }

    pub fn default_mode(&self) -> (m: ExecutionMode)
        ensures
            m == self.spec_default_mode(),
    {
        self.default_mode
    }

    /// Sets the heading depth; a depth outside `[1, 6]` is rejected and
    /// leaves the configuration unchanged.
    pub fn set_heading_level(&mut self, level: u8) -> (r: Result<(), ParseError>)
        requires
            old(self).wf(),
        ensures
            final(self).wf(),
            1 <= level <= 6 ==> r == Ok::<(), ParseError>(()) && final(self).spec_heading_level()
                == level && final(self).runtimes_map() == old(self).runtimes_map()
                && final(self).spec_default_mode() == old(self).spec_default_mode(),
            !(1 <= level <= 6) ==> r == Err::<(), ParseError>(ParseError::InvalidHeadingLevel(level))
                && *final(self) == *old(self),
    {
        if 1 <= level && level <= 6 {
            self.heading_level = level;
            Ok(())
        } else {
            Err(ParseError::InvalidHeadingLevel(level))
        }
    }

    /// A configuration built from the plain values a configuration file
    /// holds: the file's runtime table is the whole registry (languages
    /// lowercased, later rows winning), nothing of the builtin seed is kept.
    /// A heading depth outside `[1, 6]` is rejected.
    pub fn from_parts(
        heading_level: u8,
        runtimes: Vec<(String, String, ExecutionMode)>,
        default_mode: ExecutionMode,
    ) -> (r: Result<Config, ParseError>)
        ensures
            1 <= heading_level <= 6 ==> (r matches Ok(c) && c.wf() && c.spec_heading_level()
                == heading_level && c.runtimes_map() == parts_map(runtimes@)
                && c.spec_default_mode() == default_mode),
            !(1 <= heading_level <= 6) ==> r == Err::<Config, ParseError>(
                ParseError::InvalidHeadingLevel(heading_level),
            ),
    {
        if !(1 <= heading_level && heading_level <= 6) {
            return Err(ParseError::InvalidHeadingLevel(heading_level));
        }
        let mut reg = Registry::new();
        let n = runtimes.len();
        let mut k: usize = 0;
        let mut rest = runtimes;
        proof {
            assert(rest@.take(0) =~= Seq::<(String, String, ExecutionMode)>::empty());
        }
        loop
            invariant
                k <= n,
                n == rest@.len(),
                reg.wf(),
                reg@ == parts_map(rest@.take(k as int)),
            ensures
                k == n,
                reg.wf(),
                reg@ == parts_map(rest@.take(n as int)),
            decreases n - k,
        {
            if k >= n {
                break;
            }
            let lowered = ascii_lowercase(rest[k].0.as_str());
            let command = rest[k].1.clone();
            let mo = rest[k].2;
            reg.upsert(lowered, command, Some(mo), default_mode);
            proof {
                assert(rest@.take(k as int + 1).drop_last() =~= rest@.take(k as int));
                assert(rest@.take(k as int + 1).last() == rest@[k as int]);
            }
            k = k + 1;
        }
        proof {
            assert(rest@.take(n as int) =~= rest@);
        }
        Ok(Config { heading_level, runtimes: reg, default_mode })
    }

    /// The whole runtime table, one row per registered language, for callers
    /// that persist or display it.
    pub fn runtime_rows(&self) -> (r: Vec<(String, RuntimeSpec)>)
        requires
            self.wf(),
        ensures
            crate::registry::entries_unique(r@),
            crate::registry::entries_map(r@) == self.runtimes_map(),
    {
        self.runtimes.rows()
    }

    /// The runtime registered for `lang`, or `None` when the language is
    /// unregistered.
    pub fn resolve(&self, lang: &str) -> (r: Option<&RuntimeSpec>)
        requires
            self.wf(),
        ensures
            match r {
                Some(rt) => self.runtimes_map().contains_key(lang@) && rt@ == self.runtimes_map()[
                    lang@
                ],
                None => !self.runtimes_map().contains_key(lang@),
            },
    {
        self.runtimes.resolve(lang)
    }

    /// Applies `lang:command` overrides to the registry, per
    /// `Registry::apply_overrides`; a language newly registered by an
    /// override without a batch mode receives this configuration's default
    /// mode.
    pub fn apply_runtime_overrides(
        &mut self,
        overrides: &Vec<String>,
        mode: Option<ExecutionMode>,
    ) -> (r: Result<(), ConfigError>)
        requires
            old(self).wf(),
        ensures
            final(self).wf(),
            final(self).spec_heading_level() == old(self).spec_heading_level(),
            final(self).spec_default_mode() == old(self).spec_default_mode(),
            batch_valid(overrides.deep_view()) ==> r == Ok::<(), ConfigError>(())
                && final(self).runtimes_map() == apply_batch(
                old(self).runtimes_map(),
                overrides.deep_view(),
                mode,
                old(self).spec_default_mode(),
            ),
            !batch_valid(overrides.deep_view()) ==> (r matches Err(e) && e
                matches ConfigError::MalformedOverride(t) && t@ == overrides.deep_view()[
                first_invalid(overrides.deep_view())
            ] && final(self).runtimes_map() == old(self).runtimes_map()),
    {
        let default = self.default_mode;
        self.runtimes.apply_overrides(overrides, mode, default)
    }
}

impl Default for Config {
    /// The default configuration: tasks are headings of depth 2, the registry
    /// is the builtin seed, and the default delivery mode is standard input.
    fn default() -> (c: Config)
        ensures
            c.wf(),
            c.spec_heading_level() == 2,
            c.runtimes_map() == builtin_map(),
            c.spec_default_mode() == ExecutionMode::Stdin,
    {
        Config {
            heading_level: 2,
            runtimes: builtin_registry(),
            default_mode: ExecutionMode::Stdin,
        }
    }
}

} // verus!
