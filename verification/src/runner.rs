//! The task executor. Resolution and sequencing are decided here; spawning
//! processes, feeding standard input and managing temporary files are the
//! caller's job. `plan_task` resolves a named task to an ordered run plan;
//! `RunState` then dispatches one code block at a time and consumes the exit
//! events the caller reports back, aborting the remainder of the task at the
//! first failure.

use vstd::prelude::*;
use crate::config::Config;
use crate::errors::{LookupError, ParseError, TaskError};

use crate::mode::ExecutionMode;
use crate::parser::{parse, secs_view, spec_parse, Code, CodeView, Section, SectionView};
use crate::registry::RuntimeSpecView;

verus! {

/// One planned execution step: a code block together with the runtime its
/// language resolved to (`None` when the language is unregistered, which ends
/// the run when the step's turn comes).
#[derive(Debug, Clone, PartialEq, Eq)]
pub struct Step {
    pub lang: String,
    pub body: String,
    pub command: Option<String>,
    pub mode: ExecutionMode,
}

/// Mathematical image of a `Step`.
#[verifier::ext_equal]
pub struct StepView {
    pub lang: Seq<char>,
    pub body: Seq<char>,
    pub command: Option<Seq<char>>,
    pub mode: ExecutionMode,
}

impl View for Step {
    type V = StepView;

    open spec fn view(&self) -> StepView {
        StepView {
            lang: self.lang@,
            body: self.body@,
            command: match self.command {
                Some(ref c) => Some(c@),
                None => None,
            },
            mode: self.mode,
        }
    }
}

/// Index of the first section titled `name`, or the sequence's length when
/// none is.
pub open spec fn first_title_match(secs: Seq<SectionView>, name: Seq<char>) -> int
    decreases secs.len(),
{
    if secs.len() == 0 {
        0
    } else if secs[0].title == name {
        0
    } else {
        1 + first_title_match(secs.drop_first(), name)
    }
}

proof fn lemma_first_title_match_at(secs: Seq<SectionView>, name: Seq<char>, k: int)
    requires
        0 <= k <= secs.len(),
        forall|j: int| 0 <= j < k ==> #[trigger] secs[j].title != name,
        k < secs.len() ==> secs[k].title == name,
    ensures
        first_title_match(secs, name) == k,
    decreases secs.len(),
{
    if k > 0 {
        let rest = secs.drop_first();
        assert(secs[0].title != name);
        assert forall|j: int| 0 <= j < k - 1 implies #[trigger] rest[j].title != name by {
            assert(rest[j] == secs[j + 1]);
        }
        if k < secs.len() {
            assert(rest[k - 1] == secs[k]);
        }
        lemma_first_title_match_at(rest, name, k - 1);
    }
}

/// Whether a code block passes the language filter: every block does when no
/// filter is given.
pub open spec fn code_selected(c: CodeView, filter: Option<Seq<char>>) -> bool {
    match filter {
        None => true,
        Some(f) => c.lang == f,
    }
}

/// The code blocks the language filter selects, in source order: all of them
/// when no filter is given.
pub open spec fn selected_codes(codes: Seq<CodeView>, filter: Option<Seq<char>>) -> Seq<CodeView>
    decreases codes.len(),
{
    if codes.len() == 0 {
        Seq::empty()
    } else {
        let rest = selected_codes(codes.drop_last(), filter);
        if code_selected(codes.last(), filter) {
            rest.push(codes.last())
        } else {
            rest
        }
    }
}

/// The run plan the selected code blocks yield under a registry mapping: one
/// step per block, each carrying what its language resolved to.
pub open spec fn plan_view(codes: Seq<CodeView>, m: Map<Seq<char>, RuntimeSpecView>, default: ExecutionMode) -> Seq<
    StepView,
> {
    codes.map_values(
        |c: CodeView|
            StepView {
                lang: c.lang,
                body: c.body,
                command: if m.contains_key(c.lang) {
                    Some(m[c.lang].command)
                } else {
                    None
                },
                mode: if m.contains_key(c.lang) {
                    m[c.lang].mode
                } else {
                    default
                },
            },
    )
}

/// Where a run stands.
#[derive(Debug, Clone, Copy, PartialEq, Eq, Structural)]
pub enum RunStatus {
    /// Blocks remain and nothing has failed.
    Running,
    /// Every selected block exited with status zero.
    Succeeded,
    /// A block exited with this non-zero status; the remaining blocks were
    /// abandoned.
    Failed(i32),
    /// The pending block's process could not be spawned, or its input could
    /// not be delivered.
    SpawnError,
    /// The pending block's language had no registered runtime.
    NoRuntime,
}

/// What the caller reports after dispatching one block.
#[derive(Debug, Clone, Copy, PartialEq, Eq, Structural)]
pub enum RunEvent {
    /// The child exited with this status code.
    Exited(i32),
    /// The child could not be spawned, or writing its input failed.
    SpawnFailed,
}

/// Mathematical image of a `RunState`.
#[verifier::ext_equal]
pub struct RunStateView {
    pub steps: Seq<StepView>,
    pub args: Seq<Seq<char>>,
    pub next: int,
    pub status: RunStatus,
}

/// Whether a run may dispatch another block.
pub open spec fn can_dispatch(v: RunStateView) -> bool {
    v.status == RunStatus::Running && v.next < v.steps.len()
}

/// The transition one reported event causes: a zero exit advances to the next
/// block (succeeding after the last one); any non-zero exit, spawn failure or
/// missing runtime ends the run at the current block.
pub open spec fn spec_step(v: RunStateView, ev: RunEvent) -> RunStateView {
    match ev {
        RunEvent::Exited(code) => if code == 0 {
            RunStateView {
                steps: v.steps,
                args: v.args,
                next: v.next + 1,
                status: if v.next + 1 == v.steps.len() {
                    RunStatus::Succeeded
                } else {
                    RunStatus::Running
                },
            }
        } else {
            RunStateView { steps: v.steps, args: v.args, next: v.next, status: RunStatus::Failed(code) }
        },
        RunEvent::SpawnFailed => RunStateView {
            steps: v.steps,
            args: v.args,
            next: v.next,
            status: RunStatus::SpawnError,
        },
    }
}

/// The sequential run of one task. The caller repeatedly takes `next_step`,
/// spawns it, and reports the outcome through `report` (or
/// `mark_missing_runtime` when the step carries no command); the state
/// machine decides everything else.
#[derive(Debug)]
pub struct RunState {
    steps: Vec<Step>,
    args: Vec<String>,
    next: usize,
    status: RunStatus,
}

impl View for RunState {
    type V = RunStateView;

    closed spec fn view(&self) -> RunStateView {
        RunStateView {
            steps: self.steps@.map_values(|s: Step| s@),
            args: self.args.deep_view(),
            next: self.next as int,
            status: self.status,
        }
    }
}

impl RunState {
    /// The dispatch position never passes the plan's end.
    pub closed spec fn wf(&self) -> bool {
        self.next <= self.steps@.len()
    }

    pub fn status(&self) -> (s: RunStatus)
        ensures
            s == self@.status,
    {
        self.status
    }

    /// The arguments forwarded to every spawned block.
    pub fn args(&self) -> (r: &Vec<String>)
        ensures
            r.deep_view() == self@.args,
    {
        &self.args
    }

    /// The pending block, when the run may dispatch one.
    pub fn next_step(&self) -> (r: Option<&Step>)
        requires
            self.wf(),
        ensures
            match r {
                Some(st) => can_dispatch(self@) && st@ == self@.steps[self@.next],
                None => !can_dispatch(self@),
            },
    {
        match self.status {
            RunStatus::Running => {
                if self.next < self.steps.len() {
                    Some(&self.steps[self.next])
                } else {
                    None
                }
            },
            _ => None,
        }
    }

    /// Consumes the outcome of the pending block.
    pub fn report(&mut self, ev: RunEvent)
        requires
            old(self).wf(),
            can_dispatch(old(self)@),
        ensures
            final(self).wf(),
            final(self)@ == spec_step(old(self)@, ev),
    {
        match ev {
            RunEvent::Exited(code) => {
                if code == 0 {
                    let len = self.steps.len();
                    self.next = self.next + 1;
                    if self.next == len {
                        self.status = RunStatus::Succeeded;
                    }
                } else {
                    self.status = RunStatus::Failed(code);
                }
            },
            RunEvent::SpawnFailed => {
                self.status = RunStatus::SpawnError;
            },
        }
        proof {
            assert(final(self)@ =~= spec_step(old(self)@, ev));
        }
    }

    /// Ends the run because the pending block's language has no registered
    /// runtime, naming that language in the returned error.
    pub fn mark_missing_runtime(&mut self) -> (e: LookupError)
        requires
            old(self).wf(),
            can_dispatch(old(self)@),
        ensures
            final(self).wf(),
            final(self)@ == (RunStateView {
                steps: old(self)@.steps,
                args: old(self)@.args,
                next: old(self)@.next,
                status: RunStatus::NoRuntime,
            }),
            e matches LookupError::LanguageNotRegistered(l) && l@ == old(self)@.steps[old(
                self,
            )@.next].lang,
    {
        let lang = self.steps[self.next].lang.clone();
        self.status = RunStatus::NoRuntime;
        proof {
            assert(final(self)@ =~= (RunStateView {
                steps: old(self)@.steps,
                args: old(self)@.args,
                next: old(self)@.next,
                status: RunStatus::NoRuntime,
            }));
        }
        LookupError::LanguageNotRegistered(lang)
    }
}

/// A non-zero exit aborts the task: after block `k` reports exit code
/// `code != 0`, the run's status carries exactly that code, the dispatch
/// position stays at `k`, and no further block can ever be dispatched — every
/// later block of the plan goes unrun.
pub proof fn lemma_nonzero_exit_aborts(v: RunStateView, code: i32)
    requires
        code != 0,
    ensures
        spec_step(v, RunEvent::Exited(code)).status == RunStatus::Failed(code),
        spec_step(v, RunEvent::Exited(code)).next == v.next,
        spec_step(v, RunEvent::Exited(code)).steps == v.steps,
        !can_dispatch(spec_step(v, RunEvent::Exited(code))),
{
}

/// The state after the caller has dispatched blocks one at a time and
/// reported these exit codes in order, while the run allowed it.
pub open spec fn run_events(v: RunStateView, exits: Seq<i32>) -> RunStateView
    decreases exits.len(),
{
    if exits.len() == 0 {
        v
    } else {
        run_events(spec_step(v, RunEvent::Exited(exits[0])), exits.drop_first())
    }
}

/// Over a whole run: when block `k` is the first to exit non-zero, consuming
/// the exit reports of blocks `0..=k` leaves the run failed with exactly
/// block `k`'s exit code, the dispatch position resting on block `k`, and no
/// further block dispatchable — the blocks after `k` never run.
pub proof fn lemma_first_nonzero_exit_aborts_run(v: RunStateView, exits: Seq<i32>, k: int)
    requires
        0 <= k < exits.len(),
        v.status == RunStatus::Running,
        v.next + k < v.steps.len(),
        forall|j: int| 0 <= j < k ==> exits[j] == 0,
        exits[k] != 0,
    ensures
        run_events(v, exits.take(k + 1)).status == RunStatus::Failed(exits[k]),
        run_events(v, exits.take(k + 1)).next == v.next + k,
        run_events(v, exits.take(k + 1)).steps == v.steps,
        !can_dispatch(run_events(v, exits.take(k + 1))),
    decreases k,
{
    let taken = exits.take(k + 1);
    let v1 = spec_step(v, RunEvent::Exited(exits[0]));
    assert(taken[0] == exits[0]);
    if k == 0 {
        assert(taken.drop_first() =~= Seq::<i32>::empty());
        assert(run_events(v, taken) == run_events(v1, taken.drop_first()));
    } else {
        assert(exits[0] == 0);
        assert(v1.status == RunStatus::Running);
        assert(v1.next == v.next + 1);
        let rest = exits.drop_first();
        assert forall|j: int| 0 <= j < k - 1 implies #[trigger] rest[j] == 0 by {
            assert(rest[j] == exits[j + 1]);
        }
        assert(rest[k - 1] == exits[k]);
        lemma_first_nonzero_exit_aborts_run(v1, rest, k - 1);
        assert(taken.drop_first() =~= rest.take(k));
        assert(run_events(v, taken) == run_events(v1, taken.drop_first()));
    }
}

/// Resolves a named task against parsed sections: the first section whose
/// title matches wins; its code blocks, narrowed by the language filter, make
/// the plan, each block carrying its language's runtime from `config` (an
/// unregistered language still occupies its step and fails when reached). A
/// found task whose selection is empty is `NothingToExecute`, distinct from
/// `TaskNotFound`.
pub fn plan_task(
    sections: &Vec<Section>,
    config: &Config,
    task_name: &str,
    args: Vec<String>,
    lang_filter: Option<&str>,
) -> (r: Result<RunState, LookupError>)
    requires
        config.wf(),
    ensures
        ({
            let secs = secs_view(sections@);
            let filt = match lang_filter {
                Some(f) => Some(f@),
                None => None,
            };
            let fm = first_title_match(secs, task_name@);
            &&& (fm == secs.len() ==> (r matches Err(e) && e matches LookupError::TaskNotFound(t)
                && t@ == task_name@))
            &&& (fm < secs.len() && selected_codes(secs[fm].codes, filt).len() == 0 ==> r == Err::<
                RunState,
                LookupError,
            >(LookupError::NothingToExecute))
            &&& (fm < secs.len() && selected_codes(secs[fm].codes, filt).len() > 0 ==> (r matches Ok(
                st,
            ) && st.wf() && st@.steps == plan_view(
                selected_codes(secs[fm].codes, filt),
                config.runtimes_map(),
                config.spec_default_mode(),
            ) && st@.args == args.deep_view() && st@.next == 0 && st@.status
                == RunStatus::Running))
        }),
{
    let ghost secs = secs_view(sections@);
    let ghost filt: Option<Seq<char>> = match lang_filter {
        Some(f) => Some(f@),
        None => None,
    };
    let name = task_name.to_owned();
    let n = sections.len();
    let mut k: usize = 0;
    loop
        invariant
            k <= n,
            n == secs.len(),
            secs == secs_view(sections@),
            name@ == task_name@,
            forall|j: int| 0 <= j < k ==> #[trigger] secs[j].title != task_name@,
        ensures
            k <= n,
            forall|j: int| 0 <= j < k ==> #[trigger] secs[j].title != task_name@,
            k < n ==> secs[k as int].title == task_name@,
            k == n ==> forall|j: int| 0 <= j < n ==> #[trigger] secs[j].title != task_name@,
        decreases n - k,
    {
        if k >= n {
            break;
        }
        assert(sections@[k as int]@ == secs[k as int]);
        if sections[k].title == name {
            break;
        }
        k = k + 1;
    }
    proof {
        lemma_first_title_match_at(secs, task_name@, k as int);
    }
    if k >= n {
        return Err(LookupError::TaskNotFound(name));
    }
    let section = &sections[k];
    let ghost codes = secs[k as int].codes;
    let filt_string: Option<String> = match lang_filter {
        Some(f) => Some(f.to_owned()),
        None => None,
    };
    let m = section.codes.len();
    let mut selected: Vec<Code> = Vec::new();
    proof {
        assert(codes.take(0) =~= Seq::<CodeView>::empty());
        assert(selected@.map_values(|c: Code| c@) =~= selected_codes(codes.take(0), filt));
    }
    let mut j: usize = 0;
    loop
        invariant
            j <= m,
            m == section.codes@.len(),
            codes == section@.codes,
            codes.len() == m,
            (match lang_filter {
                Some(f) => filt == Some(f@),
                None => filt is None,
            }),
            (match filt_string {
                Some(ref fs) => filt == Some(fs@),
                None => filt is None,
            }),
            selected@.map_values(|c: Code| c@) == selected_codes(codes.take(j as int), filt),
        ensures
            selected@.map_values(|c: Code| c@) == selected_codes(codes, filt),
        decreases m - j,
    {
        if j >= m {
            proof {
                assert(codes.take(m as int) =~= codes);
            }
            break;
        }
        let code = &section.codes[j];
        assert(code@ == codes[j as int]);
        let keep = match filt_string {
            Some(ref fs) => code.lang == *fs,
            None => true,
        };
        assert(keep == code_selected(codes[j as int], filt));
        let ghost pre = selected@.map_values(|c: Code| c@);
        if keep {
            selected.push(Code { lang: code.lang.clone(), body: code.body.clone() });
            proof {
                assert(selected@.map_values(|c: Code| c@) =~= pre.push(codes[j as int]));
            }
        }
        proof {
            let t = codes.take(j as int + 1);
            assert(t.drop_last() =~= codes.take(j as int));
            assert(t.last() == codes[j as int]);
            if keep {
                assert(selected_codes(t, filt) =~= pre.push(codes[j as int]));
            } else {
                assert(selected_codes(t, filt) =~= pre);
            }
        }
        j = j + 1;
    }
    if selected.is_empty() {
        return Err(LookupError::NothingToExecute);
    }
    let ghost sel = selected_codes(codes, filt);
    let default = config.default_mode();
    let p = selected.len();
    let mut steps: Vec<Step> = Vec::new();
    proof {
        assert(sel.take(0) =~= Seq::<CodeView>::empty());
        assert(steps@.map_values(|s: Step| s@) =~= plan_view(
            sel.take(0),
            config.runtimes_map(),
            config.spec_default_mode(),
        ));
    }
    let mut j: usize = 0;
    loop
        invariant
            j <= p,
            p == selected@.len(),
            config.wf(),
            default == config.spec_default_mode(),
            sel == selected@.map_values(|c: Code| c@),
            steps@.map_values(|s: Step| s@) == plan_view(
                sel.take(j as int),
                config.runtimes_map(),
                config.spec_default_mode(),
            ),
        ensures
            steps@.map_values(|s: Step| s@) == plan_view(
                sel,
                config.runtimes_map(),
                config.spec_default_mode(),
            ),
        decreases p - j,
    {
        if j >= p {
            proof {
                assert(sel.take(p as int) =~= sel);
            }
            break;
        }
        let code = &selected[j];
        assert(code@ == sel[j as int]);
        let step = match config.resolve(code.lang.as_str()) {
            Some(rt) => Step {
                lang: code.lang.clone(),
                body: code.body.clone(),
                command: Some(rt.command.clone()),
                mode: rt.mode,
            },
            None => Step {
                lang: code.lang.clone(),
                body: code.body.clone(),
                command: None,
                mode: default,
            },
        };
        let ghost pre = steps@.map_values(|s: Step| s@);
        steps.push(step);
        proof {
            assert(steps@.map_values(|s: Step| s@) =~= pre.push(steps@.last()@));
            assert(sel.take(j as int + 1) =~= sel.take(j as int).push(sel[j as int]));
            assert(steps@.map_values(|s: Step| s@) =~= plan_view(
                sel.take(j as int + 1),
                config.runtimes_map(),
                config.spec_default_mode(),
            ));
        }
        j = j + 1;
    }
    Ok(RunState { steps, args, next: 0, status: RunStatus::Running })
}

/// The command-line arguments a spawned runtime receives, per delivery mode:
/// under `Stdin` just the trailing arguments, under `Arg` the body first,
/// under `File` the temporary file's path first.
pub open spec fn spec_argv(
    mode: ExecutionMode,
    body: Seq<char>,
    path: Option<Seq<char>>,
    args: Seq<Seq<char>>,
) -> Seq<Seq<char>> {
    match mode {
        ExecutionMode::Stdin => args,
        ExecutionMode::Arg => seq![body] + args,
        ExecutionMode::File => seq![path->0] + args,
    }
}

/// What a runtime receives on standard input: the body under `Stdin` mode,
/// nothing otherwise.
pub open spec fn stdin_payload(mode: ExecutionMode, body: Seq<char>) -> Option<Seq<char>> {
    if mode == ExecutionMode::Stdin {
        Some(body)
    } else {
        None
    }
}

/// Builds the argument list for one step; for `File` mode the caller supplies
/// the path of the temporary file it created.
pub fn build_args(
    mode: ExecutionMode,
    body: &String,
    temp_path: Option<&String>,
    args: &Vec<String>,
) -> (r: Vec<String>)
    requires
        mode == ExecutionMode::File ==> temp_path is Some,
    ensures
        r.deep_view() == spec_argv(
            mode,
            body@,
            match temp_path {
                Some(p) => Some(p@),
                None => None,
            },
            args.deep_view(),
        ),
{
    let mut r: Vec<String> = Vec::new();
    match mode {
        ExecutionMode::Stdin => {},
        ExecutionMode::Arg => {
            r.push(body.clone());
        },
        ExecutionMode::File => {
            match temp_path {
                Some(p) => r.push(p.clone()),
                None => {},
            }
        },
    }
    let ghost head = r.deep_view();
    let n = args.len();
    let mut k: usize = 0;
    loop
        invariant
            k <= n,
            n == args@.len(),
            r.deep_view() == head + args.deep_view().take(k as int),
        ensures
            r.deep_view() == head + args.deep_view(),
        decreases n - k,
    {
        if k >= n {
            proof {
                assert(args.deep_view().take(n as int) =~= args.deep_view());
            }
            break;
        }
        let ghost pre = r.deep_view();
        r.push(args[k].clone());
        proof {
            assert(r.deep_view() =~= pre.push(args@[k as int]@));
            assert(head + args.deep_view().take(k as int + 1) =~= (head + args.deep_view().take(
                k as int,
            )).push(args@[k as int]@));
        }
        k = k + 1;
    }
    proof {
        match mode {
            ExecutionMode::Stdin => {
                assert(head =~= Seq::<Seq<char>>::empty());
                assert(head + args.deep_view() =~= args.deep_view());
            },
            ExecutionMode::Arg => {
                assert(head =~= seq![body@]);
            },
            ExecutionMode::File => {
                assert(head =~= seq![temp_path->0@]);
            },
        }
    }
    r
}

/// The planning surface behind the command-line front end: parse the text at
/// the configured depth, then resolve the named task.
#[derive(Debug)]
pub struct Runner {
    config: Config,
}

impl Runner {
    pub closed spec fn cfg(&self) -> Config {
        self.config
    }

    pub fn new(config: Config) -> (r: Runner)
        requires
            config.wf(),
        ensures
            r.cfg() == config,
            r.cfg().wf(),
    {
        Runner { config }
    }

    pub fn config(&self) -> (c: &Config)
        ensures
            c == self.cfg(),
    {
        &self.config
    }

    /// All sections of the document at the configured heading depth.
    pub fn list_task_sections(&self, text: &str) -> (r: Result<Vec<Section>, ParseError>)
        requires
            self.cfg().wf(),
        ensures
            match spec_parse(text@, self.cfg().spec_heading_level() as int) {
                Some(secs) => r matches Ok(v) && secs_view(v@) == secs,
                None => r == Err::<Vec<Section>, ParseError>(ParseError::UnterminatedFence),
            },
    {
        proof {
            self.config.lemma_wf_level();
        }
        parse(text, self.config.heading_level())
    }

    /// Parses the document and resolves the named task into a run plan, per
    /// `parse` and `plan_task`.
    pub fn plan_task_with_lang_filter(
        &self,
        text: &str,
        task_name: &str,
        args: Vec<String>,
        lang_filter: Option<&str>,
    ) -> (r: Result<RunState, TaskError>)
        requires
            self.cfg().wf(),
        ensures
            ({
                match spec_parse(text@, self.cfg().spec_heading_level() as int) {
                    None => r == Err::<RunState, TaskError>(
                        TaskError::Parse(ParseError::UnterminatedFence),
                    ),
                    Some(secs) => {
                        let filt = match lang_filter {
                            Some(f) => Some(f@),
                            None => None,
                        };
                        let fm = first_title_match(secs, task_name@);
                        &&& (fm == secs.len() ==> (r matches Err(e) && e matches TaskError::Lookup(
                            le,
                        ) && le matches LookupError::TaskNotFound(t) && t@ == task_name@))
                        &&& (fm < secs.len() && selected_codes(secs[fm].codes, filt).len() == 0
                            ==> r == Err::<RunState, TaskError>(
                            TaskError::Lookup(LookupError::NothingToExecute),
                        ))
                        &&& (fm < secs.len() && selected_codes(secs[fm].codes, filt).len() > 0
                            ==> (r matches Ok(st) && st.wf() && st@.steps == plan_view(
                            selected_codes(secs[fm].codes, filt),
                            self.cfg().runtimes_map(),
                            self.cfg().spec_default_mode(),
                        ) && st@.args == args.deep_view() && st@.next == 0 && st@.status
                            == RunStatus::Running))
                    },
                }
            }),
    {
        proof {
            self.config.lemma_wf_level();
        }
        let sections = match parse(text, self.config.heading_level()) {
            Ok(v) => v,
            Err(e) => {
                return Err(TaskError::Parse(e));
            },
        };
        match plan_task(&sections, &self.config, task_name, args, lang_filter) {
            Ok(st) => Ok(st),
            Err(e) => Err(TaskError::Lookup(e)),
        }
    }
}

} // verus!
