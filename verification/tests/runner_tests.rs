use mq_task::config::Config;
use mq_task::errors::{LookupError, TaskError};
use mq_task::mode::ExecutionMode;
use mq_task::parser::parse;
use mq_task::runner::{build_args, plan_task, RunEvent, RunStatus, Runner};

fn demo_config() -> Config {
    Config::default()
}

#[test]
fn plan_resolves_task_and_runtime() {
    let doc = "## Build\n\nCompiles the project.\n\n```bash\necho building\n```";
    let sections = parse(doc, 2).unwrap();
    let config = demo_config();
    let state = plan_task(&sections, &config, "Build", Vec::new(), None).unwrap();
    assert_eq!(state.status(), RunStatus::Running);
    let step = state.next_step().unwrap();
    assert_eq!(step.lang, "bash");
    assert_eq!(step.body, "echo building\n");
    assert_eq!(step.command.as_deref(), Some("bash"));
    assert_eq!(step.mode, ExecutionMode::Stdin);
}

#[test]
fn run_succeeds_when_every_block_exits_zero() {
    let doc = "## T\n```sh\na\n```\n```sh\nb\n```\n";
    let sections = parse(doc, 2).unwrap();
    let config = demo_config();
    let mut state = plan_task(&sections, &config, "T", Vec::new(), None).unwrap();
    let mut ran = 0;
    while let Some(_step) = state.next_step() {
        ran += 1;
        state.report(RunEvent::Exited(0));
    }
    assert_eq!(ran, 2);
    assert_eq!(state.status(), RunStatus::Succeeded);
}

#[test]
fn nonzero_exit_aborts_remaining_blocks() {
    let doc = "## T\n```sh\none\n```\n```sh\ntwo\n```\n```sh\nthree\n```\n";
    let sections = parse(doc, 2).unwrap();
    let config = demo_config();
    let mut state = plan_task(&sections, &config, "T", Vec::new(), None).unwrap();
    let mut bodies_run: Vec<String> = Vec::new();
    while let Some(step) = state.next_step() {
        let body = step.body.clone();
        bodies_run.push(body.clone());
        if body == "two\n" {
            state.report(RunEvent::Exited(7));
        } else {
            state.report(RunEvent::Exited(0));
        }
    }
    assert_eq!(bodies_run, vec![String::from("one\n"), String::from("two\n")]);
    assert_eq!(state.status(), RunStatus::Failed(7));
    assert!(state.next_step().is_none());
}

#[test]
fn spawn_failure_ends_the_run() {
    let doc = "## T\n```sh\na\n```\n```sh\nb\n```\n";
    let sections = parse(doc, 2).unwrap();
    let config = demo_config();
    let mut state = plan_task(&sections, &config, "T", Vec::new(), None).unwrap();
    assert!(state.next_step().is_some());
    state.report(RunEvent::SpawnFailed);
    assert_eq!(state.status(), RunStatus::SpawnError);
    assert!(state.next_step().is_none());
}

#[test]
fn unknown_task_is_task_not_found() {
    let doc = "## Build\n```sh\nx\n```\n";
    let sections = parse(doc, 2).unwrap();
    let config = demo_config();
    let r = plan_task(&sections, &config, "Deploy", Vec::new(), None);
    assert_eq!(
        r.unwrap_err(),
        LookupError::TaskNotFound(String::from("Deploy"))
    );
}

#[test]
fn empty_selection_is_nothing_to_execute() {
    let doc = "## Docs\n\nOnly prose here.\n";
    let sections = parse(doc, 2).unwrap();
    let config = demo_config();
    let r = plan_task(&sections, &config, "Docs", Vec::new(), None);
    assert_eq!(r.unwrap_err(), LookupError::NothingToExecute);
}

#[test]
fn lang_filter_narrows_selection() {
    let doc = "## T\n```sh\nshell\n```\n```python\npy\n```\n";
    let sections = parse(doc, 2).unwrap();
    let config = demo_config();
    let mut state = plan_task(&sections, &config, "T", Vec::new(), Some("python")).unwrap();
    let step = state.next_step().unwrap();
    assert_eq!(step.lang, "python");
    assert_eq!(step.body, "py\n");
    state.report(RunEvent::Exited(0));
    assert_eq!(state.status(), RunStatus::Succeeded);
}

#[test]
fn lang_filter_with_no_match_is_nothing_to_execute() {
    let doc = "## T\n```sh\nshell\n```\n";
    let sections = parse(doc, 2).unwrap();
    let config = demo_config();
    let r = plan_task(&sections, &config, "T", Vec::new(), Some("go"));
    assert_eq!(r.unwrap_err(), LookupError::NothingToExecute);
}

#[test]
fn duplicate_titles_resolve_to_first() {
    let doc = "## Same\n```sh\nfirst\n```\n## Same\n```sh\nsecond\n```\n";
    let sections = parse(doc, 2).unwrap();
    let config = demo_config();
    let state = plan_task(&sections, &config, "Same", Vec::new(), None).unwrap();
    assert_eq!(state.next_step().unwrap().body, "first\n");
}

#[test]
fn unregistered_language_occupies_its_step() {
    let doc = "## T\n```sh\nok\n```\n```cobol\nnope\n```\n";
    let sections = parse(doc, 2).unwrap();
    let config = demo_config();
    let mut state = plan_task(&sections, &config, "T", Vec::new(), None).unwrap();
    let first = state.next_step().unwrap();
    assert!(first.command.is_some());
    state.report(RunEvent::Exited(0));
    let second = state.next_step().unwrap();
    assert_eq!(second.lang, "cobol");
    assert!(second.command.is_none());
    let e = state.mark_missing_runtime();
    assert_eq!(e, LookupError::LanguageNotRegistered(String::from("cobol")));
    assert_eq!(state.status(), RunStatus::NoRuntime);
    assert!(state.next_step().is_none());
}

#[test]
fn trailing_args_are_kept_for_every_spawn() {
    let doc = "## T\n```sh\nx\n```\n";
    let sections = parse(doc, 2).unwrap();
    let config = demo_config();
    let args = vec![String::from("--fast"), String::from("one two")];
    let state = plan_task(&sections, &config, "T", args.clone(), None).unwrap();
    assert_eq!(state.args(), &args);
}

#[test]
fn argv_per_mode() {
    let body = String::from("echo hi\n");
    let args = vec![String::from("a"), String::from("b")];
    let stdin_argv = build_args(ExecutionMode::Stdin, &body, None, &args);
    assert_eq!(stdin_argv, args);
    let arg_argv = build_args(ExecutionMode::Arg, &body, None, &args);
    assert_eq!(
        arg_argv,
        vec![String::from("echo hi\n"), String::from("a"), String::from("b")]
    );
    let path = String::from("/tmp/step.sh");
    let file_argv = build_args(ExecutionMode::File, &body, Some(&path), &args);
    assert_eq!(
        file_argv,
        vec![
            String::from("/tmp/step.sh"),
            String::from("a"),
            String::from("b")
        ]
    );
}

#[test]
fn single_block_succeeds_iff_child_exits_zero() {
    let doc = "## Build\n\nCompiles the project.\n\n```bash\necho building\n```";
    let sections = parse(doc, 2).unwrap();
    let config = demo_config();
    let mut ok_run = plan_task(&sections, &config, "Build", Vec::new(), None).unwrap();
    ok_run.report(RunEvent::Exited(0));
    assert_eq!(ok_run.status(), RunStatus::Succeeded);
    let mut bad_run = plan_task(&sections, &config, "Build", Vec::new(), None).unwrap();
    bad_run.report(RunEvent::Exited(1));
    assert_eq!(bad_run.status(), RunStatus::Failed(1));
}

#[test]
fn runner_lists_and_plans() {
    let doc = "## Build\n\nCompiles.\n\n```bash\necho building\n```";
    let runner = Runner::new(Config::default());
    let sections = runner.list_task_sections(doc).unwrap();
    assert_eq!(sections.len(), 1);
    assert_eq!(sections[0].title, "Build");
    let state = runner
        .plan_task_with_lang_filter(doc, "Build", Vec::new(), None)
        .unwrap();
    assert_eq!(state.next_step().unwrap().command.as_deref(), Some("bash"));
    let missing = runner.plan_task_with_lang_filter(doc, "Nope", Vec::new(), None);
    assert_eq!(
        missing.unwrap_err(),
        TaskError::Lookup(LookupError::TaskNotFound(String::from("Nope")))
    );
}
