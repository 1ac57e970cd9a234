use mq_task::mode::ExecutionMode;
use mq_task::registry::{Registry, RuntimeSpec};

#[test]
fn empty_registry_resolves_nothing() {
    let reg = Registry::new();
    assert!(reg.resolve("bash").is_none());
    assert_eq!(reg.len(), 0);
}

#[test]
fn upsert_inserts_and_replaces() {
    let mut reg = Registry::new();
    reg.upsert(
        String::from("go"),
        String::from("go run"),
        None,
        ExecutionMode::Stdin,
    );
    assert_eq!(reg.len(), 1);
    let go = reg.resolve("go").unwrap();
    assert_eq!(go.command, "go run");
    assert_eq!(go.mode, ExecutionMode::Stdin);
    reg.upsert(
        String::from("go"),
        String::from("gotip run"),
        Some(ExecutionMode::File),
        ExecutionMode::Stdin,
    );
    assert_eq!(reg.len(), 1);
    let go = reg.resolve("go").unwrap();
    assert_eq!(go.command, "gotip run");
    assert_eq!(go.mode, ExecutionMode::File);
    reg.upsert(
        String::from("go"),
        String::from("go run"),
        None,
        ExecutionMode::Stdin,
    );
    assert_eq!(reg.resolve("go").unwrap().mode, ExecutionMode::File);
}

#[test]
fn rows_list_the_whole_table() {
    let mut reg = Registry::new();
    reg.upsert(
        String::from("go"),
        String::from("go run"),
        Some(ExecutionMode::Stdin),
        ExecutionMode::Stdin,
    );
    reg.upsert(
        String::from("lua"),
        String::from("lua5.4"),
        Some(ExecutionMode::Arg),
        ExecutionMode::Stdin,
    );
    let mut rows = reg.rows();
    rows.sort_by(|a, b| a.0.cmp(&b.0));
    assert_eq!(
        rows,
        vec![
            (
                String::from("go"),
                RuntimeSpec {
                    command: String::from("go run"),
                    mode: ExecutionMode::Stdin
                }
            ),
            (
                String::from("lua"),
                RuntimeSpec {
                    command: String::from("lua5.4"),
                    mode: ExecutionMode::Arg
                }
            ),
        ]
    );
}
