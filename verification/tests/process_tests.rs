use peak_mem::process::ProcessRunner;
use peak_mem::types::PeakMemError;

#[test]
fn test_empty_command() {
    let result = ProcessRunner::new(vec![]);
    assert!(result.is_err());
}

#[test]
fn an_empty_command_is_a_spawn_error() {
    assert!(matches!(
        ProcessRunner::new(vec![]),
        Err(PeakMemError::ProcessSpawn(message)) if message == "No command provided"
    ));
}

#[test]
fn a_command_is_its_program_and_arguments() {
    let runner = ProcessRunner::new(vec!["echo".to_string(), "test".to_string()]).unwrap();
    assert_eq!(runner.program(), "echo");
    assert_eq!(runner.args(), vec!["test"]);
    assert_eq!(runner.command_string(), "echo test");

    let alone = ProcessRunner::new(vec!["true".to_string()]).unwrap();
    assert_eq!(alone.program(), "true");
    assert!(alone.args().is_empty());
    assert_eq!(alone.command_string(), "true");

    let spaced = ProcessRunner::new(vec![
        "sh".to_string(),
        "-c".to_string(),
        "while true; do sleep 0.1; done".to_string(),
        String::new(),
    ])
    .unwrap();
    assert_eq!(spaced.command_string(), "sh -c while true; do sleep 0.1; done ");
    assert_eq!(spaced.args().len(), 3);
}

#[test]
fn spawn_failures_name_the_program() {
    let runner = ProcessRunner::new(vec!["nope".to_string(), "-x".to_string()]).unwrap();
    assert!(matches!(
        runner.spawn_error("No such file or directory (os error 2)"),
        PeakMemError::ProcessSpawn(message)
            if message == "Failed to spawn 'nope': No such file or directory (os error 2)"
    ));
    assert!(matches!(runner.spawned_pid(Some(42)), Ok(42)));
    assert!(matches!(
        runner.spawned_pid(None),
        Err(PeakMemError::ProcessSpawn(message)) if message == "Failed to get process ID"
    ));
}
