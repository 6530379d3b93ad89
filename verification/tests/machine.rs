use dotflow::bootstrap::{init, step, Action, Event, Phase};
use dotflow::config::BootstrapError;

/// Drives one whole bootstrap run against a simulated world and
/// returns the final phase with every action the machine issued.
fn run(
    home: Option<&str>,
    exists: bool,
    created_ok: bool,
    content: Option<&str>,
) -> (Phase, Vec<Action>) {
    let (mut phase, mut action) = init();
    let mut issued = vec![action.clone()];
    loop {
        let event = match &action {
            Action::ResolveHome => Event::HomeIs { home: home.map(|s| s.to_string()) },
            Action::CheckFile { file: _ } => Event::FileExists { exists },
            Action::CreateFile { file: _ } => Event::Created { ok: created_ok },
            Action::ReadFile { file: _ } => Event::ReadDone {
                content: content.map(|s| s.to_string()),
            },
            Action::Stop => break,
        };
        let (p, a) = step(phase, event);
        phase = p;
        action = a;
        issued.push(action.clone());
    }
    (phase, issued)
}

#[test]
fn first_run_creates_the_file_before_reading_it() {
    let (phase, issued) = run(Some("/home/alice"), false, true, Some(""));
    let f = "/home/alice/.dotflow.toml".to_string();
    assert_eq!(
        issued,
        vec![
            Action::ResolveHome,
            Action::CheckFile { file: f.clone() },
            Action::CreateFile { file: f.clone() },
            Action::ReadFile { file: f },
            Action::Stop,
        ]
    );
    match phase {
        Phase::Ready { config } => assert_eq!(config.path, "/home/alice/.config"),
        other => panic!("expected Ready, got {:?}", other),
    }
}

#[test]
fn existing_valid_file_loads_its_path() {
    let (phase, _) = run(
        Some("/home/alice"),
        true,
        true,
        Some("[config]\npath = \"/opt/dotfiles\""),
    );
    match phase {
        Phase::Ready { config } => assert_eq!(config.path, "/opt/dotfiles"),
        other => panic!("expected Ready, got {:?}", other),
    }
}

#[test]
fn bootstrap_twice_is_idempotent() {
    let text = "[config]\npath = \"/opt/dotfiles\"";
    let (first, acts1) = run(Some("/home/alice"), true, true, Some(text));
    let (second, acts2) = run(Some("/home/alice"), true, true, Some(text));
    assert_eq!(first, second);
    assert_eq!(acts1, acts2);
    for a in &acts1 {
        assert!(!matches!(a, Action::CreateFile { .. }));
    }
}

#[test]
fn missing_home_is_fatal_before_any_file_access() {
    let (phase, issued) = run(None, true, true, Some(""));
    assert_eq!(issued, vec![Action::ResolveHome, Action::Stop]);
    match phase {
        Phase::Failed { error } => {
            assert_eq!(error, BootstrapError::NoHome);
            assert_eq!(error.exit_code(), 1);
            assert_eq!(error.message(), "Could not get home path");
        },
        other => panic!("expected Failed, got {:?}", other),
    }
}

#[test]
fn unreadable_file_is_fatal_and_names_the_path() {
    let (phase, _) = run(Some("/home/alice"), true, true, None);
    match phase {
        Phase::Failed { error } => {
            assert!(error.message().contains("/home/alice/.dotflow.toml"));
            assert_eq!(error.exit_code(), 1);
        },
        other => panic!("expected Failed, got {:?}", other),
    }
}

#[test]
fn malformed_file_is_fatal_and_names_the_path() {
    let (phase, _) = run(Some("/home/alice"), true, true, Some("not valid = [toml"));
    match phase {
        Phase::Failed { error } => {
            assert_eq!(
                error,
                BootstrapError::Malformed { file: "/home/alice/.dotflow.toml".to_string() }
            );
            assert!(error.message().contains("/home/alice/.dotflow.toml"));
            assert_eq!(error.exit_code(), 1);
        },
        other => panic!("expected Failed, got {:?}", other),
    }
}

#[test]
fn bad_path_value_is_fatal_through_the_machine() {
    let (phase, _) = run(Some("/home/alice"), true, true, Some("[config]\npath = 3"));
    match phase {
        Phase::Failed { error } => {
            assert_eq!(
                error,
                BootstrapError::Malformed { file: "/home/alice/.dotflow.toml".to_string() }
            );
        },
        other => panic!("expected Failed, got {:?}", other),
    }
}

#[test]
fn creation_failure_is_tolerated_until_the_read_fails() {
    let (phase, _) = run(Some("/home/alice"), false, false, None);
    match phase {
        Phase::Failed { error } => {
            assert_eq!(
                error,
                BootstrapError::Unreadable { file: "/home/alice/.dotflow.toml".to_string() }
            );
        },
        other => panic!("expected Failed, got {:?}", other),
    }
}

#[test]
fn terminal_phases_keep_stopping() {
    let (phase, action) = step(
        Phase::Failed { error: BootstrapError::NoHome },
        Event::FileExists { exists: true },
    );
    assert_eq!(phase, Phase::Failed { error: BootstrapError::NoHome });
    assert_eq!(action, Action::Stop);
}
