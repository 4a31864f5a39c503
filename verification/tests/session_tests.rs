use gish::session::{command_line, get_shell, spawn_argv, Invocation, MyTerminal};

#[test]
fn restart_on_never_spawned_session_is_a_no_op() {
    let t = MyTerminal::new();
    assert!(t.restart().is_none());
}

#[test]
fn restart_replays_recorded_command_and_directory_verbatim() {
    let mut t = MyTerminal::new();
    t.spawn_command("git log", "/repo");
    for _ in 0..5 {
        let req = t.restart().expect("a spawned session must replay");
        match &req.invocation {
            Invocation::Command { command, dir } => {
                assert_eq!(command, "git log");
                assert_eq!(dir, "/repo");
            }
            Invocation::Shell { .. } => panic!("a command session must replay a command"),
        }
        assert!(req.clear_first);
        assert!(!req.watch_exit);
    }
}

#[test]
fn respawning_replaces_the_recorded_invocation() {
    let mut t = MyTerminal::new();
    t.spawn_command("git status --short", "/repo");
    t.spawn_command("git branch", "/elsewhere");
    let req = t.restart().expect("spawned");
    match &req.invocation {
        Invocation::Command { command, dir } => {
            assert_eq!(command, "git branch");
            assert_eq!(dir, "/elsewhere");
        }
        Invocation::Shell { .. } => panic!("expected a command"),
    }
}

#[test]
fn spawn_shell_watches_the_child_exit() {
    let mut t = MyTerminal::new();
    let req = t.spawn_shell("/repo");
    match &req.invocation {
        Invocation::Shell { dir } => assert_eq!(dir, "/repo"),
        Invocation::Command { .. } => panic!("expected the interactive shell"),
    }
    assert!(req.watch_exit);
    assert!(!req.clear_first);
}

#[test]
fn spawn_command_request_carries_the_exact_pair() {
    let mut t = MyTerminal::new();
    let req = t.spawn_command("git log", "/repo");
    match &req.invocation {
        Invocation::Command { command, dir } => {
            assert_eq!(command, "git log");
            assert_eq!(dir, "/repo");
        }
        Invocation::Shell { .. } => panic!("expected a command"),
    }
    assert!(!req.clear_first);
    assert!(!req.watch_exit);
}

#[test]
fn get_shell_hands_back_the_environment_value() {
    let shell = get_shell(Some(String::from("/bin/zsh")));
    assert_eq!(shell, "/bin/zsh");
}

#[test]
fn command_line_prefixes_the_clear_on_restart() {
    assert_eq!(command_line("git log", true), "clear && git log");
    assert_eq!(command_line("git log", false), "git log");
}

#[test]
fn argv_for_a_command_runs_it_through_the_interpreter() {
    let mut t = MyTerminal::new();
    t.spawn_command("git status --short", "/repo");
    let req = t.restart().expect("spawned");
    let argv = spawn_argv("/bin/bash", &req);
    assert_eq!(argv.len(), 3);
    assert_eq!(argv[0], "/bin/bash");
    assert_eq!(argv[1], "-c");
    assert_eq!(argv[2], "clear && git status --short");
}

#[test]
fn argv_for_the_interactive_shell_is_the_shell_alone() {
    let mut t = MyTerminal::new();
    let req = t.spawn_shell("/repo");
    let argv = spawn_argv("/bin/bash", &req);
    assert_eq!(argv.len(), 1);
    assert_eq!(argv[0], "/bin/bash");
}
