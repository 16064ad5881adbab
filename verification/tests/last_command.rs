use lib::last_command::{
    is_self_invocation, search_step, shell_command_to_exec, LastCommandError, SearchStep,
};
use lib::{get_last_command, ShellKind};

fn strings(items: &[&str]) -> Vec<String> {
    items.iter().map(|s| s.to_string()).collect()
}

#[test]
fn please_invocations_are_recognised() {
    for line in [
        "please",
        "please apt update",
        "  please\tsystemctl restart nginx",
        "PLEASE",
        "Please.EXE --help",
        "\"please\" ls",
        "'please.exe'",
        "\"'please'\"",
        "/usr/bin/please",
        "./target/release/please --info",
        "C:\\tools\\please.exe",
        "'please\"",
        "C:\\tools\\please",
    ] {
        assert!(is_self_invocation(line), "{line:?}");
    }
}

#[test]
fn other_commands_are_not_please() {
    for line in [
        "",
        "   ",
        "pleased",
        "sudo please",
        "ls please",
        "/usr/bin/pleasex",
        "please-rs",
        "C:\\Program Files\\please\\please.exe",
        "echo please",
    ] {
        assert!(!is_self_invocation(line), "{line:?}");
    }
}

#[test]
fn self_invocation_ignores_case() {
    for line in ["PlEaSe x", "/USR/BIN/PLEASE", "ls", "Please-Not"] {
        assert_eq!(is_self_invocation(line), is_self_invocation(&line.to_ascii_lowercase()));
    }
}

#[test]
fn wrapping_for_each_shell() {
    let raw = "ls -la".to_owned();
    let ps = "pwsh".to_owned();
    assert_eq!(
        shell_command_to_exec(ShellKind::Cmd, raw.clone(), ps.clone()),
        strings(&["cmd", "/C", "ls -la"])
    );
    assert_eq!(
        shell_command_to_exec(ShellKind::PowerShell, raw.clone(), ps.clone()),
        strings(&["pwsh", "-NoProfile", "-Command", "ls -la"])
    );
    assert_eq!(
        shell_command_to_exec(ShellKind::PowerShell, raw.clone(), "powershell".to_owned()),
        strings(&["powershell", "-NoProfile", "-Command", "ls -la"])
    );
    for (kind, name) in [
        (ShellKind::Bash, "bash"),
        (ShellKind::Sh, "sh"),
        (ShellKind::Zsh, "zsh"),
        (ShellKind::Fish, "fish"),
        (ShellKind::Nu, "nu"),
    ] {
        assert_eq!(
            shell_command_to_exec(kind, raw.clone(), ps.clone()),
            strings(&[name, "-c", "ls -la"])
        );
        assert_eq!(kind.as_str(), name);
    }
    assert_eq!(
        shell_command_to_exec(ShellKind::Unknown, raw, ps),
        strings(&["ls -la"])
    );
}

#[test]
fn last_command_skips_please() {
    let history = strings(&["please", "sudo please", "please apt update", "ls"]);
    assert_eq!(
        get_last_command(ShellKind::Bash, &history, String::new()),
        Ok(strings(&["bash", "-c", "sudo please"]))
    );
    let history = strings(&["please", "PLEASE x", "make install", "ls"]);
    assert_eq!(
        get_last_command(ShellKind::Zsh, &history, String::new()),
        Ok(strings(&["zsh", "-c", "make install"]))
    );
    assert_eq!(
        get_last_command(ShellKind::PowerShell, &strings(&["Get-ChildItem"]), "pwsh".to_owned()),
        Ok(strings(&["pwsh", "-NoProfile", "-Command", "Get-ChildItem"]))
    );
}

#[test]
fn last_command_errors() {
    assert_eq!(
        get_last_command(ShellKind::Unknown, &strings(&["ls"]), String::new()),
        Err(LastCommandError::UnknownShell)
    );
    assert_eq!(
        get_last_command(ShellKind::Fish, &strings(&["please", "/usr/bin/please x"]), String::new()),
        Err(LastCommandError::NoPreviousCommand)
    );
    assert_eq!(
        get_last_command(ShellKind::Nu, &Vec::new(), String::new()),
        Err(LastCommandError::NoPreviousCommand)
    );
}

#[test]
fn error_messages() {
    assert_eq!(
        LastCommandError::UnknownShell.message(),
        "unable to detect active shell; set PLEASE_SHELL or pass a command explicitly (e.g. please <cmd>)"
    );
    assert_eq!(
        LastCommandError::NoPreviousCommand.message(),
        "unable to discover a previous non-'please' command for detected shell; pass a command explicitly (e.g. please <cmd>)"
    );
}

#[test]
fn search_steps() {
    assert!(matches!(
        search_step(ShellKind::Unknown, 0, Some("ls".to_owned())),
        SearchStep::Failed(LastCommandError::UnknownShell)
    ));
    assert!(matches!(
        search_step(ShellKind::Bash, 4, None),
        SearchStep::Failed(LastCommandError::NoPreviousCommand)
    ));
    assert!(matches!(
        search_step(ShellKind::Bash, 4, Some("please x".to_owned())),
        SearchStep::Next(5)
    ));
    match search_step(ShellKind::Bash, 4, Some("ls".to_owned())) {
        SearchStep::Found(c) => assert_eq!(c, "ls"),
        other => panic!("unexpected {other:?}"),
    }
}

#[test]
fn stepwise_search_agrees_with_get_last_command() {
    let histories = [
        strings(&[]),
        strings(&["please"]),
        strings(&["please", "please y", "cargo test"]),
        strings(&["git log", "please"]),
    ];
    for history in histories {
        let mut skip = 0usize;
        let stepped = loop {
            let fetched = history.get(skip).cloned();
            match search_step(ShellKind::Sh, skip, fetched) {
                SearchStep::Found(c) => {
                    break Ok(shell_command_to_exec(ShellKind::Sh, c, String::new()))
                }
                SearchStep::Next(n) => skip = n,
                SearchStep::Failed(e) => break Err(e),
            }
        };
        assert_eq!(stepped, get_last_command(ShellKind::Sh, &history, String::new()));
    }
}
