use lib::detection::{
    ancestor_step, choose_shell_kind, detect_shell, parent_pid_script, parse_pid,
    process_name_script, query_step, trimmed_output, AncestorStep, QueryStep, ShellEnvironment,
    ANCESTOR_LIMIT,
};
use lib::ShellKind;

fn environment() -> ShellEnvironment {
    ShellEnvironment {
        please_shell: None,
        parent_process_shell: None,
        shell_path: None,
        nu_version_set: false,
        ps_module_path_set: false,
        on_windows: false,
        comspec: None,
    }
}

#[test]
fn override_wins() {
    let mut env = environment();
    env.please_shell = Some("pwsh".to_owned());
    env.parent_process_shell = Some(ShellKind::Bash);
    env.shell_path = Some("/bin/zsh".to_owned());
    assert_eq!(detect_shell(&env), ShellKind::PowerShell);
    env.please_shell = Some("tcsh".to_owned());
    assert_eq!(detect_shell(&env), ShellKind::Unknown);
}

#[test]
fn parent_process_comes_next() {
    let mut env = environment();
    env.parent_process_shell = Some(ShellKind::Fish);
    env.shell_path = Some("/bin/zsh".to_owned());
    env.nu_version_set = true;
    assert_eq!(detect_shell(&env), ShellKind::Fish);
}

#[test]
fn shell_variable_when_recognised() {
    let mut env = environment();
    env.shell_path = Some("/usr/bin/zsh".to_owned());
    env.nu_version_set = true;
    assert_eq!(detect_shell(&env), ShellKind::Zsh);
    env.shell_path = Some("/usr/bin/tcsh".to_owned());
    assert_eq!(detect_shell(&env), ShellKind::Nu);
}

#[test]
fn remaining_fallbacks() {
    let mut env = environment();
    assert_eq!(detect_shell(&env), ShellKind::Unknown);
    env.ps_module_path_set = true;
    assert_eq!(detect_shell(&env), ShellKind::PowerShell);
    env.ps_module_path_set = false;
    env.comspec = Some("C:\\WINDOWS\\system32\\CMD.EXE".to_owned());
    assert_eq!(detect_shell(&env), ShellKind::Unknown);
    env.on_windows = true;
    assert_eq!(detect_shell(&env), ShellKind::Cmd);
    env.comspec = Some("C:\\tools\\tcc.exe".to_owned());
    assert_eq!(detect_shell(&env), ShellKind::Unknown);
}

#[test]
fn choosing_from_recognised_evidence() {
    assert_eq!(
        choose_shell_kind(None, None, Some(ShellKind::Unknown), false, true, false, None),
        ShellKind::PowerShell
    );
    assert_eq!(
        choose_shell_kind(Some(ShellKind::Unknown), Some(ShellKind::Bash), None, true, true, true, None),
        ShellKind::Unknown
    );
    assert_eq!(
        choose_shell_kind(None, None, None, false, false, true, Some("cmd.exe")),
        ShellKind::Cmd
    );
}

#[test]
fn ancestor_walk_steps() {
    assert_eq!(ancestor_step(0, "bash"), AncestorStep::Found(ShellKind::Bash));
    assert_eq!(ancestor_step(3, "/usr/bin/fish"), AncestorStep::Found(ShellKind::Fish));
    assert_eq!(ancestor_step(0, "sshd"), AncestorStep::Climb);
    assert_eq!(ancestor_step(ANCESTOR_LIMIT - 2, "tmux"), AncestorStep::Climb);
    assert_eq!(ancestor_step(ANCESTOR_LIMIT - 1, "tmux"), AncestorStep::GiveUp);
    assert_eq!(ANCESTOR_LIMIT, 8);
}

#[test]
fn pids_are_read_like_std_parse() {
    for text in [
        "1234", " 1234\n", "+5", "-5", "0", "007", "4294967295", "4294967296",
        "99999999999999999999", "", "  ", "+", "12a", "1 2", "\u{a0}42\u{3000}",
    ] {
        assert_eq!(parse_pid(text), text.trim().parse::<u32>().ok(), "{text:?}");
    }
    assert_eq!(parse_pid("  812\n"), Some(812));
}

#[test]
fn process_names_are_trimmed() {
    assert_eq!(trimmed_output("  zsh \n"), Some("zsh".to_owned()));
    assert_eq!(trimmed_output("\n\t "), None);
    assert_eq!(trimmed_output(""), None);
}

#[test]
fn powershell_queries() {
    assert_eq!(
        parent_pid_script(4321),
        "(Get-CimInstance Win32_Process -Filter \"ProcessId=4321\").ParentProcessId"
    );
    assert_eq!(
        process_name_script(0),
        "(Get-CimInstance Win32_Process -Filter \"ProcessId=0\").Name"
    );
}

#[test]
fn first_non_empty_answer_wins() {
    match query_step(0, 2, true, "  4242\n") {
        QueryStep::Answer(a) => assert_eq!(a, "4242"),
        other => panic!("unexpected {other:?}"),
    }
    assert!(matches!(query_step(0, 2, true, " \n"), QueryStep::TryNext));
    assert!(matches!(query_step(0, 2, false, "4242"), QueryStep::TryNext));
    assert!(matches!(query_step(1, 2, false, ""), QueryStep::GiveUp));
    assert!(matches!(query_step(1, 2, true, "   "), QueryStep::GiveUp));
}
