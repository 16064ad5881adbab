use lib::shell_name::{parse_shell_name, shell_kind_of_name_str};
use lib::ShellKind;

const ALL_KINDS: [ShellKind; 8] = [
    ShellKind::Cmd,
    ShellKind::PowerShell,
    ShellKind::Bash,
    ShellKind::Sh,
    ShellKind::Zsh,
    ShellKind::Fish,
    ShellKind::Nu,
    ShellKind::Unknown,
];

#[test]
fn as_str_gives_canonical_names() {
    assert_eq!(ShellKind::Cmd.as_str(), "cmd");
    assert_eq!(ShellKind::PowerShell.as_str(), "powershell");
    assert_eq!(ShellKind::Bash.as_str(), "bash");
    assert_eq!(ShellKind::Sh.as_str(), "sh");
    assert_eq!(ShellKind::Zsh.as_str(), "zsh");
    assert_eq!(ShellKind::Fish.as_str(), "fish");
    assert_eq!(ShellKind::Nu.as_str(), "nu");
    assert_eq!(ShellKind::Unknown.as_str(), "unknown");
}

#[test]
fn canonical_name_parses_back_to_its_kind() {
    for kind in ALL_KINDS {
        assert_eq!(parse_shell_name(kind.as_str()), kind);
    }
}

#[test]
fn every_known_name_is_recognised() {
    let table: [(&str, ShellKind); 26] = [
        ("cmd", ShellKind::Cmd),
        ("cmd.exe", ShellKind::Cmd),
        ("powershell", ShellKind::PowerShell),
        ("powershell.exe", ShellKind::PowerShell),
        ("pwsh", ShellKind::PowerShell),
        ("pwsh.exe", ShellKind::PowerShell),
        ("pwsh-preview", ShellKind::PowerShell),
        ("pwsh-preview.exe", ShellKind::PowerShell),
        ("bash", ShellKind::Bash),
        ("bash.exe", ShellKind::Bash),
        ("sh", ShellKind::Sh),
        ("sh.exe", ShellKind::Sh),
        ("dash", ShellKind::Sh),
        ("dash.exe", ShellKind::Sh),
        ("ksh", ShellKind::Sh),
        ("ksh.exe", ShellKind::Sh),
        ("ash", ShellKind::Sh),
        ("ash.exe", ShellKind::Sh),
        ("zsh", ShellKind::Zsh),
        ("zsh.exe", ShellKind::Zsh),
        ("fish", ShellKind::Fish),
        ("fish.exe", ShellKind::Fish),
        ("nu", ShellKind::Nu),
        ("nu.exe", ShellKind::Nu),
        ("nushell", ShellKind::Nu),
        ("nushell.exe", ShellKind::Nu),
    ];
    for (name, kind) in table {
        assert_eq!(parse_shell_name(name), kind, "{name}");
        assert_eq!(shell_kind_of_name_str(name), kind, "{name}");
    }
}

#[test]
fn matching_ignores_ascii_case() {
    assert_eq!(parse_shell_name("BASH"), ShellKind::Bash);
    assert_eq!(parse_shell_name("PwSh.ExE"), ShellKind::PowerShell);
    assert_eq!(parse_shell_name("NuShell"), ShellKind::Nu);
    assert_eq!(shell_kind_of_name_str("ZSH"), shell_kind_of_name_str("zsh"));
}

#[test]
fn login_shell_dashes_are_ignored() {
    assert_eq!(parse_shell_name("-bash"), ShellKind::Bash);
    assert_eq!(parse_shell_name("--zsh"), ShellKind::Zsh);
    assert_eq!(shell_kind_of_name_str("-"), ShellKind::Unknown);
}

#[test]
fn final_path_component_is_used() {
    assert_eq!(parse_shell_name("/usr/bin/zsh"), ShellKind::Zsh);
    assert_eq!(parse_shell_name("/bin/bash"), ShellKind::Bash);
    assert_eq!(parse_shell_name("/usr/local/bin/fish/"), ShellKind::Fish);
    assert_eq!(parse_shell_name("/opt/nu/bin/nu"), ShellKind::Nu);
    assert_eq!(parse_shell_name("/usr/bin/-bash"), ShellKind::Bash);
}

#[test]
fn unrecognised_names_are_unknown() {
    assert_eq!(parse_shell_name(""), ShellKind::Unknown);
    assert_eq!(parse_shell_name("/"), ShellKind::Unknown);
    assert_eq!(parse_shell_name(".."), ShellKind::Unknown);
    assert_eq!(parse_shell_name("tcsh"), ShellKind::Unknown);
    assert_eq!(parse_shell_name("bash "), ShellKind::Unknown);
    assert_eq!(parse_shell_name("bashx"), ShellKind::Unknown);
    assert_eq!(parse_shell_name("/usr/bin/"), ShellKind::Unknown);
}

#[test]
fn path_case_is_ignored() {
    for path in ["/usr/bin/zsh", "/opt/Fish/bin/fish", "./bin/PWSH", "/bin/tcsh", "a/../Nu"] {
        assert_eq!(parse_shell_name(path), parse_shell_name(&path.to_ascii_lowercase()));
        assert_eq!(parse_shell_name(path), parse_shell_name(&path.to_ascii_uppercase()));
    }
    assert_eq!(parse_shell_name("/USR/BIN/ZSH"), ShellKind::Zsh);
}

#[test]
fn final_component_rules() {
    assert_eq!(parse_shell_name("/usr/bin/zsh/."), ShellKind::Zsh);
    assert_eq!(parse_shell_name("/usr/bin//bash//"), ShellKind::Bash);
    assert_eq!(parse_shell_name("./sh"), ShellKind::Sh);
    assert_eq!(parse_shell_name("zsh/.."), ShellKind::Unknown);
    assert_eq!(parse_shell_name("/usr/local/bin/fish"), ShellKind::Fish);
    assert_eq!(parse_shell_name("/bin/tcsh"), ShellKind::Unknown);
}
