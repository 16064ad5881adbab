use lib::cli::{plan_invocation, with_sudo, Invocation};

fn strings(items: &[&str]) -> Vec<String> {
    items.iter().map(|s| s.to_string()).collect()
}

#[test]
fn lone_options() {
    for (arg, expect) in [
        ("-h", "help"),
        ("--help", "help"),
        ("-p", "shell"),
        ("--print-shell", "shell"),
        ("-i", "info"),
        ("--info", "info"),
        ("--version", "version"),
    ] {
        let plan = plan_invocation(&strings(&["please", arg]));
        let got = match plan {
            Invocation::ShowHelp => "help",
            Invocation::PrintShell => "shell",
            Invocation::ShowInfo => "info",
            Invocation::ShowVersion => "version",
            _ => "other",
        };
        assert_eq!(got, expect, "{arg}");
    }
}

#[test]
fn no_arguments_reruns_last_command() {
    assert!(matches!(plan_invocation(&strings(&["please"])), Invocation::RerunLast));
}

#[test]
fn other_arguments_are_the_command() {
    match plan_invocation(&strings(&["please", "apt", "update"])) {
        Invocation::Run(c) => assert_eq!(c, strings(&["apt", "update"])),
        other => panic!("unexpected {other:?}"),
    }
    match plan_invocation(&strings(&["please", "-h", "x"])) {
        Invocation::Run(c) => assert_eq!(c, strings(&["-h", "x"])),
        other => panic!("unexpected {other:?}"),
    }
    match plan_invocation(&strings(&["please", "--version", "x"])) {
        Invocation::Run(c) => assert_eq!(c, strings(&["--version", "x"])),
        other => panic!("unexpected {other:?}"),
    }
    match plan_invocation(&strings(&["please", "-v"])) {
        Invocation::Run(c) => assert_eq!(c, strings(&["-v"])),
        other => panic!("unexpected {other:?}"),
    }
    match plan_invocation(&strings(&["please", "--HELP"])) {
        Invocation::Run(c) => assert_eq!(c, strings(&["--HELP"])),
        other => panic!("unexpected {other:?}"),
    }
}

#[test]
fn sudo_goes_first() {
    assert_eq!(with_sudo(strings(&["apt", "update"])), strings(&["sudo", "apt", "update"]));
    assert_eq!(with_sudo(Vec::new()), strings(&["sudo"]));
}
