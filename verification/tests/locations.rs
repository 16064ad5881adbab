use lib::locations::{
    history_file, history_source, home_source, powershell_program, powershell_query_programs,
    HistorySource, HomeSource, PathBase, PathBases,
};
use lib::ShellKind;

fn bases(hist_file: bool, zdotdir: bool, xdg_data_home: bool, app_data: bool, home: bool) -> PathBases {
    PathBases { hist_file, zdotdir, xdg_data_home, app_data, home }
}

fn location(shell: ShellKind, b: PathBases) -> Option<(PathBase, Vec<String>)> {
    history_file(shell, b).map(|f| (f.base, f.components))
}

fn parts(items: &[&str]) -> Vec<String> {
    items.iter().map(|s| s.to_string()).collect()
}

#[test]
fn home_directory_preference() {
    assert_eq!(home_source(true, true, true, true), Some(HomeSource::Home));
    assert_eq!(home_source(false, true, true, true), Some(HomeSource::UserProfile));
    assert_eq!(home_source(false, false, true, true), Some(HomeSource::DriveAndPath));
    assert_eq!(home_source(false, false, true, false), None);
    assert_eq!(home_source(false, false, false, false), None);
}

#[test]
fn bash_and_sh_histories() {
    assert_eq!(location(ShellKind::Bash, bases(true, false, false, false, true)), Some((PathBase::HistFile, parts(&[]))));
    assert_eq!(location(ShellKind::Bash, bases(false, true, true, true, true)), Some((PathBase::Home, parts(&[".bash_history"]))));
    assert_eq!(location(ShellKind::Sh, bases(false, false, false, false, true)), Some((PathBase::Home, parts(&[".sh_history"]))));
    assert_eq!(location(ShellKind::Sh, bases(false, false, false, false, false)), None);
}

#[test]
fn zsh_history_order() {
    assert_eq!(location(ShellKind::Zsh, bases(true, true, false, false, true)), Some((PathBase::HistFile, parts(&[]))));
    assert_eq!(location(ShellKind::Zsh, bases(false, true, false, false, true)), Some((PathBase::ZDotDir, parts(&[".zsh_history"]))));
    assert_eq!(location(ShellKind::Zsh, bases(false, false, false, false, true)), Some((PathBase::Home, parts(&[".zsh_history"]))));
}

#[test]
fn fish_and_nu_histories() {
    assert_eq!(location(ShellKind::Fish, bases(false, false, true, false, true)), Some((PathBase::XdgDataHome, parts(&["fish", "fish_history"]))));
    assert_eq!(location(ShellKind::Fish, bases(true, true, false, true, true)), Some((PathBase::Home, parts(&[".local", "share", "fish", "fish_history"]))));
    assert_eq!(location(ShellKind::Nu, bases(true, true, true, true, true)), Some((PathBase::Home, parts(&[".config", "nushell", "history.txt"]))));
    assert_eq!(location(ShellKind::Nu, bases(true, true, true, true, false)), None);
}

#[test]
fn powershell_history_locations() {
    assert_eq!(
        location(ShellKind::PowerShell, bases(false, false, true, true, true)),
        Some((PathBase::AppData, parts(&["Microsoft", "Windows", "PowerShell", "PSReadLine", "ConsoleHost_history.txt"])))
    );
    assert_eq!(
        location(ShellKind::PowerShell, bases(false, false, true, false, true)),
        Some((PathBase::XdgDataHome, parts(&["powershell", "PSReadLine", "ConsoleHost_history.txt"])))
    );
    assert_eq!(
        location(ShellKind::PowerShell, bases(false, false, false, false, true)),
        Some((PathBase::Home, parts(&[".local", "share", "powershell", "PSReadLine", "ConsoleHost_history.txt"])))
    );
}

#[test]
fn shells_without_history_file() {
    assert_eq!(location(ShellKind::Cmd, bases(true, true, true, true, true)), None);
    assert_eq!(location(ShellKind::Unknown, bases(true, true, true, true, true)), None);
}

#[test]
fn history_sources() {
    assert_eq!(history_source(ShellKind::Cmd), HistorySource::Doskey);
    assert_eq!(history_source(ShellKind::Nu), HistorySource::NuQueryThenFile);
    assert_eq!(history_source(ShellKind::Unknown), HistorySource::Nothing);
    for shell in [ShellKind::PowerShell, ShellKind::Bash, ShellKind::Sh, ShellKind::Zsh, ShellKind::Fish] {
        assert_eq!(history_source(shell), HistorySource::File);
    }
}

#[test]
fn powershell_programs() {
    assert_eq!(powershell_program(false, false), "pwsh");
    assert_eq!(powershell_program(true, true), "pwsh");
    assert_eq!(powershell_program(true, false), "powershell");
    assert_eq!(powershell_query_programs(), vec!["pwsh".to_owned(), "powershell".to_owned()]);
}
