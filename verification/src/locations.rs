//! Where each shell keeps its history file, decided from which environment
//! variables are set. Paths are described as a base directory or file named by
//! an environment variable (or the home directory) followed by fixed
//! components, so that the caller can join them without re-encoding the
//! variable's value.
use vstd::prelude::*;

use crate::shell_kind::ShellKind;
use crate::text::views;

verus! {

/// Where the home directory comes from, in order of preference.
#[derive(Debug, Clone, Copy, PartialEq, Eq, Structural)]
pub enum HomeSource {
    /// `HOME`.
    Home,
    /// `USERPROFILE`.
    UserProfile,
    /// `HOMEDRIVE` followed by `HOMEPATH`.
    DriveAndPath,
}

/// The home directory source: `HOME`, else `USERPROFILE`, else `HOMEDRIVE`
/// with `HOMEPATH` when both are set.
pub open spec fn home_source_spec(
    home_set: bool,
    user_profile_set: bool,
    home_drive_set: bool,
    home_path_set: bool,
) -> Option<HomeSource> {
    if home_set {
        Some(HomeSource::Home)
    } else if user_profile_set {
        Some(HomeSource::UserProfile)
    } else if home_drive_set && home_path_set {
        Some(HomeSource::DriveAndPath)
    } else {
        None
    }
}

/// Picks where the home directory comes from.
pub fn home_source(
    home_set: bool,
    user_profile_set: bool,
    home_drive_set: bool,
    home_path_set: bool,
) -> (r: Option<HomeSource>)
    ensures
        r == home_source_spec(home_set, user_profile_set, home_drive_set, home_path_set),
{
    if home_set {
        Some(HomeSource::Home)
    } else if user_profile_set {
        Some(HomeSource::UserProfile)
    } else if home_drive_set && home_path_set {
        Some(HomeSource::DriveAndPath)
    } else {
        None
    }
}

/// What a history path starts from.
#[derive(Debug, Clone, Copy, PartialEq, Eq, Structural)]
pub enum PathBase {
    /// The file named by `HISTFILE`.
    HistFile,
    /// The directory named by `ZDOTDIR`.
    ZDotDir,
    /// The directory named by `XDG_DATA_HOME`.
    XdgDataHome,
    /// The directory named by `APPDATA`.
    AppData,
    /// The home directory.
    Home,
}

/// Which of the variables that history paths start from are available.
#[derive(Debug, Clone, Copy, PartialEq, Eq, Structural)]
pub struct PathBases {
    /// `HISTFILE` is set.
    pub hist_file: bool,
    /// `ZDOTDIR` is set.
    pub zdotdir: bool,
    /// `XDG_DATA_HOME` is set.
    pub xdg_data_home: bool,
    /// `APPDATA` is set.
    pub app_data: bool,
    /// A home directory was found.
    pub home: bool,
}

/// A history file: `base` followed by `components`.
#[derive(Debug)]
pub struct HistoryFile {
    /// Where the path starts.
    pub base: PathBase,
    /// The fixed components joined to the base, in order.
    pub components: Vec<String>,
}

/// The history file of each shell, as a base and components:
/// - PowerShell: `%APPDATA%\Microsoft\Windows\PowerShell\PSReadLine\ConsoleHost_history.txt`,
///   else `$XDG_DATA_HOME/powershell/PSReadLine/ConsoleHost_history.txt`,
///   else `~/.local/share/powershell/PSReadLine/ConsoleHost_history.txt`;
/// - bash and sh: `$HISTFILE`, else `~/.bash_history` or `~/.sh_history`;
/// - zsh: `$HISTFILE`, else `$ZDOTDIR/.zsh_history`, else `~/.zsh_history`;
/// - fish: `$XDG_DATA_HOME/fish/fish_history`, else `~/.local/share/fish/fish_history`;
/// - nu: `~/.config/nushell/history.txt`;
/// - cmd keeps no history file, and an unknown shell has none.
pub open spec fn history_file_spec(shell: ShellKind, bases: PathBases) -> Option<(PathBase, Seq<Seq<char>>)> {
    match shell {
        ShellKind::PowerShell => if bases.app_data {
            Some((PathBase::AppData, seq!["Microsoft"@, "Windows"@, "PowerShell"@, "PSReadLine"@, "ConsoleHost_history.txt"@]))
        } else if bases.xdg_data_home {
            Some((PathBase::XdgDataHome, seq!["powershell"@, "PSReadLine"@, "ConsoleHost_history.txt"@]))
        } else if bases.home {
            Some((PathBase::Home, seq![".local"@, "share"@, "powershell"@, "PSReadLine"@, "ConsoleHost_history.txt"@]))
        } else {
            None
        },
        ShellKind::Cmd => None,
        ShellKind::Bash => if bases.hist_file {
            Some((PathBase::HistFile, Seq::empty()))
        } else if bases.home {
            Some((PathBase::Home, seq![".bash_history"@]))
        } else {
            None
        },
        ShellKind::Sh => if bases.hist_file {
            Some((PathBase::HistFile, Seq::empty()))
        } else if bases.home {
            Some((PathBase::Home, seq![".sh_history"@]))
        } else {
            None
        },
        ShellKind::Zsh => if bases.hist_file {
            Some((PathBase::HistFile, Seq::empty()))
        } else if bases.zdotdir {
            Some((PathBase::ZDotDir, seq![".zsh_history"@]))
        } else if bases.home {
            Some((PathBase::Home, seq![".zsh_history"@]))
        } else {
            None
        },
        ShellKind::Fish => if bases.xdg_data_home {
            Some((PathBase::XdgDataHome, seq!["fish"@, "fish_history"@]))
        } else if bases.home {
            Some((PathBase::Home, seq![".local"@, "share"@, "fish"@, "fish_history"@]))
        } else {
            None
        },
        ShellKind::Nu => if bases.home {
            Some((PathBase::Home, seq![".config"@, "nushell"@, "history.txt"@]))
        } else {
            None
        },
        ShellKind::Unknown => None,
    }
}

/// A history file, by its views.
pub open spec fn history_file_view(f: Option<HistoryFile>) -> Option<(PathBase, Seq<Seq<char>>)> {
    match f {
        Some(h) => Some((h.base, views(h.components@))),
        None => None,
    }
}

/// A `Vec<String>` holding the given strings.
fn owned_all(parts: &[&str]) -> (v: Vec<String>)
    ensures
        v@.len() == parts@.len(),
        forall|i: int| 0 <= i < parts@.len() ==> (#[trigger] v@[i])@ == parts@[i]@,
{
    let mut v: Vec<String> = Vec::new();
    let mut i: usize = 0;
    while i < parts.len()
        invariant
            0 <= i <= parts@.len(),
            v@.len() == i,
            forall|j: int| 0 <= j < i ==> (#[trigger] v@[j])@ == parts@[j]@,
        decreases parts@.len() - i,
    {
        v.push(parts[i].to_owned());
        i = i + 1;
    }
    v
}

/// The history file of `shell`, given which path bases are available (see
/// `history_file_spec`).
pub fn history_file(shell: ShellKind, bases: PathBases) -> (r: Option<HistoryFile>)
    ensures
        history_file_view(r) == history_file_spec(shell, bases),
{
    let (base, parts): (PathBase, Vec<String>) = match shell {
        ShellKind::PowerShell => if bases.app_data {
            (PathBase::AppData, owned_all(&["Microsoft", "Windows", "PowerShell", "PSReadLine", "ConsoleHost_history.txt"]))
        } else if bases.xdg_data_home {
            (PathBase::XdgDataHome, owned_all(&["powershell", "PSReadLine", "ConsoleHost_history.txt"]))
        } else if bases.home {
            (PathBase::Home, owned_all(&[".local", "share", "powershell", "PSReadLine", "ConsoleHost_history.txt"]))
        } else {
            return None;
        },
        ShellKind::Cmd => {
            return None;
        },
        ShellKind::Bash => if bases.hist_file {
            (PathBase::HistFile, Vec::new())
        } else if bases.home {
            (PathBase::Home, owned_all(&[".bash_history"]))
        } else {
            return None;
        },
        ShellKind::Sh => if bases.hist_file {
            (PathBase::HistFile, Vec::new())
        } else if bases.home {
            (PathBase::Home, owned_all(&[".sh_history"]))
        } else {
            return None;
        },
        ShellKind::Zsh => if bases.hist_file {
            (PathBase::HistFile, Vec::new())
        } else if bases.zdotdir {
            (PathBase::ZDotDir, owned_all(&[".zsh_history"]))
        } else if bases.home {
            (PathBase::Home, owned_all(&[".zsh_history"]))
        } else {
            return None;
        },
        ShellKind::Fish => if bases.xdg_data_home {
            (PathBase::XdgDataHome, owned_all(&["fish", "fish_history"]))
        } else if bases.home {
            (PathBase::Home, owned_all(&[".local", "share", "fish", "fish_history"]))
        } else {
            return None;
        },
        ShellKind::Nu => if bases.home {
            (PathBase::Home, owned_all(&[".config", "nushell", "history.txt"]))
        } else {
            return None;
        },
        ShellKind::Unknown => {
            return None;
        },
    };
    let r = HistoryFile { base, components: parts };
    assert(history_file_view(Some(r)) =~= history_file_spec(shell, bases));
    Some(r)
}

} // verus!

verus! {

/// Where a shell's history is read from.
#[derive(Debug, Clone, Copy, PartialEq, Eq, Structural)]
pub enum HistorySource {
    /// The output of `cmd /C doskey /history`.
    Doskey,
    /// A query to `nu`, then Nushell's history file when that gives nothing.
    NuQueryThenFile,
    /// The shell's history file (see `history_file`).
    File,
    /// Nothing: the shell is unknown.
    Nothing,
}

/// The history source of each shell.
pub open spec fn history_source_spec(shell: ShellKind) -> HistorySource {
    match shell {
        ShellKind::Cmd => HistorySource::Doskey,
        ShellKind::Nu => HistorySource::NuQueryThenFile,
        ShellKind::Unknown => HistorySource::Nothing,
        _ => HistorySource::File,
    }
}

/// Where the history of `shell` is read from.
pub fn history_source(shell: ShellKind) -> (r: HistorySource)
    ensures
        r == history_source_spec(shell),
{
    match shell {
        ShellKind::Cmd => HistorySource::Doskey,
        ShellKind::Nu => HistorySource::NuQueryThenFile,
        ShellKind::Unknown => HistorySource::Nothing,
        _ => HistorySource::File,
    }
}

/// The PowerShell executable used to run a command again: `pwsh` off Windows;
/// on Windows `pwsh` when it starts, else `powershell`.
pub fn powershell_program(on_windows: bool, pwsh_starts: bool) -> (program: String)
    ensures
        program@ == (if on_windows && !pwsh_starts {
            "powershell"@
        } else {
            "pwsh"@
        }),
{
    if on_windows && !pwsh_starts {
        "powershell".to_owned()
    } else {
        "pwsh".to_owned()
    }
}

/// The programs tried, in order, to run a PowerShell query.
pub fn powershell_query_programs() -> (programs: Vec<String>)
    ensures
        views(programs@) == seq!["pwsh"@, "powershell"@],
{
    let programs = owned_all(&["pwsh", "powershell"]);
    assert(views(programs@) =~= seq!["pwsh"@, "powershell"@]);
    programs
}

} // verus!

verus! {

/// `HISTFILE` names the history file of bash, sh and zsh whenever it is set,
/// whatever other bases are available: the file is that base with no further
/// components. Without it, bash and sh read `.bash_history` and `.sh_history`
/// in the home directory, and zsh reads `.zsh_history` in `ZDOTDIR`, else in
/// the home directory.
pub proof fn lemma_histfile_first(bases: PathBases)
    ensures
        bases.hist_file ==> history_file_spec(ShellKind::Bash, bases) == Some(
            (PathBase::HistFile, Seq::<Seq<char>>::empty()),
        ),
        bases.hist_file ==> history_file_spec(ShellKind::Sh, bases) == Some(
            (PathBase::HistFile, Seq::<Seq<char>>::empty()),
        ),
        bases.hist_file ==> history_file_spec(ShellKind::Zsh, bases) == Some(
            (PathBase::HistFile, Seq::<Seq<char>>::empty()),
        ),
        !bases.hist_file && bases.home ==> history_file_spec(ShellKind::Bash, bases) == Some(
            (PathBase::Home, seq![".bash_history"@]),
        ),
        !bases.hist_file && bases.home ==> history_file_spec(ShellKind::Sh, bases) == Some(
            (PathBase::Home, seq![".sh_history"@]),
        ),
        !bases.hist_file && bases.zdotdir ==> history_file_spec(ShellKind::Zsh, bases) == Some(
            (PathBase::ZDotDir, seq![".zsh_history"@]),
        ),
        !bases.hist_file && !bases.zdotdir && bases.home ==> history_file_spec(ShellKind::Zsh, bases)
            == Some((PathBase::Home, seq![".zsh_history"@])),
        !bases.hist_file && !bases.home ==> history_file_spec(ShellKind::Bash, bases) is None
            && history_file_spec(ShellKind::Sh, bases) is None,
{
}

} // verus!
