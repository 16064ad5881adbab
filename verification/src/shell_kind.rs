use vstd::prelude::*;

verus! {

/// The kind of shell whose history is read and which runs the re-executed command.
#[derive(Debug, Clone, Copy, PartialEq, Eq, Structural)]
pub enum ShellKind {
    /// Windows Command Prompt (cmd.exe)
    Cmd,
    /// PowerShell (both Windows and Core versions)
    PowerShell,
    /// GNU Bash shell
    Bash,
    /// POSIX shell (sh)
    Sh,
    /// Z shell (Zsh)
    Zsh,
    /// Friendly interactive shell (Fish)
    Fish,
    /// Nushell (Nu)
    Nu,
    /// Unknown or undetected shell
    Unknown,
}

/// The canonical lower-case name of a shell kind.
pub open spec fn shell_name_spec(kind: ShellKind) -> Seq<char> {
    match kind {
        ShellKind::Cmd => "cmd"@,
        ShellKind::PowerShell => "powershell"@,
        ShellKind::Bash => "bash"@,
        ShellKind::Sh => "sh"@,
        ShellKind::Zsh => "zsh"@,
        ShellKind::Fish => "fish"@,
        ShellKind::Nu => "nu"@,
        ShellKind::Unknown => "unknown"@,
    }
}

impl ShellKind {
    /// The canonical lower-case name of this shell kind.
    pub fn as_str(self) -> (name: &'static str)
        ensures
            name@ == shell_name_spec(self),
    {
        match self {
            ShellKind::Cmd => "cmd",
            ShellKind::PowerShell => "powershell",
            ShellKind::Bash => "bash",
            ShellKind::Sh => "sh",
            ShellKind::Zsh => "zsh",
            ShellKind::Fish => "fish",
            ShellKind::Nu => "nu",
            ShellKind::Unknown => "unknown",
        }
    }
}

} // verus!
