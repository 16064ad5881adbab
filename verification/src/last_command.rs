//! Choosing the command to run again: recognising invocations of `please`
//! itself, finding the most recent other command, and wrapping it so that the
//! detected shell runs it.
use vstd::prelude::*;

use crate::shell_kind::ShellKind;
use crate::text::{
    ascii_lower, ascii_lower_range, chars_of, ends_with, is_white_space, is_white_space_char,
    range_ends_with, range_eq, trim_char_range, trim_end_char, trim_matches, trim_start,
    trim_start_char, views,
};

verus! {

/// The leading run of non-white-space characters of `s`.
pub open spec fn take_word(s: Seq<char>) -> Seq<char>
    decreases s.len(),
{
    if s.len() == 0 || is_white_space(s[0]) {
        Seq::empty()
    } else {
        seq![s[0]] + take_word(s.drop_first())
    }
}

/// The first white-space separated word of `s`, or the empty sequence when
/// there is none (`s.split_whitespace().next().unwrap_or_default()`).
pub open spec fn first_word(s: Seq<char>) -> Seq<char> {
    take_word(trim_start(s))
}

/// The program that a command line invokes, as compared: its first word with
/// surrounding double quotes, then single quotes, removed, in ASCII lower case.
pub open spec fn invoked_program(command_line: Seq<char>) -> Seq<char> {
    ascii_lower(trim_matches(trim_matches(first_word(command_line), '"'), '\''))
}

/// A command line runs `please` itself: its program is `please` or
/// `please.exe`, bare or at the end of a `/` or `\` path.
pub open spec fn is_self_invocation_spec(command_line: Seq<char>) -> bool {
    let p = invoked_program(command_line);
    ||| p == "please"@
    ||| p == "please.exe"@
    ||| ends_with(p, "/please"@)
    ||| ends_with(p, "/please.exe"@)
    ||| ends_with(p, "\\please"@)
    ||| ends_with(p, "\\please.exe"@)
}

/// Whether `command_line` is an invocation of `please` itself.
pub fn is_self_invocation(command_line: &str) -> (r: bool)
    ensures
        r == is_self_invocation_spec(command_line@),
{
    let s = chars_of(command_line);
    let n = s.len();
    let mut a: usize = 0;
    assert(s@.subrange(0, n as int) == s@);
    while a < n && is_white_space_char(s[a])
        invariant
            0 <= a <= n == s@.len(),
            trim_start(s@) == trim_start(s@.subrange(a as int, n as int)),
        decreases n - a,
    {
        assert(s@.subrange(a as int, n as int).drop_first() == s@.subrange(a + 1, n as int));
        a = a + 1;
    }
    let mut b: usize = a;
    assert(s@.subrange(a as int, a as int) == Seq::<char>::empty());
    while b < n && !is_white_space_char(s[b])
        invariant
            0 <= a <= b <= n == s@.len(),
            take_word(s@.subrange(a as int, n as int)) == s@.subrange(a as int, b as int) + take_word(
                s@.subrange(b as int, n as int),
            ),
        decreases n - b,
    {
        assert(s@.subrange(b as int, n as int).drop_first() == s@.subrange(b + 1, n as int));
        assert(s@.subrange(a as int, b + 1) == s@.subrange(a as int, b as int) + seq![s@[b as int]]);
        b = b + 1;
    }
    assert(take_word(s@.subrange(b as int, n as int)) == Seq::<char>::empty());
    assert(s@.subrange(a as int, b as int) + Seq::<char>::empty() == s@.subrange(a as int, b as int));
    let (c, d) = trim_char_range(&s, a, b, '"');
    let (e, f) = trim_char_range(&s, c, d, '\'');
    let p = ascii_lower_range(&s, e, f);
    let m = p.len();
    assert(p@.subrange(0, m as int) == p@);
    range_eq(&p, 0, m, "please") || range_eq(&p, 0, m, "please.exe") || range_ends_with(
        &p,
        0,
        m,
        "/please",
    ) || range_ends_with(&p, 0, m, "/please.exe") || range_ends_with(&p, 0, m, "\\please")
        || range_ends_with(&p, 0, m, "\\please.exe")
}

} // verus!

verus! {

/// The argument vector that makes `shell` run `raw_command`; PowerShell is
/// started through `powershell_program` (`pwsh` or `powershell`).
pub open spec fn shell_command_spec(
    shell: ShellKind,
    raw_command: Seq<char>,
    powershell_program: Seq<char>,
) -> Seq<Seq<char>> {
    match shell {
        ShellKind::Cmd => seq!["cmd"@, "/C"@, raw_command],
        ShellKind::PowerShell => seq![powershell_program, "-NoProfile"@, "-Command"@, raw_command],
        ShellKind::Bash => seq!["bash"@, "-c"@, raw_command],
        ShellKind::Sh => seq!["sh"@, "-c"@, raw_command],
        ShellKind::Zsh => seq!["zsh"@, "-c"@, raw_command],
        ShellKind::Fish => seq!["fish"@, "-c"@, raw_command],
        ShellKind::Nu => seq!["nu"@, "-c"@, raw_command],
        ShellKind::Unknown => seq![raw_command],
    }
}

/// Wraps a command line so that `shell` runs it.
pub fn shell_command_to_exec(shell: ShellKind, raw_command: String, powershell_program: String) -> (argv: Vec<String>)
    ensures
        views(argv@) == shell_command_spec(shell, raw_command@, powershell_program@),
{
    let mut argv: Vec<String> = Vec::new();
    match shell {
        ShellKind::Cmd => {
            argv.push("cmd".to_owned());
            argv.push("/C".to_owned());
        },
        ShellKind::PowerShell => {
            argv.push(powershell_program);
            argv.push("-NoProfile".to_owned());
            argv.push("-Command".to_owned());
        },
        ShellKind::Bash => {
            argv.push("bash".to_owned());
            argv.push("-c".to_owned());
        },
        ShellKind::Sh => {
            argv.push("sh".to_owned());
            argv.push("-c".to_owned());
        },
        ShellKind::Zsh => {
            argv.push("zsh".to_owned());
            argv.push("-c".to_owned());
        },
        ShellKind::Fish => {
            argv.push("fish".to_owned());
            argv.push("-c".to_owned());
        },
        ShellKind::Nu => {
            argv.push("nu".to_owned());
            argv.push("-c".to_owned());
        },
        ShellKind::Unknown => {},
    }
    argv.push(raw_command);
    assert(views(argv@) =~= shell_command_spec(shell, raw_command@, powershell_program@));
    argv
}

/// Why no command could be chosen to run again.
#[derive(Debug, Clone, Copy, PartialEq, Eq, Structural)]
pub enum LastCommandError {
    /// The active shell is not known.
    UnknownShell,
    /// The history holds no command other than invocations of `please`.
    NoPreviousCommand,
}

/// The message shown for each error.
pub open spec fn error_message_spec(e: LastCommandError) -> Seq<char> {
    match e {
        LastCommandError::UnknownShell => "unable to detect active shell; set PLEASE_SHELL or pass a command explicitly (e.g. please <cmd>)"@,
        LastCommandError::NoPreviousCommand => "unable to discover a previous non-'please' command for detected shell; pass a command explicitly (e.g. please <cmd>)"@,
    }
}

impl LastCommandError {
    /// The message shown to the user for this error.
    pub fn message(&self) -> (m: String)
        ensures
            m@ == error_message_spec(*self),
    {
        match self {
            LastCommandError::UnknownShell => "unable to detect active shell; set PLEASE_SHELL or pass a command explicitly (e.g. please <cmd>)".to_owned(),
            LastCommandError::NoPreviousCommand => "unable to discover a previous non-'please' command for detected shell; pass a command explicitly (e.g. please <cmd>)".to_owned(),
        }
    }
}

/// The most recent entry from position `skip` on that does not invoke `please`.
pub open spec fn first_foreign_from(history: Seq<Seq<char>>, skip: int) -> Option<Seq<char>>
    decreases history.len() - skip,
{
    if skip < 0 || skip >= history.len() {
        None
    } else if !is_self_invocation_spec(history[skip]) {
        Some(history[skip])
    } else {
        first_foreign_from(history, skip + 1)
    }
}

/// What choosing the command to run again gives, for `shell` and its history
/// entries `history` (most recent first).
pub open spec fn last_command_spec(
    shell: ShellKind,
    history: Seq<Seq<char>>,
    powershell_program: Seq<char>,
) -> Result<Seq<Seq<char>>, LastCommandError> {
    if shell == ShellKind::Unknown {
        Err(LastCommandError::UnknownShell)
    } else {
        match first_foreign_from(history, 0) {
            Some(c) => Ok(shell_command_spec(shell, c, powershell_program)),
            None => Err(LastCommandError::NoPreviousCommand),
        }
    }
}

/// A result of choosing the command, by its views.
pub open spec fn result_views(r: Result<Vec<String>, LastCommandError>) -> Result<
    Seq<Seq<char>>,
    LastCommandError,
> {
    match r {
        Ok(v) => Ok(views(v@)),
        Err(e) => Err(e),
    }
}

/// What to do after looking at the history entry at position `skip`.
#[derive(Debug)]
pub enum SearchStep {
    /// The entry is the command to run again.
    Found(String),
    /// The entry invokes `please`; look at the entry at this position next.
    Next(usize),
    /// The search ends without a command.
    Failed(LastCommandError),
}

/// One step of the search for the command to run again: `fetched` is the
/// history entry at position `skip` (most recent first), or `None` past the
/// oldest one.
pub fn search_step(detected: ShellKind, skip: usize, fetched: Option<String>) -> (step: SearchStep)
    requires
        fetched is Some ==> skip < usize::MAX,
    ensures
        match step {
            SearchStep::Found(c) => {
                &&& detected != ShellKind::Unknown
                &&& fetched == Some(c)
                &&& !is_self_invocation_spec(c@)
            },
            SearchStep::Next(n) => {
                &&& detected != ShellKind::Unknown
                &&& fetched matches Some(c)
                &&& is_self_invocation_spec(c@)
                &&& n == skip + 1
            },
            SearchStep::Failed(e) => {
                ||| (detected == ShellKind::Unknown && e == LastCommandError::UnknownShell)
                ||| (detected != ShellKind::Unknown && fetched is None && e
                    == LastCommandError::NoPreviousCommand)
            },
        },
{
    if detected == ShellKind::Unknown {
        return SearchStep::Failed(LastCommandError::UnknownShell);
    }
    match fetched {
        None => SearchStep::Failed(LastCommandError::NoPreviousCommand),
        Some(c) => {
            if is_self_invocation(c.as_str()) {
                SearchStep::Next(skip + 1)
            } else {
                SearchStep::Found(c)
            }
        },
    }
}

/// Chooses the command to run again from the history entries of the detected
/// shell (most recent first): the most recent entry that does not invoke
/// `please`, wrapped so that the shell runs it (`powershell_program` is the
/// PowerShell executable, used for PowerShell only).
pub fn get_last_command(detected: ShellKind, history: &Vec<String>, powershell_program: String) -> (r: Result<
    Vec<String>,
    LastCommandError,
>)
    ensures
        result_views(r) == last_command_spec(detected, views(history@), powershell_program@),
{
    let ghost h = views(history@);
    let mut skip: usize = 0;
    loop
        invariant
            0 <= skip <= history@.len(),
            h == views(history@),
            detected != ShellKind::Unknown ==> first_foreign_from(h, 0) == first_foreign_from(h, skip as int),
        decreases history@.len() - skip,
    {
        let fetched: Option<String> = if skip < history.len() {
            Some(history[skip].clone())
        } else {
            None
        };
        match search_step(detected, skip, fetched) {
            SearchStep::Found(c) => {
                return Ok(shell_command_to_exec(detected, c, powershell_program));
            },
            SearchStep::Next(n) => {
                skip = n;
            },
            SearchStep::Failed(e) => {
                return Err(e);
            },
        }
    }
}

} // verus!

verus! {

/// The command chosen to run again is the most recent history entry that does
/// not invoke `please`, wrapped for the shell; when every entry invokes
/// `please` there is none. Put as a step of the search: if the entries before
/// position `i` all invoke `please`, then the entry at `i`, when it does not,
/// is the one chosen, and running past the oldest entry means failure; so the
/// entry by entry search (`search_step`) ends where `get_last_command` does.
pub proof fn lemma_last_command_choice(
    shell: ShellKind,
    history: Seq<Seq<char>>,
    powershell_program: Seq<char>,
    i: int,
)
    requires
        shell != ShellKind::Unknown,
        0 <= i <= history.len(),
        forall|j: int| 0 <= j < i ==> is_self_invocation_spec(#[trigger] history[j]),
    ensures
        i < history.len() && !is_self_invocation_spec(history[i]) ==> last_command_spec(
            shell,
            history,
            powershell_program,
        ) == Ok::<Seq<Seq<char>>, LastCommandError>(
            shell_command_spec(shell, history[i], powershell_program),
        ),
        i == history.len() ==> last_command_spec(shell, history, powershell_program) == Err::<
            Seq<Seq<char>>,
            LastCommandError,
        >(LastCommandError::NoPreviousCommand),
{
    lemma_first_foreign_from(history, 0, i);
}

/// `first_foreign_from` skips exactly the entries that invoke `please`.
proof fn lemma_first_foreign_from(history: Seq<Seq<char>>, skip: int, i: int)
    requires
        0 <= skip <= i <= history.len(),
        forall|j: int| skip <= j < i ==> is_self_invocation_spec(#[trigger] history[j]),
    ensures
        i < history.len() && !is_self_invocation_spec(history[i]) ==> first_foreign_from(
            history,
            skip,
        ) == Some(history[i]),
        i == history.len() ==> first_foreign_from(history, skip) is None,
    decreases i - skip,
{
    if skip < i {
        assert(is_self_invocation_spec(history[skip]));
        lemma_first_foreign_from(history, skip + 1, i);
    }
}

/// A wrapped command ends with the command line itself, and, for every shell
/// but PowerShell and an unknown one, starts with the shell's own name.
pub proof fn lemma_wrapped_command_shape(shell: ShellKind, raw_command: Seq<char>, powershell_program: Seq<char>)
    ensures
        shell_command_spec(shell, raw_command, powershell_program).last() == raw_command,
        shell != ShellKind::PowerShell && shell != ShellKind::Unknown ==> shell_command_spec(
            shell,
            raw_command,
            powershell_program,
        )[0] == crate::shell_kind::shell_name_spec(shell),
        shell == ShellKind::PowerShell ==> shell_command_spec(shell, raw_command, powershell_program)[0]
            == powershell_program,
        shell == ShellKind::Unknown ==> shell_command_spec(shell, raw_command, powershell_program)
            == seq![raw_command],
{
}

} // verus!

verus! {

/// Lowering ASCII case commutes with taking the leading word.
proof fn lemma_lower_take_word(s: Seq<char>)
    ensures
        take_word(ascii_lower(s)) == ascii_lower(take_word(s)),
    decreases s.len(),
{
    if s.len() > 0 {
        crate::text::lemma_lower_keeps_white_space(s[0]);
        assert(ascii_lower(s).drop_first() =~= ascii_lower(s.drop_first()));
        lemma_lower_take_word(s.drop_first());
        if !is_white_space(s[0]) {
            assert(ascii_lower(seq![s[0]] + take_word(s.drop_first())) =~= seq![
                ascii_lower(s)[0],
            ] + ascii_lower(take_word(s.drop_first())));
        }
    }
}

/// Recognising `please` ignores ASCII case: a command line invokes `please`
/// exactly when its lower-case form does (so `PLEASE`, `Please.EXE` and
/// `/usr/bin/Please` count too).
pub proof fn lemma_self_invocation_case_insensitive(command_line: Seq<char>)
    ensures
        is_self_invocation_spec(ascii_lower(command_line)) == is_self_invocation_spec(command_line),
{
    crate::text::lemma_lower_trim_start(command_line);
    lemma_lower_take_word(trim_start(command_line));
    let w = first_word(command_line);
    crate::text::lemma_lower_trim_matches(w, '"');
    crate::text::lemma_lower_trim_matches(trim_matches(w, '"'), '\'');
    crate::shell_name::lemma_ascii_lower_idempotent(trim_matches(trim_matches(w, '"'), '\''));
}

/// The leading word of `w + rest` is `w`, when `w` holds no white space and
/// `rest` is empty or starts with white space.
proof fn lemma_take_word_prefix(w: Seq<char>, rest: Seq<char>)
    requires
        forall|i: int| 0 <= i < w.len() ==> !is_white_space(#[trigger] w[i]),
        rest.len() == 0 || is_white_space(rest[0]),
    ensures
        take_word(w + rest) == w,
    decreases w.len(),
{
    if w.len() == 0 {
        assert(w + rest =~= rest);
    } else {
        assert((w + rest).drop_first() =~= w.drop_first() + rest);
        lemma_take_word_prefix(w.drop_first(), rest);
        assert(w =~= seq![w[0]] + w.drop_first());
    }
}

/// A command line that starts with the word `please` (followed by nothing or
/// by white space and any arguments) invokes `please` itself.
pub proof fn lemma_please_invokes_itself(arguments: Seq<char>)
    requires
        arguments.len() == 0 || is_white_space(arguments[0]),
    ensures
        is_self_invocation_spec("please"@ + arguments),
{
    reveal_strlit("please");
    let p = "please"@;
    let s = p + arguments;
    assert(s[0] == 'p');
    assert(trim_start(s) == s);
    lemma_take_word_prefix(p, arguments);
    assert(trim_start_char(p, '"') == p);
    assert(trim_end_char(p, '"') == p);
    assert(trim_start_char(p, '\'') == p);
    assert(trim_end_char(p, '\'') == p);
    assert(ascii_lower(p) =~= p);
}

} // verus!

verus! {

/// The entry by entry search over a history of `n` entries ends by position
/// `n`: the returned position `j` has every earlier entry invoking `please`
/// (so `search_step` answers `Next(i + 1)` at each `i < j`) and, when `j < n`,
/// an entry that does not (so the step at `j` is `Found`; at `j == n` it is
/// `Failed`). Hence at most `n + 1` entries are fetched, each position once,
/// in increasing order.
pub proof fn lemma_search_ends(history: Seq<Seq<char>>) -> (j: int)
    ensures
        0 <= j <= history.len(),
        forall|i: int| 0 <= i < j ==> is_self_invocation_spec(#[trigger] history[i]),
        j < history.len() ==> !is_self_invocation_spec(history[j]),
{
    search_end_from(history, 0)
}

/// The first position from `k` on whose entry does not invoke `please`, or the length.
proof fn search_end_from(history: Seq<Seq<char>>, k: int) -> (j: int)
    requires
        0 <= k <= history.len(),
        forall|i: int| 0 <= i < k ==> is_self_invocation_spec(#[trigger] history[i]),
    ensures
        k <= j <= history.len(),
        forall|i: int| 0 <= i < j ==> is_self_invocation_spec(#[trigger] history[i]),
        j < history.len() ==> !is_self_invocation_spec(history[j]),
    decreases history.len() - k,
{
    if k == history.len() || !is_self_invocation_spec(history[k]) {
        k
    } else {
        search_end_from(history, k + 1)
    }
}

} // verus!

verus! {

/// The program of `d + suffix + arguments` ends with `suffix`, when `d` and
/// `suffix` hold no white space, neither starts with a quote and `suffix`
/// neither ends with one nor holds upper-case letters.
proof fn lemma_program_suffix(d: Seq<char>, suffix: Seq<char>, arguments: Seq<char>)
    requires
        suffix.len() > 0,
        forall|i: int| 0 <= i < d.len() ==> !is_white_space(#[trigger] d[i]) && d[i] != '"' && d[i]
            != '\'',
        forall|i: int| 0 <= i < suffix.len() ==> !is_white_space(#[trigger] suffix[i]),
        suffix[0] != '"' && suffix[0] != '\'',
        suffix.last() != '"' && suffix.last() != '\'',
        ascii_lower(suffix) == suffix,
        arguments.len() == 0 || is_white_space(arguments[0]),
    ensures
        ends_with(invoked_program(d + suffix + arguments), suffix),
{
    let w = d + suffix;
    assert forall|i: int| 0 <= i < w.len() implies !is_white_space(#[trigger] w[i]) by {
        if i < d.len() {
            assert(w[i] == d[i]);
        } else {
            assert(w[i] == suffix[i - d.len()]);
        }
    }
    let line = w + arguments;
    assert(line == d + suffix + arguments);
    assert(line[0] == w[0]);
    assert(trim_start(line) == line);
    lemma_take_word_prefix(w, arguments);
    assert(w[0] != '"' && w[0] != '\'') by {
        if d.len() > 0 {
            assert(w[0] == d[0]);
        } else {
            assert(w[0] == suffix[0]);
        }
    }
    assert(w.last() == suffix.last());
    assert(trim_start_char(w, '"') == w);
    assert(trim_end_char(w, '"') == w);
    assert(trim_start_char(w, '\'') == w);
    assert(trim_end_char(w, '\'') == w);
    let p = ascii_lower(w);
    assert(p.subrange(p.len() - suffix.len(), p.len() as int) =~= ascii_lower(suffix));
}

/// A command line whose first word is a path ending in `/please`,
/// `/please.exe`, `\please` or `\please.exe` (the directory part holding no
/// white space or quotes; nothing or white space and arguments after it)
/// invokes `please` itself, whatever the directory part is.
pub proof fn lemma_please_path_invokes_itself(directory: Seq<char>, arguments: Seq<char>)
    requires
        forall|i: int|
            0 <= i < directory.len() ==> !is_white_space(#[trigger] directory[i]) && directory[i]
                != '"' && directory[i] != '\'',
        arguments.len() == 0 || is_white_space(arguments[0]),
    ensures
        is_self_invocation_spec(directory + "/please"@ + arguments),
        is_self_invocation_spec(directory + "/please.exe"@ + arguments),
        is_self_invocation_spec(directory + "\\please"@ + arguments),
        is_self_invocation_spec(directory + "\\please.exe"@ + arguments),
{
    reveal_strlit("/please");
    reveal_strlit("/please.exe");
    reveal_strlit("\\please");
    reveal_strlit("\\please.exe");
    assert(ascii_lower("/please"@) =~= "/please"@);
    assert(ascii_lower("/please.exe"@) =~= "/please.exe"@);
    assert(ascii_lower("\\please"@) =~= "\\please"@);
    assert(ascii_lower("\\please.exe"@) =~= "\\please.exe"@);
    lemma_program_suffix(directory, "/please"@, arguments);
    lemma_program_suffix(directory, "/please.exe"@, arguments);
    lemma_program_suffix(directory, "\\please"@, arguments);
    lemma_program_suffix(directory, "\\please.exe"@, arguments);
}

} // verus!

verus! {

/// How each shell is asked to run a command: the POSIX-style shells (bash, sh,
/// zsh, fish, nu) get their own name, `-c` and the command; cmd gets `cmd`,
/// `/C` and the command; PowerShell gets the PowerShell program,
/// `-NoProfile`, `-Command` and the command; an unknown shell runs the command
/// line as the program itself.
pub proof fn lemma_wrapping_flags(shell: ShellKind, raw_command: Seq<char>, powershell_program: Seq<char>)
    ensures
        shell == ShellKind::Bash || shell == ShellKind::Sh || shell == ShellKind::Zsh || shell
            == ShellKind::Fish || shell == ShellKind::Nu ==> shell_command_spec(
            shell,
            raw_command,
            powershell_program,
        ) == seq![crate::shell_kind::shell_name_spec(shell), "-c"@, raw_command],
        shell_command_spec(ShellKind::Cmd, raw_command, powershell_program) == seq![
            crate::shell_kind::shell_name_spec(ShellKind::Cmd),
            "/C"@,
            raw_command,
        ],
        shell_command_spec(ShellKind::PowerShell, raw_command, powershell_program) == seq![
            powershell_program,
            "-NoProfile"@,
            "-Command"@,
            raw_command,
        ],
        shell_command_spec(ShellKind::Unknown, raw_command, powershell_program) == seq![raw_command],
{
}

} // verus!
