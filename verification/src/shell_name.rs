//! Recognising a shell from a name or path, and the decisions of shell detection.
use vstd::prelude::*;

use crate::shell_kind::ShellKind;
use crate::text::{
    ascii_lower, ascii_lower_range, chars_of, contains_seq, range_eq, split_on, starts_with,
    trim_start_char,
};

verus! {

/// The shell that a bare executable name stands for: case is ignored, leading
/// `-` (login shells) are dropped, and a `.exe` suffix is accepted.
pub open spec fn shell_kind_of_name(name: Seq<char>) -> ShellKind {
    let n = trim_start_char(ascii_lower(name), '-');
    if n == "cmd"@ || n == "cmd.exe"@ {
        ShellKind::Cmd
    } else if n == "powershell"@ || n == "powershell.exe"@ || n == "pwsh"@ || n == "pwsh.exe"@
        || n == "pwsh-preview"@ || n == "pwsh-preview.exe"@ {
        ShellKind::PowerShell
    } else if n == "bash"@ || n == "bash.exe"@ {
        ShellKind::Bash
    } else if n == "sh"@ || n == "sh.exe"@ || n == "dash"@ || n == "dash.exe"@ || n == "ksh"@
        || n == "ksh.exe"@ || n == "ash"@ || n == "ash.exe"@ {
        ShellKind::Sh
    } else if n == "zsh"@ || n == "zsh.exe"@ {
        ShellKind::Zsh
    } else if n == "fish"@ || n == "fish.exe"@ {
        ShellKind::Fish
    } else if n == "nu"@ || n == "nu.exe"@ || n == "nushell"@ || n == "nushell.exe"@ {
        ShellKind::Nu
    } else {
        ShellKind::Unknown
    }
}

/// A name that every platform's path parser reads as a single normal component:
/// non-empty, not `.` or `..`, and free of `/`, `\` and `:`.
pub open spec fn is_plain_file_name(s: Seq<char>) -> bool {
    &&& s.len() > 0
    &&& s != "."@
    &&& s != ".."@
    &&& !s.contains('/')
    &&& !s.contains('\\')
    &&& !s.contains(':')
}

/// A path that every platform parses the same way: without `\` and `:` and
/// not starting with `//`, it has no Windows prefix and `/` is its only separator.
pub open spec fn is_portable_path(s: Seq<char>) -> bool {
    &&& !s.contains('\\')
    &&& !s.contains(':')
    &&& !starts_with(s, "//"@)
}

/// The last normal component among path segments: empty and `.` segments are
/// skipped from the end, and a final `..` (or nothing left) means there is none.
pub open spec fn last_normal_segment(segments: Seq<Seq<char>>) -> Option<Seq<char>>
    decreases segments.len(),
{
    if segments.len() == 0 {
        None
    } else if segments.last().len() == 0 || segments.last() == "."@ {
        last_normal_segment(segments.drop_last())
    } else if segments.last() == ".."@ {
        None
    } else {
        Some(segments.last())
    }
}

/// The final component of a `/`-separated path (`Path::file_name`): repeated
/// and trailing separators and `.` components are ignored, and a path ending
/// in `..`, or made of nothing but separators and `.`, has none.
pub open spec fn final_component(s: Seq<char>) -> Option<Seq<char>> {
    last_normal_segment(split_on(s, '/'))
}

/// The final component of `s`, or `s` itself when it has none.
pub open spec fn file_name_or_self(s: Seq<char>) -> Seq<char> {
    match final_component(s) {
        Some(n) => n,
        None => s,
    }
}

/// The view of an optional string slice.
pub open spec fn opt_str_view(r: Option<&str>) -> Option<Seq<char>> {
    match r {
        Some(n) => Some(n@),
        None => None,
    }
}

/// `name` may be what `value` leaves as its final path component: `value`
/// itself (when it has none) or a non-empty piece of it.
pub open spec fn file_name_candidate(value: Seq<char>, name: Seq<char>) -> bool {
    ||| name == value
    ||| (name.len() > 0 && contains_seq(value, name))
}

/// `kind` is what recognising `value` gives: for a portable path, exactly the
/// kind of its final component (or of `value` itself when it has none); for
/// any value, the kind of `value` or of some non-empty piece of it.
pub open spec fn parsed_as(value: Seq<char>, kind: ShellKind) -> bool {
    &&& is_portable_path(value) ==> kind == shell_kind_of_name(file_name_or_self(value))
    &&& exists|name: Seq<char>|
        file_name_candidate(value, name) && kind == #[trigger] shell_kind_of_name(name)
}

/// `std::path::Path::file_name` on `value`, read back as a `&str`.
///
/// Claims: a returned component is a non-empty piece of `value`, and for a
/// portable path (see `is_portable_path`) the result is its final component
/// as `Path::components` documents it. Which component other paths give
/// depends on Windows path syntax (`\`, drive, UNC and verbatim prefixes),
/// and that is left unsaid.
#[verifier::external_body]
pub(crate) fn path_file_name<'a>(value: &'a str) -> (r: Option<&'a str>)
    ensures
        r matches Some(n) ==> n@.len() > 0 && contains_seq(value@, n@),
        is_portable_path(value@) ==> opt_str_view(r) == final_component(value@),
{
    match std::path::Path::new(value).file_name() {
        Some(n) => n.to_str(),
        None => None,
    }
}

/// A last normal segment is one of the segments: non-empty and neither `.` nor `..`.
proof fn lemma_last_normal_segment(segments: Seq<Seq<char>>)
    ensures
        last_normal_segment(segments) matches Some(n) ==> {
            &&& exists|i: int| 0 <= i < segments.len() && segments[i] == n
            &&& n.len() > 0
            &&& n != "."@
            &&& n != ".."@
        },
    decreases segments.len(),
{
    if segments.len() > 0 {
        lemma_last_normal_segment(segments.drop_last());
        if let Some(n) = last_normal_segment(segments.drop_last()) {
            if segments.last().len() == 0 || segments.last() == "."@ {
                let i = choose|i: int| 0 <= i < segments.drop_last().len() && segments.drop_last()[i] == n;
                assert(segments[i] == n);
            }
        }
        assert(segments[segments.len() - 1] == segments.last());
    }
}

/// A plain name is a portable path whose final component is the name itself.
pub proof fn lemma_plain_name(s: Seq<char>)
    requires
        is_plain_file_name(s),
    ensures
        is_portable_path(s),
        final_component(s) == Some(s),
        file_name_or_self(s) == s,
{
    reveal_strlit("//");
    if starts_with(s, "//"@) {
        assert(s[0] == s.subrange(0, 2)[0]);
        assert(s.contains('/'));
    }
    crate::text::lemma_split_on_without_sep(s, '/');
    assert(seq![s].last() == s);
}

/// The final component of a portable path is a plain name.
pub proof fn lemma_final_component_plain(v: Seq<char>)
    requires
        is_portable_path(v),
        final_component(v) is Some,
    ensures
        is_plain_file_name(final_component(v).unwrap()),
{
    let segments = split_on(v, '/');
    let n = final_component(v).unwrap();
    lemma_last_normal_segment(segments);
    crate::text::lemma_split_on_pieces(v, '/');
    let i = choose|i: int| 0 <= i < segments.len() && segments[i] == n;
    assert forall|j: int| 0 <= j < n.len() implies n[j] != '/' && n[j] != '\\' && n[j] != ':' by {
        assert(segments[i][j] == n[j]);
        assert(v.contains(n[j]));
    }
}

/// The shell that the bare name `name` stands for (see `shell_kind_of_name`).
pub fn shell_kind_of_name_str(name: &str) -> (kind: ShellKind)
    ensures
        kind == shell_kind_of_name(name@),
{
    let chars = chars_of(name);
    let lower = ascii_lower_range(&chars, 0, chars.len());
    assert(chars@.subrange(0, chars@.len() as int) == chars@);
    let ghost low = lower@;
    assert(low.subrange(0, low.len() as int) == low);
    let mut i: usize = 0;
    while i < lower.len() && lower[i] == '-'
        invariant
            0 <= i <= lower@.len(),
            lower@ == low,
            trim_start_char(low, '-') == trim_start_char(low.subrange(i as int, low.len() as int), '-'),
        decreases lower@.len() - i,
    {
        assert(low.subrange(i as int, low.len() as int).drop_first() == low.subrange(
            i + 1,
            low.len() as int,
        ));
        i = i + 1;
    }
    let n = lower.len();
    assert(trim_start_char(low, '-') == low.subrange(i as int, n as int));
    if range_eq(&lower, i, n, "cmd") || range_eq(&lower, i, n, "cmd.exe") {
        ShellKind::Cmd
    } else if range_eq(&lower, i, n, "powershell") || range_eq(&lower, i, n, "powershell.exe")
        || range_eq(&lower, i, n, "pwsh") || range_eq(&lower, i, n, "pwsh.exe") || range_eq(
        &lower,
        i,
        n,
        "pwsh-preview",
    ) || range_eq(&lower, i, n, "pwsh-preview.exe") {
        ShellKind::PowerShell
    } else if range_eq(&lower, i, n, "bash") || range_eq(&lower, i, n, "bash.exe") {
        ShellKind::Bash
    } else if range_eq(&lower, i, n, "sh") || range_eq(&lower, i, n, "sh.exe") || range_eq(
        &lower,
        i,
        n,
        "dash",
    ) || range_eq(&lower, i, n, "dash.exe") || range_eq(&lower, i, n, "ksh") || range_eq(
        &lower,
        i,
        n,
        "ksh.exe",
    ) || range_eq(&lower, i, n, "ash") || range_eq(&lower, i, n, "ash.exe") {
        ShellKind::Sh
    } else if range_eq(&lower, i, n, "zsh") || range_eq(&lower, i, n, "zsh.exe") {
        ShellKind::Zsh
    } else if range_eq(&lower, i, n, "fish") || range_eq(&lower, i, n, "fish.exe") {
        ShellKind::Fish
    } else if range_eq(&lower, i, n, "nu") || range_eq(&lower, i, n, "nu.exe") || range_eq(
        &lower,
        i,
        n,
        "nushell",
    ) || range_eq(&lower, i, n, "nushell.exe") {
        ShellKind::Nu
    } else {
        ShellKind::Unknown
    }
}

/// Recognises a shell from a name or a path to its executable: the final path
/// component is matched case-insensitively against the known shell names.
pub fn parse_shell_name(value: &str) -> (kind: ShellKind)
    ensures
        parsed_as(value@, kind),
        is_portable_path(value@) ==> kind == shell_kind_of_name(file_name_or_self(value@)),
{
    let name: &str = match path_file_name(value) {
        Some(n) => n,
        None => value,
    };
    let kind = shell_kind_of_name_str(name);
    assert(file_name_candidate(value@, name@));
    kind
}

} // verus!

verus! {

/// Lowering ASCII case twice is lowering it once.
pub proof fn lemma_ascii_lower_idempotent(s: Seq<char>)
    ensures
        ascii_lower(ascii_lower(s)) == ascii_lower(s),
{
    assert(ascii_lower(ascii_lower(s)) =~= ascii_lower(s));
}

/// Shell names are matched without regard to ASCII case: a name and its
/// lower-case form stand for the same shell.
pub proof fn lemma_shell_name_case_insensitive(name: Seq<char>)
    ensures
        shell_kind_of_name(ascii_lower(name)) == shell_kind_of_name(name),
{
    lemma_ascii_lower_idempotent(name);
}

/// A leading `-`, as login shells report their name, does not change which
/// shell a name stands for.
pub proof fn lemma_login_shell_dash(name: Seq<char>)
    ensures
        shell_kind_of_name(seq!['-'] + name) == shell_kind_of_name(name),
{
    let l = ascii_lower(seq!['-'] + name);
    assert(l =~= seq!['-'] + ascii_lower(name));
    assert(l.drop_first() =~= ascii_lower(name));
}

} // verus!

verus! {

/// Every shell kind's canonical name is a plain name, hence a portable path
/// that is its own final component, and is recognised as that same kind: so
/// `parse_shell_name(kind.as_str())` gives `kind` back.
pub proof fn lemma_shell_name_round_trip(kind: ShellKind)
    ensures
        is_plain_file_name(crate::shell_kind::shell_name_spec(kind)),
        is_portable_path(crate::shell_kind::shell_name_spec(kind)),
        file_name_or_self(crate::shell_kind::shell_name_spec(kind)) == crate::shell_kind::shell_name_spec(kind),
        shell_kind_of_name(crate::shell_kind::shell_name_spec(kind)) == kind,
{
    reveal_strlit("cmd");
    reveal_strlit("cmd.exe");
    reveal_strlit("powershell");
    reveal_strlit("powershell.exe");
    reveal_strlit("pwsh");
    reveal_strlit("pwsh.exe");
    reveal_strlit("pwsh-preview");
    reveal_strlit("pwsh-preview.exe");
    reveal_strlit("bash");
    reveal_strlit("bash.exe");
    reveal_strlit("sh");
    reveal_strlit("sh.exe");
    reveal_strlit("dash");
    reveal_strlit("dash.exe");
    reveal_strlit("ksh");
    reveal_strlit("ksh.exe");
    reveal_strlit("ash");
    reveal_strlit("ash.exe");
    reveal_strlit("zsh");
    reveal_strlit("zsh.exe");
    reveal_strlit("fish");
    reveal_strlit("fish.exe");
    reveal_strlit("nu");
    reveal_strlit("nu.exe");
    reveal_strlit("nushell");
    reveal_strlit("nushell.exe");
    reveal_strlit("unknown");
    reveal_strlit(".");
    reveal_strlit("..");
    let s = crate::shell_kind::shell_name_spec(kind);
    assert(ascii_lower(s) =~= s);
    assert(trim_start_char(s, '-') == s);
    lemma_plain_name(s);
}

} // verus!

verus! {

/// Lowering ASCII case commutes with splitting at a character that is not a letter.
proof fn lemma_lower_split_on(s: Seq<char>, sep: char)
    requires
        !('A' <= sep && sep <= 'Z'),
        !('a' <= sep && sep <= 'z'),
    ensures
        split_on(ascii_lower(s), sep) == split_on(s, sep).map_values(|p: Seq<char>| ascii_lower(p)),
    decreases s.len(),
{
    assert(ascii_lower(Seq::<char>::empty()) =~= Seq::<char>::empty());
    if s.len() == 0 {
        assert(ascii_lower(s) =~= s);
        assert(split_on(s, sep).map_values(|p: Seq<char>| ascii_lower(p)) =~= seq![
            Seq::<char>::empty(),
        ]);
    } else {
        let l = ascii_lower(s);
        assert(l.drop_last() =~= ascii_lower(s.drop_last()));
        assert(l.last() == crate::text::ascii_lower_char(s.last()));
        lemma_lower_split_on(s.drop_last(), sep);
        crate::text::lemma_split_on_nonempty(s.drop_last(), sep);
        let p = split_on(s.drop_last(), sep);
        let lp = p.map_values(|q: Seq<char>| ascii_lower(q));
        if s.last() == sep {
            assert(split_on(s, sep).map_values(|q: Seq<char>| ascii_lower(q)) =~= lp.push(
                Seq::<char>::empty(),
            ));
        } else {
            assert(ascii_lower(p.last().push(s.last())) =~= ascii_lower(p.last()).push(
                crate::text::ascii_lower_char(s.last()),
            ));
            assert(split_on(s, sep).map_values(|q: Seq<char>| ascii_lower(q)) =~= lp.update(
                lp.len() - 1,
                lp.last().push(l.last()),
            ));
        }
    }
}

/// A lowered segment is empty, `.` or `..` exactly when the segment is.
proof fn lemma_lower_special_segment(x: Seq<char>)
    ensures
        (ascii_lower(x).len() == 0) == (x.len() == 0),
        (ascii_lower(x) == "."@) == (x == "."@),
        (ascii_lower(x) == ".."@) == (x == ".."@),
{
    reveal_strlit(".");
    reveal_strlit("..");
    assert(ascii_lower(x).len() == x.len());
    if ascii_lower(x) == "."@ {
        assert(ascii_lower(x)[0] == '.');
        assert(crate::text::ascii_lower_char(x[0]) == '.');
        assert(x[0] == '.');
        assert(x =~= "."@);
    }
    if x == "."@ {
        assert(ascii_lower(x) =~= "."@);
    }
    if ascii_lower(x) == ".."@ {
        assert(ascii_lower(x)[0] == '.');
        assert(ascii_lower(x)[1] == '.');
        assert(crate::text::ascii_lower_char(x[0]) == '.');
        assert(crate::text::ascii_lower_char(x[1]) == '.');
        assert(x[0] == '.' && x[1] == '.');
        assert(x =~= ".."@);
    }
    if x == ".."@ {
        assert(ascii_lower(x) =~= ".."@);
    }
}

/// Lowering ASCII case commutes with taking the last normal segment.
proof fn lemma_lower_last_normal_segment(segments: Seq<Seq<char>>)
    ensures
        last_normal_segment(segments.map_values(|p: Seq<char>| ascii_lower(p))) == match last_normal_segment(segments) {
            Some(n) => Some(ascii_lower(n)),
            None => None,
        },
    decreases segments.len(),
{
    if segments.len() > 0 {
        let m = segments.map_values(|p: Seq<char>| ascii_lower(p));
        assert(m.drop_last() =~= segments.drop_last().map_values(|p: Seq<char>| ascii_lower(p)));
        assert(m.last() == ascii_lower(segments.last()));
        lemma_lower_special_segment(segments.last());
        lemma_lower_last_normal_segment(segments.drop_last());
    }
}

/// Recognising a shell from a portable path ignores ASCII case: a path and its
/// lower-case form are both portable or both not, and for a portable one they
/// give the same shell (so `/USR/BIN/ZSH` is zsh, like `/usr/bin/zsh`).
pub proof fn lemma_parse_case_insensitive(value: Seq<char>)
    ensures
        is_portable_path(ascii_lower(value)) == is_portable_path(value),
        is_portable_path(value) ==> shell_kind_of_name(file_name_or_self(ascii_lower(value)))
            == shell_kind_of_name(file_name_or_self(value)),
{
    let l = ascii_lower(value);
    reveal_strlit("//");
    assert(l.contains('\\') == value.contains('\\')) by {
        if l.contains('\\') {
            let k = choose|k: int| 0 <= k < l.len() && l[k] == '\\';
            assert(value[k] == '\\');
        }
        if value.contains('\\') {
            let k = choose|k: int| 0 <= k < value.len() && value[k] == '\\';
            assert(l[k] == '\\');
        }
    }
    assert(l.contains(':') == value.contains(':')) by {
        if l.contains(':') {
            let k = choose|k: int| 0 <= k < l.len() && l[k] == ':';
            assert(value[k] == ':');
        }
        if value.contains(':') {
            let k = choose|k: int| 0 <= k < value.len() && value[k] == ':';
            assert(l[k] == ':');
        }
    }
    assert(starts_with(l, "//"@) == starts_with(value, "//"@)) by {
        if value.len() >= 2 {
            assert(l.subrange(0, 2) =~= ascii_lower(value.subrange(0, 2)));
            lemma_lower_special_segment(value.subrange(0, 2));
            if l.subrange(0, 2) == "//"@ {
                assert(l.subrange(0, 2)[0] == '/');
                assert(l.subrange(0, 2)[1] == '/');
                assert(value.subrange(0, 2) =~= "//"@);
            }
            if value.subrange(0, 2) == "//"@ {
                assert(l.subrange(0, 2) =~= "//"@);
            }
        }
    }
    lemma_lower_split_on(value, '/');
    lemma_lower_last_normal_segment(split_on(value, '/'));
    lemma_shell_name_case_insensitive(file_name_or_self(value));
}

} // verus!

verus! {

/// Every name the shells go by, bare or with `.exe`, is recognised as its shell:
/// `cmd`; `powershell`, `pwsh`, `pwsh-preview`; `bash`; `sh`, `dash`, `ksh`,
/// `ash`; `zsh`; `fish`; `nu`, `nushell`.
pub proof fn lemma_shell_aliases()
    ensures
        shell_kind_of_name("cmd"@) == ShellKind::Cmd,
        shell_kind_of_name("cmd.exe"@) == ShellKind::Cmd,
        shell_kind_of_name("powershell"@) == ShellKind::PowerShell,
        shell_kind_of_name("powershell.exe"@) == ShellKind::PowerShell,
        shell_kind_of_name("pwsh"@) == ShellKind::PowerShell,
        shell_kind_of_name("pwsh.exe"@) == ShellKind::PowerShell,
        shell_kind_of_name("pwsh-preview"@) == ShellKind::PowerShell,
        shell_kind_of_name("pwsh-preview.exe"@) == ShellKind::PowerShell,
        shell_kind_of_name("bash"@) == ShellKind::Bash,
        shell_kind_of_name("bash.exe"@) == ShellKind::Bash,
        shell_kind_of_name("sh"@) == ShellKind::Sh,
        shell_kind_of_name("sh.exe"@) == ShellKind::Sh,
        shell_kind_of_name("dash"@) == ShellKind::Sh,
        shell_kind_of_name("dash.exe"@) == ShellKind::Sh,
        shell_kind_of_name("ksh"@) == ShellKind::Sh,
        shell_kind_of_name("ksh.exe"@) == ShellKind::Sh,
        shell_kind_of_name("ash"@) == ShellKind::Sh,
        shell_kind_of_name("ash.exe"@) == ShellKind::Sh,
        shell_kind_of_name("zsh"@) == ShellKind::Zsh,
        shell_kind_of_name("zsh.exe"@) == ShellKind::Zsh,
        shell_kind_of_name("fish"@) == ShellKind::Fish,
        shell_kind_of_name("fish.exe"@) == ShellKind::Fish,
        shell_kind_of_name("nu"@) == ShellKind::Nu,
        shell_kind_of_name("nu.exe"@) == ShellKind::Nu,
        shell_kind_of_name("nushell"@) == ShellKind::Nu,
        shell_kind_of_name("nushell.exe"@) == ShellKind::Nu,
{
    reveal_strlit("cmd");
    reveal_strlit("cmd.exe");
    reveal_strlit("powershell");
    reveal_strlit("powershell.exe");
    reveal_strlit("pwsh");
    reveal_strlit("pwsh.exe");
    reveal_strlit("pwsh-preview");
    reveal_strlit("pwsh-preview.exe");
    reveal_strlit("bash");
    reveal_strlit("bash.exe");
    reveal_strlit("sh");
    reveal_strlit("sh.exe");
    reveal_strlit("dash");
    reveal_strlit("dash.exe");
    reveal_strlit("ksh");
    reveal_strlit("ksh.exe");
    reveal_strlit("ash");
    reveal_strlit("ash.exe");
    reveal_strlit("zsh");
    reveal_strlit("zsh.exe");
    reveal_strlit("fish");
    reveal_strlit("fish.exe");
    reveal_strlit("nu");
    reveal_strlit("nu.exe");
    reveal_strlit("nushell");
    reveal_strlit("nushell.exe");
    lemma_name_is_its_own_key("cmd"@);
    lemma_name_is_its_own_key("cmd.exe"@);
    lemma_name_is_its_own_key("powershell"@);
    lemma_name_is_its_own_key("powershell.exe"@);
    lemma_name_is_its_own_key("pwsh"@);
    lemma_name_is_its_own_key("pwsh.exe"@);
    lemma_name_is_its_own_key("pwsh-preview"@);
    lemma_name_is_its_own_key("pwsh-preview.exe"@);
    lemma_name_is_its_own_key("bash"@);
    lemma_name_is_its_own_key("bash.exe"@);
    lemma_name_is_its_own_key("sh"@);
    lemma_name_is_its_own_key("sh.exe"@);
    lemma_name_is_its_own_key("dash"@);
    lemma_name_is_its_own_key("dash.exe"@);
    lemma_name_is_its_own_key("ksh"@);
    lemma_name_is_its_own_key("ksh.exe"@);
    lemma_name_is_its_own_key("ash"@);
    lemma_name_is_its_own_key("ash.exe"@);
    lemma_name_is_its_own_key("zsh"@);
    lemma_name_is_its_own_key("zsh.exe"@);
    lemma_name_is_its_own_key("fish"@);
    lemma_name_is_its_own_key("fish.exe"@);
    lemma_name_is_its_own_key("nu"@);
    lemma_name_is_its_own_key("nu.exe"@);
    lemma_name_is_its_own_key("nushell"@);
    lemma_name_is_its_own_key("nushell.exe"@);
}

/// A name without upper-case letters that does not start with `-` is compared as it is.
proof fn lemma_name_is_its_own_key(n: Seq<char>)
    requires
        n.len() > 0,
        n[0] != '-',
        forall|i: int| 0 <= i < n.len() ==> !('A' <= #[trigger] n[i] && n[i] <= 'Z'),
    ensures
        trim_start_char(ascii_lower(n), '-') == n,
{
    assert(ascii_lower(n) =~= n);
}

} // verus!
