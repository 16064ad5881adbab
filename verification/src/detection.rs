//! The decisions of shell detection: which source of evidence wins, when the
//! walk up the process tree stops, and how the answers of `ps` or PowerShell
//! are read.
use vstd::prelude::*;

use crate::shell_kind::ShellKind;
use crate::shell_name::{
    final_component, is_portable_path, lemma_final_component_plain, lemma_plain_name,
    parse_shell_name, parsed_as, path_file_name, shell_kind_of_name,
};
use crate::text::{
    ascii_lower, ascii_lower_range, chars_of, contains_literal, contains_seq, decimal,
    decimal_string, is_ascii_digit, string_from_range, trim, trim_range,
};

verus! {

/// What the environment of the process says about the active shell.
pub struct ShellEnvironment {
    /// The value of `PLEASE_SHELL`, which overrides every other source.
    pub please_shell: Option<String>,
    /// The shell found among the ancestors of the process, if any.
    pub parent_process_shell: Option<ShellKind>,
    /// The value of `SHELL`.
    pub shell_path: Option<String>,
    /// Whether `NU_VERSION` is set.
    pub nu_version_set: bool,
    /// Whether `PSModulePath` is set.
    pub ps_module_path_set: bool,
    /// Whether the process runs on Windows.
    pub on_windows: bool,
    /// The value of `ComSpec`.
    pub comspec: Option<String>,
}

/// `ComSpec` names `cmd.exe`, in any ASCII case.
pub open spec fn comspec_is_cmd(comspec: Option<Seq<char>>) -> bool {
    match comspec {
        Some(c) => contains_seq(ascii_lower(c), "cmd.exe"@),
        None => false,
    }
}

/// The order in which the sources of evidence are consulted: the
/// `PLEASE_SHELL` override, the parent process, the shell named by `SHELL`
/// (when recognised), `NU_VERSION`, `PSModulePath`, and on Windows a `ComSpec`
/// that names `cmd.exe`.
pub open spec fn choose_shell(
    please_kind: Option<ShellKind>,
    parent_kind: Option<ShellKind>,
    shell_path_kind: Option<ShellKind>,
    nu_version_set: bool,
    ps_module_path_set: bool,
    on_windows: bool,
    comspec: Option<Seq<char>>,
) -> ShellKind {
    match please_kind {
        Some(k) => k,
        None => match parent_kind {
            Some(k) => k,
            None => {
                let from_path = match shell_path_kind {
                    Some(k) => k,
                    None => ShellKind::Unknown,
                };
                if from_path != ShellKind::Unknown {
                    from_path
                } else if nu_version_set {
                    ShellKind::Nu
                } else if ps_module_path_set {
                    ShellKind::PowerShell
                } else if on_windows && comspec_is_cmd(comspec) {
                    ShellKind::Cmd
                } else {
                    ShellKind::Unknown
                }
            },
        },
    }
}

/// The view of an optional string.
pub open spec fn opt_view(s: Option<String>) -> Option<Seq<char>> {
    match s {
        Some(v) => Some(v@),
        None => None,
    }
}

/// What recognising the `PLEASE_SHELL` value may give.
pub open spec fn please_outcome(please_shell: Option<Seq<char>>, kind: Option<ShellKind>) -> bool {
    match please_shell {
        Some(v) => kind matches Some(k) && parsed_as(v, k),
        None => kind is None,
    }
}

/// What recognising the final component of the `SHELL` value gives: for a
/// portable path, nothing when it has no final component and otherwise the
/// kind of that component; for any path, when something, the kind of a
/// non-empty piece of it.
pub open spec fn shell_path_outcome(shell_path: Option<Seq<char>>, kind: Option<ShellKind>) -> bool {
    match shell_path {
        Some(v) => {
            &&& is_portable_path(v) ==> kind == match final_component(v) {
                Some(n) => Some(shell_kind_of_name(n)),
                None => None,
            }
            &&& kind matches Some(k) ==> exists|n: Seq<char>|
                n.len() > 0 && contains_seq(v, n) && #[trigger] parsed_as(n, k)
        },
        None => kind is None,
    }
}

/// Picks the active shell from the evidence already recognised (see `choose_shell`).
pub fn choose_shell_kind(
    please_kind: Option<ShellKind>,
    parent_kind: Option<ShellKind>,
    shell_path_kind: Option<ShellKind>,
    nu_version_set: bool,
    ps_module_path_set: bool,
    on_windows: bool,
    comspec: Option<&str>,
) -> (kind: ShellKind)
    ensures
        kind == choose_shell(
            please_kind,
            parent_kind,
            shell_path_kind,
            nu_version_set,
            ps_module_path_set,
            on_windows,
            match comspec {
                Some(c) => Some(c@),
                None => None,
            },
        ),
{
    match please_kind {
        Some(k) => return k,
        None => {},
    }
    match parent_kind {
        Some(k) => return k,
        None => {},
    }
    let from_path = match shell_path_kind {
        Some(k) => k,
        None => ShellKind::Unknown,
    };
    if from_path != ShellKind::Unknown {
        return from_path;
    }
    if nu_version_set {
        return ShellKind::Nu;
    }
    if ps_module_path_set {
        return ShellKind::PowerShell;
    }
    if on_windows {
        match comspec {
            Some(c) => {
                let chars = chars_of(c);
                let lower = ascii_lower_range(&chars, 0, chars.len());
                assert(chars@.subrange(0, chars@.len() as int) == chars@);
                if contains_literal(&lower, "cmd.exe") {
                    return ShellKind::Cmd;
                }
            },
            None => {},
        }
    }
    ShellKind::Unknown
}

/// Detects the active shell from what the environment says about it.
pub fn detect_shell(env: &ShellEnvironment) -> (kind: ShellKind)
    ensures
        exists|pk: Option<ShellKind>, sk: Option<ShellKind>|
            #![trigger please_outcome(opt_view(env.please_shell), pk), shell_path_outcome(opt_view(env.shell_path), sk)]
            please_outcome(opt_view(env.please_shell), pk) && shell_path_outcome(
                opt_view(env.shell_path),
                sk,
            ) && kind == choose_shell(
                pk,
                env.parent_process_shell,
                sk,
                env.nu_version_set,
                env.ps_module_path_set,
                env.on_windows,
                opt_view(env.comspec),
            ),
{
    let please_kind: Option<ShellKind> = match &env.please_shell {
        Some(s) => Some(parse_shell_name(s.as_str())),
        None => None,
    };
    let shell_path_kind: Option<ShellKind> = match &env.shell_path {
        Some(p) => match path_file_name(p.as_str()) {
            Some(n) => {
                let k = parse_shell_name(n);
                proof {
                    if is_portable_path(p@) {
                        lemma_final_component_plain(p@);
                        lemma_plain_name(n@);
                    }
                }
                Some(k)
            },
            None => None,
        },
        None => None,
    };
    let comspec: Option<&str> = match &env.comspec {
        Some(c) => Some(c.as_str()),
        None => None,
    };
    let kind = choose_shell_kind(
        please_kind,
        env.parent_process_shell,
        shell_path_kind,
        env.nu_version_set,
        env.ps_module_path_set,
        env.on_windows,
        comspec,
    );
    assert(please_outcome(opt_view(env.please_shell), please_kind));
    assert(shell_path_outcome(opt_view(env.shell_path), shell_path_kind));
    kind
}

} // verus!

verus! {

/// How many ancestors of the process are examined at most.
pub const ANCESTOR_LIMIT: usize = 8;

/// What to do after examining the name of one ancestor process.
#[derive(Debug, Clone, Copy, PartialEq, Eq, Structural)]
pub enum AncestorStep {
    /// The ancestor is a recognised shell.
    Found(ShellKind),
    /// Examine the ancestor's own parent next.
    Climb,
    /// The limit is reached without finding a shell.
    GiveUp,
}

/// The step taken at `depth` (0 for the parent) for an ancestor recognised as `kind`.
pub open spec fn ancestor_step_spec(depth: int, kind: ShellKind) -> AncestorStep {
    if kind != ShellKind::Unknown {
        AncestorStep::Found(kind)
    } else if depth + 1 < ANCESTOR_LIMIT {
        AncestorStep::Climb
    } else {
        AncestorStep::GiveUp
    }
}

/// Decides, from the name of the ancestor at `depth`, whether the walk up the
/// process tree has found the shell, goes on, or stops.
pub fn ancestor_step(depth: usize, process_name: &str) -> (step: AncestorStep)
    requires
        depth < ANCESTOR_LIMIT,
    ensures
        exists|k: ShellKind| #[trigger] parsed_as(process_name@, k) && step == ancestor_step_spec(depth as int, k),
{
    let kind = parse_shell_name(process_name);
    if kind != ShellKind::Unknown {
        AncestorStep::Found(kind)
    } else if depth + 1 < ANCESTOR_LIMIT {
        AncestorStep::Climb
    } else {
        AncestorStep::GiveUp
    }
}

/// What a query printed, trimmed, if anything is left.
pub open spec fn trimmed_output_spec(output: Seq<char>) -> Option<Seq<char>> {
    if trim(output).len() > 0 {
        Some(trim(output))
    } else {
        None
    }
}

/// Reads the answer of a query (`ps -o comm=`, a PowerShell or Nushell
/// query): its trimmed output, or `None` when that is empty.
pub fn trimmed_output(output: &str) -> (answer: Option<String>)
    ensures
        match answer {
            Some(n) => trimmed_output_spec(output@) == Some(n@),
            None => trimmed_output_spec(output@) is None,
        },
{
    let chars = chars_of(output);
    let (a, b) = trim_range(&chars, 0, chars.len());
    assert(chars@.subrange(0, chars@.len() as int) == chars@);
    if a == b {
        None
    } else {
        Some(string_from_range(&chars, a, b))
    }
}

/// The value of a string of ASCII decimal digits.
pub open spec fn digits_value(s: Seq<char>) -> int
    decreases s.len(),
{
    if s.len() == 0 {
        0
    } else {
        digits_value(s.drop_last()) * 10 + (s.last() as int - '0' as int)
    }
}

/// Every character is an ASCII decimal digit.
pub open spec fn all_ascii_digits(s: Seq<char>) -> bool {
    forall|i: int| 0 <= i < s.len() ==> #[trigger] is_ascii_digit(s[i])
}

/// `u32`'s `FromStr`: an optional `+`, then one or more decimal digits whose
/// value fits in 32 bits; anything else (white space included) is refused.
pub open spec fn parse_u32_spec(s: Seq<char>) -> Option<u32> {
    let d = if s.len() > 0 && s[0] == '+' {
        s.drop_first()
    } else {
        s
    };
    if d.len() > 0 && all_ascii_digits(d) && digits_value(d) <= u32::MAX {
        Some(digits_value(d) as u32)
    } else {
        None
    }
}

/// Reads a process id from the output of `ps -o ppid=` or of a PowerShell
/// query: the trimmed output read as a `u32`.
pub fn parse_pid(output: &str) -> (pid: Option<u32>)
    ensures
        pid == parse_u32_spec(trim(output@)),
{
    let chars = chars_of(output);
    let (a, b) = trim_range(&chars, 0, chars.len());
    assert(chars@.subrange(0, chars@.len() as int) == chars@);
    let ghost t = chars@.subrange(a as int, b as int);
    let mut start = a;
    if a < b && chars[a] == '+' {
        start = a + 1;
        assert(t.drop_first() == chars@.subrange(start as int, b as int));
    } else {
        assert(t == chars@.subrange(start as int, b as int));
    }
    let ghost d = chars@.subrange(start as int, b as int);
    if start == b {
        return None;
    }
    let mut value: u64 = 0;
    let mut overflow = false;
    let mut i = start;
    while i < b
        invariant
            a <= start <= i <= b <= chars@.len(),
            d == chars@.subrange(start as int, b as int),
            d.len() > 0,
            parse_u32_spec(trim(output@)) == (if all_ascii_digits(d) && digits_value(d) <= u32::MAX {
                Some(digits_value(d) as u32)
            } else {
                None
            }),
            all_ascii_digits(chars@.subrange(start as int, i as int)),
            !overflow ==> value == digits_value(chars@.subrange(start as int, i as int)),
            !overflow ==> value <= u32::MAX,
            overflow ==> digits_value(chars@.subrange(start as int, i as int)) > u32::MAX,
        decreases b - i,
    {
        let c = chars[i];
        let ghost prev = chars@.subrange(start as int, i as int);
        assert(chars@.subrange(start as int, i + 1).drop_last() == prev);
        if !('0' <= c && c <= '9') {
            assert(!is_ascii_digit(d[i - start]));
            return None;
        }
        assert(all_ascii_digits(chars@.subrange(start as int, i + 1)));
        if !overflow {
            let digit: u64 = (c as u32 - '0' as u32) as u64;
            let next: u64 = value * 10 + digit;
            if next > 4294967295 {
                overflow = true;
            } else {
                value = next;
            }
        } else {
            assert(digits_value(prev) >= 0) by {
                lemma_digits_value_nonnegative(prev);
            }
        }
        i = i + 1;
    }
    if overflow {
        None
    } else {
        Some(value as u32)
    }
}

/// A string of digits has a non-negative value.
pub proof fn lemma_digits_value_nonnegative(s: Seq<char>)
    requires
        all_ascii_digits(s),
    ensures
        digits_value(s) >= 0,
    decreases s.len(),
{
    if s.len() > 0 {
        assert(all_ascii_digits(s.drop_last()));
        lemma_digits_value_nonnegative(s.drop_last());
        assert(is_ascii_digit(s[s.len() - 1]));
    }
}

} // verus!

verus! {

/// The PowerShell query that prints the parent process id of `pid`.
pub fn parent_pid_script(pid: u32) -> (script: String)
    ensures
        script@ == "(Get-CimInstance Win32_Process -Filter \"ProcessId="@ + decimal(pid as nat)
            + "\").ParentProcessId"@,
{
    let mut script = "(Get-CimInstance Win32_Process -Filter \"ProcessId=".to_owned();
    let digits = decimal_string(pid as u64);
    script.append(digits.as_str());
    script.append("\").ParentProcessId");
    script
}

/// The PowerShell query that prints the executable name of process `pid`.
pub fn process_name_script(pid: u32) -> (script: String)
    ensures
        script@ == "(Get-CimInstance Win32_Process -Filter \"ProcessId="@ + decimal(pid as nat)
            + "\").Name"@,
{
    let mut script = "(Get-CimInstance Win32_Process -Filter \"ProcessId=".to_owned();
    let digits = decimal_string(pid as u64);
    script.append(digits.as_str());
    script.append("\").Name");
    script
}

} // verus!

verus! {

/// The whole walk up the process tree. With `kind_at(d)` the shell recognised
/// for the ancestor at depth `d` (0 is the parent), stepping with
/// `ancestor_step` from depth 0 stops at the returned depth `d`, below
/// `ANCESTOR_LIMIT`: every ancestor before it gives `Climb`, and at `d` the
/// step is `Found` with a known shell, or `GiveUp` at the last depth. So the
/// walk never reports an unknown shell and examines at most `ANCESTOR_LIMIT`
/// ancestors (two process queries each); a failed lookup only ends it sooner.
pub proof fn lemma_ancestor_walk(kind_at: spec_fn(int) -> ShellKind) -> (d: int)
    ensures
        0 <= d < ANCESTOR_LIMIT,
        forall|i: int| 0 <= i < d ==> ancestor_step_spec(i, #[trigger] kind_at(i)) == AncestorStep::Climb,
        ancestor_step_spec(d, kind_at(d)) != AncestorStep::Climb,
        ancestor_step_spec(d, kind_at(d)) != AncestorStep::Found(ShellKind::Unknown),
        ancestor_step_spec(d, kind_at(d)) == AncestorStep::GiveUp ==> d == ANCESTOR_LIMIT - 1
            && kind_at(d) == ShellKind::Unknown,
{
    ancestor_walk_from(kind_at, 0)
}

/// The depth at which the walk, already past depth `k` by climbing, stops.
proof fn ancestor_walk_from(kind_at: spec_fn(int) -> ShellKind, k: int) -> (d: int)
    requires
        0 <= k < ANCESTOR_LIMIT,
        forall|i: int| 0 <= i < k ==> ancestor_step_spec(i, #[trigger] kind_at(i)) == AncestorStep::Climb,
    ensures
        k <= d < ANCESTOR_LIMIT,
        forall|i: int| 0 <= i < d ==> ancestor_step_spec(i, #[trigger] kind_at(i)) == AncestorStep::Climb,
        ancestor_step_spec(d, kind_at(d)) != AncestorStep::Climb,
        ancestor_step_spec(d, kind_at(d)) != AncestorStep::Found(ShellKind::Unknown),
        ancestor_step_spec(d, kind_at(d)) == AncestorStep::GiveUp ==> d == ANCESTOR_LIMIT - 1
            && kind_at(d) == ShellKind::Unknown,
    decreases ANCESTOR_LIMIT - k,
{
    if ancestor_step_spec(k, kind_at(k)) == AncestorStep::Climb {
        ancestor_walk_from(kind_at, k + 1)
    } else {
        k
    }
}

} // verus!

verus! {

/// What to do after one attempt to get an answer from an outside program.
#[derive(Debug)]
pub enum QueryStep {
    /// The attempt answered: its trimmed, non-empty output.
    Answer(String),
    /// No answer; make the next attempt.
    TryNext,
    /// No answer, and this was the last attempt.
    GiveUp,
}

/// Decides after attempt `attempt` of `attempts` (0 first) whose program
/// `succeeded` (it ran and exited successfully) with standard output
/// `output`: the first attempt with a non-empty trimmed answer wins. It orders
/// the PowerShell programs of a query, and Nushell's own answer before its
/// history file.
pub fn query_step(attempt: usize, attempts: usize, succeeded: bool, output: &str) -> (step: QueryStep)
    requires
        attempt < attempts,
    ensures
        match step {
            QueryStep::Answer(a) => succeeded && trimmed_output_spec(output@) == Some(a@),
            QueryStep::TryNext => !(succeeded && trimmed_output_spec(output@) is Some) && attempt + 1
                < attempts,
            QueryStep::GiveUp => !(succeeded && trimmed_output_spec(output@) is Some) && attempt + 1
                == attempts,
        },
{
    if succeeded {
        match trimmed_output(output) {
            Some(a) => {
                return QueryStep::Answer(a);
            },
            None => {},
        }
    }
    if attempt + 1 < attempts {
        QueryStep::TryNext
    } else {
        QueryStep::GiveUp
    }
}

} // verus!

verus! {

/// The order of the evidence, case by case: the `PLEASE_SHELL` kind wins over
/// everything (even when unknown); otherwise the parent-process kind; otherwise
/// a recognised `SHELL` kind; otherwise a set `NU_VERSION` gives Nu whatever
/// `PSModulePath`, the platform and `ComSpec` say; only without `NU_VERSION`
/// does a set `PSModulePath` give PowerShell; and only without both does a
/// Windows `ComSpec` naming `cmd.exe` give Cmd.
pub proof fn lemma_detection_order(
    please_kind: Option<ShellKind>,
    parent_kind: Option<ShellKind>,
    shell_path_kind: Option<ShellKind>,
    nu_version_set: bool,
    ps_module_path_set: bool,
    on_windows: bool,
    comspec: Option<Seq<char>>,
)
    ensures
        please_kind is Some ==> choose_shell(please_kind, parent_kind, shell_path_kind,
            nu_version_set, ps_module_path_set, on_windows, comspec) == please_kind.unwrap(),
        please_kind is None && parent_kind is Some ==> choose_shell(please_kind, parent_kind,
            shell_path_kind, nu_version_set, ps_module_path_set, on_windows, comspec)
            == parent_kind.unwrap(),
        please_kind is None && parent_kind is None && shell_path_kind is Some
            && shell_path_kind.unwrap() != ShellKind::Unknown ==> choose_shell(please_kind,
            parent_kind, shell_path_kind, nu_version_set, ps_module_path_set, on_windows, comspec)
            == shell_path_kind.unwrap(),
        please_kind is None && parent_kind is None && (shell_path_kind is None || shell_path_kind
            == Some(ShellKind::Unknown)) ==> {
            &&& nu_version_set ==> choose_shell(please_kind, parent_kind, shell_path_kind,
                nu_version_set, ps_module_path_set, on_windows, comspec) == ShellKind::Nu
            &&& !nu_version_set && ps_module_path_set ==> choose_shell(please_kind, parent_kind,
                shell_path_kind, nu_version_set, ps_module_path_set, on_windows, comspec)
                == ShellKind::PowerShell
            &&& !nu_version_set && !ps_module_path_set ==> (choose_shell(please_kind, parent_kind,
                shell_path_kind, nu_version_set, ps_module_path_set, on_windows, comspec)
                == ShellKind::Cmd <==> on_windows && comspec_is_cmd(comspec))
            &&& !nu_version_set && !ps_module_path_set && !(on_windows && comspec_is_cmd(comspec))
                ==> choose_shell(please_kind, parent_kind, shell_path_kind, nu_version_set,
                ps_module_path_set, on_windows, comspec) == ShellKind::Unknown
        },
{
}

/// A recognised ancestor ends the walk with its own shell at every depth below
/// the limit; the walk climbs on only past an unrecognised name, and gives up
/// only past an unrecognised name at the last depth.
pub proof fn lemma_ancestor_step_found(depth: int, kind: ShellKind)
    requires
        0 <= depth < ANCESTOR_LIMIT,
    ensures
        kind != ShellKind::Unknown ==> ancestor_step_spec(depth, kind) == AncestorStep::Found(kind),
        ancestor_step_spec(depth, kind) == AncestorStep::Climb ==> kind == ShellKind::Unknown
            && depth + 1 < ANCESTOR_LIMIT,
        ancestor_step_spec(depth, kind) == AncestorStep::GiveUp ==> kind == ShellKind::Unknown
            && depth == ANCESTOR_LIMIT - 1,
        kind == ShellKind::Unknown && depth + 1 < ANCESTOR_LIMIT ==> ancestor_step_spec(depth, kind)
            == AncestorStep::Climb,
{
}

/// For a portable process name, the step is decided by the kind of its final
/// component: a recognised shell is found at once, whatever the depth.
pub proof fn lemma_ancestor_name_found(depth: int, process_name: Seq<char>, kind: ShellKind)
    requires
        0 <= depth < ANCESTOR_LIMIT,
        crate::shell_name::is_portable_path(process_name),
        parsed_as(process_name, kind),
        crate::shell_name::shell_kind_of_name(crate::shell_name::file_name_or_self(process_name))
            != ShellKind::Unknown,
    ensures
        ancestor_step_spec(depth, kind) == AncestorStep::Found(
            crate::shell_name::shell_kind_of_name(crate::shell_name::file_name_or_self(process_name)),
        ),
{
}

} // verus!

verus! {

/// The decimal notation of `n` is a non-empty string of digits whose value is `n`.
proof fn lemma_decimal_digits(n: nat)
    ensures
        decimal(n).len() > 0,
        all_ascii_digits(decimal(n)),
        digits_value(decimal(n)) == n,
    decreases n,
{
    let c = crate::text::decimal_digit((n % 10) as int);
    assert(c as int == (n % 10) + 48);
    assert('0' as int == 48);
    assert(is_ascii_digit(c));
    if n >= 10 {
        lemma_decimal_digits(n / 10);
        let p = decimal(n / 10);
        assert(decimal(n).drop_last() == p);
        assert(decimal(n).last() == c);
        assert(digits_value(decimal(n)) == digits_value(p) * 10 + (c as int - '0' as int));
        assert(n == (n / 10) * 10 + n % 10);
        assert forall|i: int| 0 <= i < decimal(n).len() implies #[trigger] is_ascii_digit(
            decimal(n)[i],
        ) by {
            if i < p.len() {
                assert(decimal(n)[i] == p[i]);
            } else {
                assert(decimal(n)[i] == c);
            }
        }
    } else {
        assert(decimal(n).drop_last() =~= Seq::<char>::empty());
        assert(decimal(n).last() == c);
        assert(digits_value(Seq::<char>::empty()) == 0);
        assert(digits_value(decimal(n)) == digits_value(decimal(n).drop_last()) * 10 + (c as int
            - '0' as int));
        assert forall|i: int| 0 <= i < decimal(n).len() implies #[trigger] is_ascii_digit(
            decimal(n)[i],
        ) by {
            assert(decimal(n)[i] == c);
        }
    }
}

/// A process id printed in decimal, with or without white space around it, is
/// read back as the same id.
pub proof fn lemma_pid_round_trip(pid: u32)
    ensures
        parse_u32_spec(trim(decimal(pid as nat))) == Some(pid),
{
    let s = decimal(pid as nat);
    lemma_decimal_digits(pid as nat);
    assert(is_ascii_digit(s[0]));
    assert(is_ascii_digit(s[s.len() - 1]));
    assert(crate::text::trim_start(s) == s);
    assert(crate::text::trim_end(s) == s);
}

} // verus!
