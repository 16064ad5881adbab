use lib::history::{
    history_entries, history_format, is_bash_timestamp_marker, nth_from_latest,
    nth_history_entry, HistoryFormat,
};
use lib::ShellKind;

/// The command lists that the shells' history readers build, written with
/// std's iterator adapters.
fn reference_entries(format: HistoryFormat, content: &str) -> Vec<String> {
    let lines = content.lines().rev().map(str::trim);
    match format {
        HistoryFormat::Plain => lines.filter(|l| !l.is_empty()).map(ToOwned::to_owned).collect(),
        HistoryFormat::BashLike => lines
            .filter(|l| !l.is_empty())
            .filter(|l| !(l.starts_with('#') && l[1..].chars().all(|c| c.is_ascii_digit())))
            .map(ToOwned::to_owned)
            .collect(),
        HistoryFormat::Zsh => lines
            .filter(|l| !l.is_empty())
            .map(|line| {
                if let Some(after) = zsh_command_after_prefix(line) {
                    let after = after.trim();
                    if !after.is_empty() {
                        return after.to_owned();
                    }
                }
                line.to_owned()
            })
            .collect(),
        HistoryFormat::Fish => lines
            .filter_map(|l| l.strip_prefix("- cmd: ").map(str::trim))
            .filter(|c| !c.is_empty())
            .map(ToOwned::to_owned)
            .collect(),
    }
}

/// What follows an extended-history prefix `: <digits>:<digits>;`.
fn zsh_command_after_prefix(line: &str) -> Option<&str> {
    let rest = line.strip_prefix(": ")?;
    let (start, rest) = rest.split_once(':')?;
    let (elapsed, command) = rest.split_once(';')?;
    let digits = |s: &str| !s.is_empty() && s.chars().all(|c| c.is_ascii_digit());
    if digits(start) && digits(elapsed) {
        Some(command)
    } else {
        None
    }
}

const SAMPLES: [&str; 12] = [
    "cd /tmp; ls\n: 12:x;ls\n:  1:0;a\n: 1:0;\n: 1:0; b ; c\n",
    ": 1700000000:15;git commit -m 'a; b'\n:1:0;x\n: :0;y\n: 1:;z\n",
    "",
    "\n",
    "ls\ncd /tmp\n",
    "  echo one  \r\n\r\n  echo two\r\n",
    "#1700000000\ngit status\n#1700000001\nplease\n#\n#12a\n",
    ": 1700000000:0;ls -la\n: 1700000001:0;\nplain zsh line\n;  \n: 1:0;a;b\n",
    "- cmd: ls\n  when: 1700000000\n- cmd:   \n- cmd: git push\n  paths:\n    - x\n",
    "no trailing newline",
    "\u{a0}tab\tinside\u{3000}\n\n   \n",
    "- cmd: x\n- cmd:y\n-cmd: z\n",
];

#[test]
fn entries_agree_with_std_pipelines() {
    for format in [
        HistoryFormat::Plain,
        HistoryFormat::BashLike,
        HistoryFormat::Zsh,
        HistoryFormat::Fish,
    ] {
        for content in SAMPLES {
            assert_eq!(
                history_entries(format, content),
                reference_entries(format, content),
                "{:?} {:?}",
                format,
                content
            );
        }
    }
}

#[test]
fn bash_history_skips_timestamps() {
    let content = "#1700000000\ngit status\n#1700000001\ncargo build\n";
    assert_eq!(
        history_entries(HistoryFormat::BashLike, content),
        vec!["cargo build".to_owned(), "git status".to_owned()]
    );
}

#[test]
fn zsh_extended_history_keeps_the_command() {
    let content = ": 1700000000:0;ls -la\n: 1700000001:0;make test\n";
    assert_eq!(
        history_entries(HistoryFormat::Zsh, content),
        vec!["make test".to_owned(), "ls -la".to_owned()]
    );
    assert_eq!(
        history_entries(HistoryFormat::Zsh, "echo a; echo b\nfoo;\n"),
        vec!["foo;".to_owned(), "echo a; echo b".to_owned()]
    );
}

#[test]
fn zsh_plain_line_with_semicolon_is_kept_whole() {
    assert_eq!(
        nth_history_entry(HistoryFormat::Zsh, "cd /tmp; ls\n", 0),
        Some("cd /tmp; ls".to_owned())
    );
    assert_eq!(
        history_entries(HistoryFormat::Zsh, ": 1700000000:0;\n: 1:0;a; b\n"),
        vec!["a; b".to_owned(), ": 1700000000:0;".to_owned()]
    );
}

#[test]
fn fish_history_reads_cmd_lines() {
    let content = "- cmd: ls\n  when: 1\n- cmd: git push\n  when: 2\n";
    assert_eq!(
        history_entries(HistoryFormat::Fish, content),
        vec!["git push".to_owned(), "ls".to_owned()]
    );
}

#[test]
fn plain_history_skips_blank_lines() {
    assert_eq!(
        history_entries(HistoryFormat::Plain, "a\n\n  b  \n   \n"),
        vec!["b".to_owned(), "a".to_owned()]
    );
}

#[test]
fn appended_line_becomes_newest() {
    let before = "#1\nls\n";
    let after = format!("{before}\n{}", "  make install ");
    let old = history_entries(HistoryFormat::BashLike, before);
    let new = history_entries(HistoryFormat::BashLike, &after);
    assert_eq!(new[0], "make install");
    assert_eq!(new[1..], old[..]);
    let unchanged = history_entries(HistoryFormat::BashLike, &format!("{before}\n#42"));
    assert_eq!(unchanged, old);
}

#[test]
fn entries_are_trimmed_and_non_empty() {
    for format in [
        HistoryFormat::Plain,
        HistoryFormat::BashLike,
        HistoryFormat::Zsh,
        HistoryFormat::Fish,
    ] {
        for content in SAMPLES {
            for entry in history_entries(format, content) {
                assert!(!entry.is_empty());
                assert_eq!(entry.trim(), entry);
                if format == HistoryFormat::BashLike {
                    assert!(!is_bash_timestamp_marker(&entry));
                }
            }
        }
    }
}

#[test]
fn timestamp_markers() {
    assert!(is_bash_timestamp_marker("#1700000000"));
    assert!(is_bash_timestamp_marker("#"));
    assert!(!is_bash_timestamp_marker("#12a"));
    assert!(!is_bash_timestamp_marker("# 12"));
    assert!(!is_bash_timestamp_marker("12"));
    assert!(!is_bash_timestamp_marker(""));
}

#[test]
fn nth_from_latest_picks_by_position() {
    let items = vec!["c".to_owned(), "b".to_owned(), "a".to_owned()];
    assert_eq!(nth_from_latest(items.clone(), 0), Some("c".to_owned()));
    assert_eq!(nth_from_latest(items.clone(), 2), Some("a".to_owned()));
    assert_eq!(nth_from_latest(items, 3), None);
    assert_eq!(nth_from_latest(Vec::new(), 0), None);
}

#[test]
fn nth_history_entry_counts_from_the_end() {
    let content = "first\nsecond\n\nthird\n";
    assert_eq!(nth_history_entry(HistoryFormat::Plain, content, 0), Some("third".to_owned()));
    assert_eq!(nth_history_entry(HistoryFormat::Plain, content, 2), Some("first".to_owned()));
    assert_eq!(nth_history_entry(HistoryFormat::Plain, content, 3), None);
}

#[test]
fn history_format_of_each_shell() {
    assert_eq!(history_format(ShellKind::PowerShell), Some(HistoryFormat::Plain));
    assert_eq!(history_format(ShellKind::Cmd), Some(HistoryFormat::Plain));
    assert_eq!(history_format(ShellKind::Bash), Some(HistoryFormat::BashLike));
    assert_eq!(history_format(ShellKind::Sh), Some(HistoryFormat::BashLike));
    assert_eq!(history_format(ShellKind::Zsh), Some(HistoryFormat::Zsh));
    assert_eq!(history_format(ShellKind::Fish), Some(HistoryFormat::Fish));
    assert_eq!(history_format(ShellKind::Nu), Some(HistoryFormat::Plain));
    assert_eq!(history_format(ShellKind::Unknown), None);
}

#[test]
fn nu_query_text() {
    assert_eq!(
        lib::history::nu_history_query(3),
        "history | get command | reverse | skip 3 | first"
    );
}
