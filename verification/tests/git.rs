use fleet::git::{
    can_parse_status, parse_log, parse_status, read, reply, Change, Query, Reply, State, Step,
    CHANGES_LIMIT, SEP,
};
use fleet::scan::is_white_space;

#[test]
fn a_branch_with_an_upstream_says_how_far_apart_they_are() {
    let s = parse_status("## main...origin/main [ahead 2, behind 1]\0");
    assert_eq!(s.branch.as_deref(), Some("main"));
    assert_eq!(s.upstream.as_deref(), Some("origin/main"));
    assert_eq!((s.ahead, s.behind), (2, 1));
}

#[test]
fn a_fresh_repository_still_has_a_branch_name() {
    let s = parse_status("## No commits yet on main\0?? a.txt\0");
    assert_eq!(s.branch.as_deref(), Some("main"));
    assert_eq!(s.changes.len(), 1);
}

#[test]
fn a_detached_head_has_no_branch() {
    let s = parse_status("## HEAD (no branch)\0");
    assert_eq!(s.branch, None);
}

#[test]
fn a_rename_is_one_change_under_its_new_name() {
    let s = parse_status("## main\0R  new.rs\0old.rs\0 M src/ui.rs\0");
    assert_eq!(s.changes_total, 2);
    assert_eq!(s.changes[0].path, "new.rs");
    assert!(s.changes[0].staged());
    assert_eq!(s.changes[1].path, "src/ui.rs");
    assert!(!s.changes[1].staged());
}

#[test]
fn a_rename_in_the_work_tree_is_one_change_too() {
    let s = parse_status("## main\0 R new.rs\0old.rs\0");
    assert_eq!(s.changes_total, 1);
    assert_eq!(s.changes, [Change { code: " R".to_string(), path: "new.rs".to_string() }]);
    assert!(!s.changes[0].staged());

    let s = parse_status("## main\0 C copy.rs\0from.rs\0RM b.rs\0a.rs\0 M c.rs\0");
    assert_eq!(s.changes_total, 3);
    let paths: Vec<&str> = s.changes.iter().map(|c| c.path.as_str()).collect();
    assert_eq!(paths, ["copy.rs", "b.rs", "c.rs"]);
}

#[test]
fn untracked_files_are_not_staged() {
    let s = parse_status("## main\0?? notes.md\0");
    assert!(!s.changes[0].staged());
}

#[test]
fn a_subject_with_pipes_and_tabs_stays_whole() {
    let line = format!("41c45ad{SEP}fix a | b\tc{SEP}1700000000");
    let log = parse_log(&line);
    assert_eq!(log[0].subject, "fix a | b\tc");
    assert_eq!(log[0].time, 1_700_000_000);
}

#[test]
fn a_change_without_a_code_is_not_staged() {
    let c = Change { code: String::new(), path: "x".to_string() };
    assert!(!c.staged());
}

#[test]
fn the_list_of_changes_is_cut_and_the_total_is_not() {
    let mut out = "## main\0".to_string();
    for i in 0..CHANGES_LIMIT + 7 {
        out.push_str(&format!(" M file{i}\0"));
    }
    let s = parse_status(&out);
    assert_eq!(s.changes_total, CHANGES_LIMIT + 7);
    assert_eq!(s.changes.len(), CHANGES_LIMIT);
    assert_eq!(s.changes[CHANGES_LIMIT - 1].path, format!("file{}", CHANGES_LIMIT - 1));
}

#[test]
fn an_entry_too_short_for_a_path_is_passed_over() {
    let s = parse_status("## main\0M a\0 M ok\0");
    assert_eq!(s.changes_total, 1);
    assert_eq!(s.changes[0].path, "ok");
    assert_eq!(s.changes[0].code, " M");
}

#[test]
fn a_status_is_cut_between_characters_only() {
    assert!(can_parse_status("## main\0 M caf\u{e9}\0"));
    assert_eq!(parse_status(" M caf\u{e9}\0").changes[0].path, "caf\u{e9}");
    // The second byte of this entry lies inside its second character.
    assert!(!can_parse_status("x\u{e9}yz\0"));
    // The code may be one character of two bytes.
    assert!(can_parse_status("\u{e9}xyz\0"));
    assert_eq!(parse_status("\u{e9}xyz\0").changes[0].code, "\u{e9}");
    assert_eq!(parse_status("\u{e9}xyz\0").changes[0].path, "yz");
    // The old path of a rename is not read as an entry.
    assert!(can_parse_status("R  new\0x\u{e9}yz\0"));
}

#[test]
fn counts_that_are_no_numbers_read_as_zero() {
    let s = parse_status("## main...up [ahead x, behind +3]\0");
    assert_eq!((s.ahead, s.behind), (0, 3));
    let s = parse_status("## main...up [ahead 4294967296]\0");
    assert_eq!(s.ahead, 0);
    let s = parse_status("## Initial commit on trunk\0");
    assert_eq!(s.branch.as_deref(), Some("trunk"));
}

#[test]
fn a_line_of_the_log_with_a_field_missing_is_left_out() {
    let log = parse_log(&format!("a{SEP}b\r\nc{SEP}d{SEP}7\r\ne{SEP}f{SEP}x\n\n"));
    assert_eq!(log.len(), 2);
    assert_eq!((log[0].hash.as_str(), log[0].time), ("c", 7));
    assert_eq!((log[1].hash.as_str(), log[1].time), ("e", 0));
}

#[test]
fn git_is_asked_three_questions_in_order() {
    assert_eq!(Query::Status.args(), ["-c", "core.quotepath=off", "status", "--porcelain=v1", "--branch", "-z"]);
    assert_eq!(Query::TopLevel.args(), ["-c", "core.quotepath=off", "rev-parse", "--show-toplevel"]);
    let format = format!("--format=%h{SEP}%s{SEP}%ct");
    assert_eq!(Query::Log.args(), ["-c", "core.quotepath=off", "log", "-n60", format.as_str()]);

    let mut replies = Vec::new();
    assert_eq!(read(&replies), Step::Ask(Query::Status));
    replies.push(reply(Some((true, b"## main\0 M a.rs\0"))));
    assert_eq!(read(&replies), Step::Ask(Query::TopLevel));
    replies.push(reply(Some((true, b"/home/me/src\n"))));
    assert_eq!(read(&replies), Step::Ask(Query::Log));
    replies.push(reply(Some((false, b""))));
    match read(&replies) {
        Step::Done(State::Repo(s)) => {
            assert_eq!(s.root.as_deref(), Some("/home/me/src"));
            assert_eq!(s.branch.as_deref(), Some("main"));
            assert_eq!(s.changes_total, 1);
            assert!(s.log.is_empty());
        }
        other => panic!("{other:?}"),
    }
}

#[test]
fn a_refusal_and_a_missing_git_end_the_read() {
    assert_eq!(read(&vec![reply(Some((false, b"x")))]), Step::Done(State::NotARepo));
    assert_eq!(read(&vec![reply(None)]), Step::Done(State::NoGit));
    let replies = vec![
        Reply::Output("## main\0".to_string()),
        Reply::Refused,
        Reply::Output(format!("a{SEP}b{SEP}1")),
    ];
    match read(&replies) {
        Step::Done(State::Repo(s)) => {
            assert_eq!(s.root, None);
            assert_eq!(s.log.len(), 1);
        }
        other => panic!("{other:?}"),
    }
}

#[test]
fn bytes_that_are_no_utf8_are_replaced() {
    assert_eq!(reply(Some((true, b"a\xffb"))), Reply::Output("a\u{fffd}b".to_string()));
    assert_eq!(reply(Some((true, "caf\u{e9}".as_bytes()))), Reply::Output("caf\u{e9}".to_string()));
}

#[test]
fn white_space_around_the_top_level_is_dropped() {
    for c in 0..=0x10ffffu32 {
        if let Some(c) = char::from_u32(c) {
            if c.is_whitespace() {
                let replies = vec![
                    Reply::Output("## main\0".to_string()),
                    Reply::Output(format!("{c}/a b{c}")),
                    Reply::Refused,
                ];
                match read(&replies) {
                    Step::Done(State::Repo(s)) => assert_eq!(s.root.as_deref(), Some("/a b")),
                    other => panic!("{other:?}"),
                }
            }
        }
    }
}

#[test]
fn a_refused_log_is_an_empty_history() {
    let replies = vec![
        Reply::Output("## No commits yet on main\0".to_string()),
        Reply::Refused,
        Reply::Refused,
    ];
    match read(&replies) {
        Step::Done(State::Repo(snap)) => {
            assert_eq!(snap.branch.as_deref(), Some("main"));
            assert!(snap.log.is_empty());
            assert!(snap.root.is_none());
        }
        other => panic!("{other:?}"),
    }
}

#[test]
fn two_runs_are_read_one_after_the_other() {
    let run = |name: &str, n: usize| -> String {
        let mut out = "R  new.rs\0old.rs\0## main\0".to_string();
        for i in 0..n {
            out.push_str(&format!(" M {name}{i}\0"));
        }
        out
    };
    for (m, n) in [(0, 0), (2, 3), (150, 150), (300, 1), (1, 300)] {
        let (a, b) = (run("a", m), run("b", n));
        let (first, second) = (parse_status(&a), parse_status(&b));
        let both = parse_status(&format!("{a}{b}"));
        assert_eq!(both.changes_total, first.changes_total + second.changes_total);
        let mut changes = first.changes;
        changes.extend(second.changes);
        changes.truncate(CHANGES_LIMIT);
        assert_eq!(both.changes, changes);
    }
}

#[test]
fn white_space_is_what_unicode_says() {
    for c in '\0'..=char::MAX {
        assert_eq!(is_white_space(c), c.is_whitespace(), "{c:?}");
    }
}
