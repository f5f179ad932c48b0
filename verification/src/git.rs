//! What git has to say about the directory a session works in: the branch,
//! the uncommitted changes, and the last commits.
//!
//! Git itself is run by the caller. This module says what to ask it, in which
//! order, and what the answers mean.

use vstd::prelude::*;
use vstd::slice::slice_subrange;
use vstd::utf8::{decode_utf8, valid_utf8};

use crate::scan::{after_prefix, at_least_bytes, byte_len, chars_in, chars_within, cut, lines,
    occurs_at, parse_unsigned, pieces, split, split_all, split_lines, split_once, strip_prefix,
    trim, trim_end_of, trimmed, unsigned, without_end};
use crate::text::{chars, concat, decimal, number, spell};

verus! {

/// How many commits are asked for. More than any terminal is tall; the panel
/// draws what fits.
pub const LOG_LIMIT: u64 = 60;

/// How many changed files are kept. A tree with thousands of them is summed up
/// by its count, not listed.
pub const CHANGES_LIMIT: usize = 200;

/// Separates the fields of one line of the log. A unit separator cannot turn
/// up in a subject line, so a subject with tabs or pipes in it stays whole.
pub const SEP: char = '\u{1f}';

/// One changed file.
#[derive(Clone, Debug, PartialEq, Eq)]
pub struct Change {
    /// The two-letter porcelain code: index then work tree, e.g. `M `, ` M`,
    /// `??`.
    pub code: String,
    pub path: String,
}

/// One commit of the log.
#[derive(Clone, Debug, PartialEq, Eq)]
pub struct Commit {
    pub hash: String,
    pub subject: String,
    /// Committer time, in seconds since the epoch.
    pub time: u64,
}

/// What git says about one repository.
#[derive(Clone, Debug, PartialEq, Eq)]
pub struct Snapshot {
    /// The top of the work tree, which may be above the session's directory.
    /// `None` when git did not name it: the session's own directory then
    /// stands in for it.
    pub root: Option<String>,
    /// The branch checked out, or `None` on a detached HEAD.
    pub branch: Option<String>,
    /// Commits ahead of and behind the upstream, when there is one.
    pub ahead: u32,
    pub behind: u32,
    pub upstream: Option<String>,
    pub changes: Vec<Change>,
    /// How many changes there were before `changes` was cut to the limit.
    pub changes_total: usize,
    pub log: Vec<Commit>,
}

/// What a read of the directory found.
#[derive(Clone, Debug, PartialEq, Eq)]
pub enum State {
    Repo(Snapshot),
    /// Git answered, and this is not a repository.
    NotARepo,
    /// Git could not be run at all.
    NoGit,
}

/// A changed file, as plain text.
pub struct ChangeView {
    pub code: Seq<char>,
    pub path: Seq<char>,
}

/// A commit, as plain text.
pub struct CommitView {
    pub hash: Seq<char>,
    pub subject: Seq<char>,
    pub time: u64,
}

/// What the header of a status says.
pub struct HeadView {
    pub branch: Option<Seq<char>>,
    pub ahead: u32,
    pub behind: u32,
    pub upstream: Option<Seq<char>>,
}

/// An optional text.
pub open spec fn text_of(s: Option<String>) -> Option<Seq<char>> {
    match s {
        Some(t) => Some(t@),
        None => None,
    }
}

impl Change {
    pub open spec fn view(&self) -> ChangeView {
        ChangeView { code: self.code@, path: self.path@ }
    }
}

impl Commit {
    pub open spec fn view(&self) -> CommitView {
        CommitView { hash: self.hash@, subject: self.subject@, time: self.time }
    }
}

impl Snapshot {
    /// The branch and how it stands to its upstream.
    pub open spec fn head(&self) -> HeadView {
        HeadView {
            branch: text_of(self.branch),
            ahead: self.ahead,
            behind: self.behind,
            upstream: text_of(self.upstream),
        }
    }

    /// The changes that are listed.
    pub open spec fn listed(&self) -> Seq<ChangeView> {
        Seq::new(self.changes@.len(), |i: int| self.changes@[i].view())
    }

    /// The commits that are listed.
    pub open spec fn history(&self) -> Seq<CommitView> {
        history(self.log@)
    }
}

/// The contents of a list of commits.
pub open spec fn history(log: Seq<Commit>) -> Seq<CommitView> {
    Seq::new(log.len(), |i: int| log[i].view())
}

/// Something is in the index for a change with this code.
pub open spec fn is_staged(code: Seq<char>) -> bool {
    code.len() > 0 && code[0] != ' ' && code[0] != '?'
}

impl Change {
    /// Staged, as in: something is in the index for it.
    pub fn staged(&self) -> (r: bool)
        ensures
            r == is_staged(self.code@),
    {
        if self.code.as_str().unicode_len() == 0 {
            return false;
        }
        let x: char = self.code.as_str().get_char(0);
        x != ' ' && x != '?'
    }
}

// ---------------------------------------------------------------------------
// The header line.

/// The header without what git says of a branch that has no commit yet.
pub open spec fn without_notice(head: Seq<char>) -> Seq<char> {
    match strip_prefix(head, "No commits yet on "@) {
        Some(rest) => rest,
        None => match strip_prefix(head, "Initial commit on "@) {
            Some(rest) => rest,
            None => head,
        },
    }
}

/// The count that follows a word, or nothing when it is no number.
pub open spec fn count_or_zero(s: Seq<char>) -> u32 {
    match unsigned(s, u32::MAX as nat) {
        Some(n) => n as u32,
        None => 0,
    }
}

/// One of the counts between the brackets, applied to what was known before.
pub open spec fn with_count(head: HeadView, part: Seq<char>) -> HeadView {
    match strip_prefix(part, "ahead "@) {
        Some(n) => HeadView { ahead: count_or_zero(n), ..head },
        None => match strip_prefix(part, "behind "@) {
            Some(n) => HeadView { behind: count_or_zero(n), ..head },
            None => head,
        },
    }
}

/// All the counts, first to last.
pub open spec fn with_counts(head: HeadView, parts: Seq<Seq<char>>) -> HeadView
    decreases parts.len(),
{
    if parts.len() == 0 {
        head
    } else {
        with_count(with_counts(head, parts.drop_last()), parts.last())
    }
}

/// The names and the counts of a header: `main...origin/main` and
/// `ahead 1, behind 2`.
pub open spec fn names_and_counts(head: Seq<char>) -> (Seq<char>, Seq<char>) {
    match split_once(head, " ["@) {
        Some((names, counts)) => (names, trim_end_of(counts, ']')),
        None => (head, Seq::empty()),
    }
}

/// The local branch and its upstream.
pub open spec fn local_and_upstream(names: Seq<char>) -> (Seq<char>, Option<Seq<char>>) {
    match split_once(names, "..."@) {
        Some((local, upstream)) => (local, Some(upstream)),
        None => (names, None),
    }
}

/// What is known after a header line, given what was known before it.
pub open spec fn with_header(before: HeadView, line: Seq<char>) -> HeadView {
    let (names, counts) = names_and_counts(without_notice(line));
    let (local, upstream) = local_and_upstream(names);
    let branch = if occurs_at(local, "HEAD (no branch)"@, 0) {
        before.branch
    } else {
        Some(local)
    };
    with_counts(HeadView { branch, upstream, ..before }, split_all(counts, ", "@))
}

/// The header line: `main...origin/main [ahead 1, behind 2]`, or
/// `No commits yet on main`, or `HEAD (no branch)`.
pub fn parse_branch(head: &str, snap: &mut Snapshot)
    ensures
        final(snap).head() == with_header(old(snap).head(), head@),
        final(snap).root == old(snap).root,
        final(snap).changes == old(snap).changes,
        final(snap).changes_total == old(snap).changes_total,
        final(snap).log == old(snap).log,
{
    let all = chars(head);
    let line: &[char] = match after_prefix(all.as_slice(), chars("No commits yet on ").as_slice()) {
        Some(rest) => rest,
        None => match after_prefix(all.as_slice(), chars("Initial commit on ").as_slice()) {
            Some(rest) => rest,
            None => all.as_slice(),
        },
    };
    assert(line@ == without_notice(head@));
    let empty: [char; 0] = [];
    let (names, counts): (&[char], &[char]) = match cut(line, chars(" [").as_slice()) {
        Some((n, c)) => (n, without_end(c, ']')),
        None => (line, &empty),
    };
    assert(empty@ =~= Seq::<char>::empty());
    assert((names@, counts@) == names_and_counts(line@));
    let (local, upstream): (&[char], Option<String>) = match cut(names, chars("...").as_slice()) {
        Some((l, u)) => (l, Some(spell(u))),
        None => (names, None),
    };
    let detached: bool = after_prefix(local, chars("HEAD (no branch)").as_slice()).is_some();
    if !detached {
        snap.branch = Some(spell(local));
    }
    snap.upstream = upstream;
    let comma = chars(", ");
    proof {
        reveal_strlit(", ");
    }
    let parts = split(counts, comma.as_slice());
    let ghost start = snap.head();
    assert(pieces(parts@) == split_all(counts@, ", "@));
    let mut i: usize = 0;
    while i < parts.len()
        invariant
            i <= parts@.len(),
            snap.head() == with_counts(start, pieces(parts@).take(i as int)),
            snap.root == old(snap).root,
            snap.changes == old(snap).changes,
            snap.changes_total == old(snap).changes_total,
            snap.log == old(snap).log,
        decreases parts@.len() - i,
    {
        let part: &[char] = parts[i].as_slice();
        assert(pieces(parts@).take(i + 1).drop_last() =~= pieces(parts@).take(i as int));
        assert(pieces(parts@).take(i + 1).last() == part@);
        if let Some(n) = after_prefix(part, chars("ahead ").as_slice()) {
            snap.ahead = count(n);
        } else if let Some(n) = after_prefix(part, chars("behind ").as_slice()) {
            snap.behind = count(n);
        }
        i += 1;
    }
    assert(pieces(parts@).take(i as int) =~= pieces(parts@));
}

/// The count that follows a word, or nothing when it is no number.
fn count(s: &[char]) -> (r: u32)
    ensures
        r == count_or_zero(s@),
{
    match parse_unsigned(s, u32::MAX as u64) {
        Some(n) => n as u32,
        None => 0,
    }
}

// ---------------------------------------------------------------------------
// The status.

/// What one entry of a status stands for.
pub enum Record {
    Head(Seq<char>),
    Change(ChangeView),
}

/// The entries of a status: what stands between the NULs, the empty pieces
/// left out.
pub open spec fn entries(out: Seq<char>) -> Seq<Seq<char>> {
    nonempty(split_all(out, seq!['\0']))
}

/// The pieces that hold anything.
pub open spec fn nonempty(parts: Seq<Seq<char>>) -> Seq<Seq<char>>
    decreases parts.len(),
{
    if parts.len() == 0 {
        Seq::empty()
    } else if parts.last().len() == 0 {
        nonempty(parts.drop_last())
    } else {
        nonempty(parts.drop_last()).push(parts.last())
    }
}

/// The change an entry spells: two bytes of code, one byte between, the path.
pub open spec fn change_of(entry: Seq<char>) -> ChangeView {
    ChangeView {
        code: entry.take(chars_in(entry, 2)->0 as int),
        path: entry.skip(chars_in(entry, 3)->0 as int),
    }
}

/// One column of a code marks a rename or a copy.
pub open spec fn marks_move(c: char) -> bool {
    c == 'R' || c == 'C'
}

/// The code of a rename or a copy, in the index or in the work tree. It
/// carries the old path as one more entry.
pub open spec fn moved(code: Seq<char>) -> bool {
    (code.len() > 0 && marks_move(code[0])) || (code.len() > 1 && marks_move(code[1]))
}

/// How many entries a change takes.
pub open spec fn taken(entry: Seq<char>, left: nat) -> nat {
    if moved(change_of(entry).code) && left >= 2 {
        2
    } else {
        1
    }
}

/// What the entries stand for, first to last. An entry too short to hold a
/// code and a path stands for nothing.
pub open spec fn records(es: Seq<Seq<char>>) -> Seq<Record>
    decreases es.len(),
{
    if es.len() == 0 {
        Seq::empty()
    } else {
        match strip_prefix(es[0], "## "@) {
            Some(head) => seq![Record::Head(head)] + records(es.skip(1)),
            None => if byte_len(es[0]) < 4 {
                records(es.skip(1))
            } else {
                seq![Record::Change(change_of(es[0]))] + records(
                    es.skip(taken(es[0], es.len()) as int),
                )
            },
        }
    }
}

/// Every entry that is read as a change can be cut behind its code and behind
/// the byte after it: neither cut goes through a character.
pub open spec fn sliceable(es: Seq<Seq<char>>) -> bool
    decreases es.len(),
{
    if es.len() == 0 {
        true
    } else if strip_prefix(es[0], "## "@) is Some || byte_len(es[0]) < 4 {
        sliceable(es.skip(1))
    } else {
        &&& chars_in(es[0], 2) is Some
        &&& chars_in(es[0], 3) is Some
        &&& sliceable(es.skip(taken(es[0], es.len()) as int))
    }
}

/// The changes among the records.
pub open spec fn changes_of(rs: Seq<Record>) -> Seq<ChangeView>
    decreases rs.len(),
{
    if rs.len() == 0 {
        Seq::empty()
    } else {
        match rs.last() {
            Record::Change(c) => changes_of(rs.drop_last()).push(c),
            Record::Head(_) => changes_of(rs.drop_last()),
        }
    }
}

/// What the headers among the records say, first to last.
pub open spec fn head_of(rs: Seq<Record>) -> HeadView
    decreases rs.len(),
{
    if rs.len() == 0 {
        HeadView { branch: None, ahead: 0, behind: 0, upstream: None }
    } else {
        match rs.last() {
            Record::Head(line) => with_header(head_of(rs.drop_last()), line),
            Record::Change(_) => head_of(rs.drop_last()),
        }
    }
}

/// The first `n` elements, or all of them when there are fewer.
pub open spec fn at_most<T>(s: Seq<T>, n: nat) -> Seq<T> {
    if s.len() <= n {
        s
    } else {
        s.take(n as int)
    }
}

/// The entries of a status, as vectors.
fn status_entries(out: &str) -> (r: Vec<Vec<char>>)
    ensures
        pieces(r@) == entries(out@),
{
    let all = chars(out);
    let nul: [char; 1] = ['\0'];
    assert(nul@ =~= seq!['\0']);
    let parts = split(all.as_slice(), &nul);
    let mut kept: Vec<Vec<char>> = Vec::new();
    let mut i: usize = 0;
    assert(pieces(kept@) =~= nonempty(pieces(parts@).take(0)));
    while i < parts.len()
        invariant
            i <= parts@.len(),
            pieces(kept@) == nonempty(pieces(parts@).take(i as int)),
        decreases parts@.len() - i,
    {
        let ghost before = kept@;
        assert(pieces(parts@).take(i + 1).drop_last() =~= pieces(parts@).take(i as int));
        assert(pieces(parts@).take(i + 1).last() == parts@[i as int]@);
        if parts[i].len() > 0 {
            kept.push(crate::scan::copy(parts[i].as_slice()));
            assert(pieces(kept@) =~= pieces(before).push(parts@[i as int]@));
        }
        i += 1;
    }
    assert(pieces(parts@).take(i as int) =~= pieces(parts@));
    kept
}

/// Whether one of the two columns of an entry's code marks a rename or a copy.
fn is_moved(entry: &[char]) -> (r: bool)
    requires
        chars_in(entry@, 2) is Some,
    ensures
        r == moved(change_of(entry@).code),
{
    match chars_within(entry, 2) {
        Some(k) => (k > 0 && (entry[0] == 'R' || entry[0] == 'C')) || (k > 1 && (entry[1] == 'R'
            || entry[1] == 'C')),
        None => false,
    }
}

/// Whether `parse_status` can read this output.
pub fn can_parse_status(out: &str) -> (r: bool)
    ensures
        r == sliceable(entries(out@)),
{
    let es = status_entries(out);
    let mark = chars("## ");
    let mut i: usize = 0;
    assert(pieces(es@).skip(0) =~= pieces(es@));
    while i < es.len()
        invariant
            i <= es@.len(),
            mark@ == "## "@,
            pieces(es@) == entries(out@),
            sliceable(pieces(es@).skip(i as int)) == sliceable(entries(out@)),
        decreases es@.len() - i,
    {
        let e: &[char] = es[i].as_slice();
        let ghost rest = pieces(es@).skip(i as int);
        assert(rest[0] == e@);
        assert(rest.skip(1) =~= pieces(es@).skip(i + 1));
        if after_prefix(e, mark.as_slice()).is_some() || !at_least_bytes(e, 4) {
            i += 1;
        } else {
            if chars_within(e, 2).is_none() || chars_within(e, 3).is_none() {
                return false;
            }
            if is_moved(e) && es.len() - i >= 2 {
                assert(rest.skip(2) =~= pieces(es@).skip(i + 2));
                i += 2;
            } else {
                i += 1;
            }
        }
    }
    true
}

proof fn lemma_records_push(done: Seq<Record>, r: Record, rest: Seq<Record>)
    ensures
        done + (seq![r] + rest) == done.push(r) + rest,
        done.push(r).drop_last() == done,
{
    assert(done + (seq![r] + rest) =~= done.push(r) + rest);
    assert(done.push(r).drop_last() =~= done);
}

/// `git status --porcelain=v1 --branch -z`: a `## ` header, then one entry per
/// file, each ended by a NUL. A rename, in the index or in the work tree,
/// carries its old path as one more entry.
pub fn parse_status(out: &str) -> (r: Snapshot)
    requires
        sliceable(entries(out@)),
    ensures
        r.root is None,
        r.head() == head_of(records(entries(out@))),
        r.listed() == at_most(changes_of(records(entries(out@))), CHANGES_LIMIT as nat),
        r.changes_total == changes_of(records(entries(out@))).len(),
        r.history() == Seq::<CommitView>::empty(),
{
    let mut snap = Snapshot {
        root: None,
        branch: None,
        ahead: 0,
        behind: 0,
        upstream: None,
        changes: Vec::new(),
        changes_total: 0,
        log: Vec::new(),
    };
    let es = status_entries(out);
    let mark = chars("## ");
    let ghost all = records(entries(out@));
    let ghost mut done: Seq<Record> = Seq::empty();
    let mut i: usize = 0;
    proof {
        assert(pieces(es@).skip(0) =~= pieces(es@));
        assert(done + records(pieces(es@)) =~= all);
        assert(snap.listed() =~= at_most(changes_of(done), CHANGES_LIMIT as nat));
    }
    while i < es.len()
        invariant
            i <= es@.len(),
            mark@ == "## "@,
            sliceable(pieces(es@).skip(i as int)),
            done + records(pieces(es@).skip(i as int)) == all,
            snap.root is None,
            snap.head() == head_of(done),
            snap.listed() == at_most(changes_of(done), CHANGES_LIMIT as nat),
            snap.changes_total == changes_of(done).len(),
            snap.changes_total <= i,
            snap.log@.len() == 0,
        decreases es@.len() - i,
    {
        let e: &[char] = es[i].as_slice();
        let ghost rest = pieces(es@).skip(i as int);
        assert(rest[0] == e@);
        assert(rest.skip(1) =~= pieces(es@).skip(i + 1));
        if let Some(head) = after_prefix(e, mark.as_slice()) {
            let ghost before = snap;
            parse_branch(spell(head).as_str(), &mut snap);
            assert(snap.listed() =~= before.listed());
            proof {
                let r = Record::Head(head@);
                lemma_records_push(done, r, records(rest.skip(1)));
                done = done.push(r);
            }
            i += 1;
        } else if !at_least_bytes(e, 4) {
            i += 1;
        } else {
            let code_end: usize = match chars_within(e, 2) {
                Some(k) => k,
                None => 0,
            };
            let path_start: usize = match chars_within(e, 3) {
                Some(k) => k,
                None => 0,
            };
            let code = slice_subrange(e, 0, code_end);
            let path = slice_subrange(e, path_start, e.len());
            assert(code@ =~= change_of(e@).code);
            assert(path@ =~= change_of(e@).path);
            let ghost r = Record::Change(change_of(e@));
            let ghost step = taken(e@, rest.len());
            let skip: usize = if is_moved(e) && es.len() - i >= 2 {
                2
            } else {
                1
            };
            assert(rest.skip(step as int) =~= pieces(es@).skip(i + step));
            proof {
                lemma_records_push(done, r, records(rest.skip(step as int)));
            }
            let ghost before = snap;
            let ghost known = changes_of(done);
            snap.changes_total += 1;
            if snap.changes.len() < CHANGES_LIMIT {
                snap.changes.push(Change { code: spell(code), path: spell(path) });
                assert(snap.listed() =~= before.listed().push(change_of(e@)));
                assert(snap.listed() =~= at_most(known.push(change_of(e@)), CHANGES_LIMIT as nat));
            } else {
                assert(snap.listed() =~= before.listed());
                assert(known.push(change_of(e@)).take(CHANGES_LIMIT as int) =~= known.take(
                    CHANGES_LIMIT as int,
                ));
                assert(snap.listed() =~= at_most(known.push(change_of(e@)), CHANGES_LIMIT as nat));
            }
            proof {
                done = done.push(r);
            }
            i += skip;
        }
    }
    proof {
        assert(done + records(pieces(es@).skip(i as int)) =~= done);
        assert(snap.history() =~= Seq::<CommitView>::empty());
    }
    snap
}

// ---------------------------------------------------------------------------
// The log.

/// The commit one line of the log spells: hash, subject and time, each behind
/// a separator. Fewer fields make no commit; a time that is no number is 0.
pub open spec fn commit_of(line: Seq<char>) -> Option<CommitView> {
    let f = split_all(line, seq![SEP]);
    if f.len() < 3 {
        None
    } else {
        Some(
            CommitView {
                hash: f[0],
                subject: f[1],
                time: match unsigned(f[2], u64::MAX as nat) {
                    Some(n) => n as u64,
                    None => 0,
                },
            },
        )
    }
}

/// The commits the lines spell, first to last.
pub open spec fn commits(ls: Seq<Seq<char>>) -> Seq<CommitView>
    decreases ls.len(),
{
    if ls.len() == 0 {
        Seq::empty()
    } else {
        match commit_of(ls.last()) {
            Some(c) => commits(ls.drop_last()).push(c),
            None => commits(ls.drop_last()),
        }
    }
}

/// The commits of a log.
pub fn parse_log(out: &str) -> (r: Vec<Commit>)
    ensures
        history(r@) == commits(lines(out@)),
{
    let all = chars(out);
    let ls = split_lines(all.as_slice());
    let sep: [char; 1] = [SEP];
    assert(sep@ =~= seq![SEP]);
    let mut log: Vec<Commit> = Vec::new();
    let mut i: usize = 0;
    assert(history(log@) =~= commits(pieces(ls@).take(0)));
    while i < ls.len()
        invariant
            i <= ls@.len(),
            sep@ == seq![SEP],
            history(log@) == commits(pieces(ls@).take(i as int)),
        decreases ls@.len() - i,
    {
        let f = split(ls[i].as_slice(), &sep);
        let ghost fields = split_all(ls@[i as int]@, seq![SEP]);
        let ghost before = log@;
        assert(pieces(ls@).take(i + 1).drop_last() =~= pieces(ls@).take(i as int));
        assert(pieces(ls@).take(i + 1).last() == ls@[i as int]@);
        assert(pieces(f@).len() == f@.len());
        if f.len() >= 3 {
            let time: u64 = match parse_unsigned(f[2].as_slice(), u64::MAX) {
                Some(n) => n,
                None => 0,
            };
            assert(pieces(f@)[0] == f@[0]@ && pieces(f@)[1] == f@[1]@ && pieces(f@)[2] == f@[2]@);
            let c = Commit { hash: spell(f[0].as_slice()), subject: spell(f[1].as_slice()), time };
            assert(commit_of(ls@[i as int]@) == Some(c.view()));
            log.push(c);
            assert(history(log@) =~= history(before).push(c.view()));
        }
        i += 1;
    }
    assert(pieces(ls@).take(i as int) =~= pieces(ls@));
    log
}

// ---------------------------------------------------------------------------
// Asking git.

/// One question put to git.
#[derive(Clone, Copy, Debug, PartialEq, Eq, Structural)]
pub enum Query {
    /// The branch and the changed files.
    Status,
    /// Where the top of the work tree is.
    TopLevel,
    /// The last commits.
    Log,
}

/// What came of one question.
#[derive(Clone, Debug, PartialEq, Eq)]
pub enum Reply {
    Output(String),
    /// Git ran and refused: not a repository, no HEAD.
    Refused,
    /// Git is not there to ask.
    Missing,
}

/// What to do next.
#[derive(Clone, Debug, PartialEq, Eq)]
pub enum Step {
    Ask(Query),
    Done(State),
}

/// What came of one question, as plain text.
pub enum ReplyView {
    Output(Seq<char>),
    Refused,
    Missing,
}

/// What git says about one repository, as plain text.
pub struct SnapshotView {
    pub root: Option<Seq<char>>,
    pub head: HeadView,
    pub changes: Seq<ChangeView>,
    pub total: nat,
    pub log: Seq<CommitView>,
}

/// What a read found, as plain text.
pub enum StateView {
    Repo(SnapshotView),
    NotARepo,
    NoGit,
}

/// What to do next, as plain text.
pub enum StepView {
    Ask(Query),
    Done(StateView),
}

impl Reply {
    pub open spec fn view(&self) -> ReplyView {
        match *self {
            Reply::Output(s) => ReplyView::Output(s@),
            Reply::Refused => ReplyView::Refused,
            Reply::Missing => ReplyView::Missing,
        }
    }
}

impl Snapshot {
    pub open spec fn view(&self) -> SnapshotView {
        SnapshotView {
            root: text_of(self.root),
            head: self.head(),
            changes: self.listed(),
            total: self.changes_total as nat,
            log: self.history(),
        }
    }
}

impl State {
    pub open spec fn view(&self) -> StateView {
        match *self {
            State::Repo(s) => StateView::Repo(s.view()),
            State::NotARepo => StateView::NotARepo,
            State::NoGit => StateView::NoGit,
        }
    }
}

impl Step {
    pub open spec fn view(&self) -> StepView {
        match *self {
            Step::Ask(q) => StepView::Ask(q),
            Step::Done(s) => StepView::Done(s.view()),
        }
    }
}

/// The contents of a list of replies.
pub open spec fn heard(replies: Seq<Reply>) -> Seq<ReplyView> {
    Seq::new(replies.len(), |i: int| replies[i].view())
}

/// The contents of a list of strings.
pub open spec fn texts(v: Seq<String>) -> Seq<Seq<char>> {
    Seq::new(v.len(), |i: int| v[i]@)
}

/// The arguments of one question, behind the directory. Paths come back as
/// they are, not octal-escaped.
pub open spec fn arguments(q: Query) -> Seq<Seq<char>> {
    let quoting = seq!["-c"@, "core.quotepath=off"@];
    match q {
        Query::Status => quoting + seq!["status"@, "--porcelain=v1"@, "--branch"@, "-z"@],
        Query::TopLevel => quoting + seq!["rev-parse"@, "--show-toplevel"@],
        Query::Log => quoting + seq!["log"@, "-n"@ + decimal(LOG_LIMIT as nat), log_format()],
    }
}

/// The format a line of the log comes in: hash, subject and committer time.
pub open spec fn log_format() -> Seq<char> {
    "--format=%h"@.push(SEP) + "%s"@.push(SEP) + "%ct"@
}

impl Query {
    /// The arguments of this question.
    pub fn args(&self) -> (r: Vec<String>)
        ensures
            texts(r@) == arguments(*self),
    {
        let mut v: Vec<String> = Vec::new();
        v.push("-c".to_owned());
        v.push("core.quotepath=off".to_owned());
        match *self {
            Query::Status => {
                v.push("status".to_owned());
                v.push("--porcelain=v1".to_owned());
                v.push("--branch".to_owned());
                v.push("-z".to_owned());
            },
            Query::TopLevel => {
                v.push("rev-parse".to_owned());
                v.push("--show-toplevel".to_owned());
            },
            Query::Log => {
                v.push("log".to_owned());
                v.push(concat("-n", number(LOG_LIMIT).as_str()));
                let mut format = "--format=%h".to_owned();
                format.push(SEP);
                let mut subject = "%s".to_owned();
                subject.push(SEP);
                format.append(subject.as_str());
                format.append("%ct");
                v.push(format);
            },
        }
        assert(texts(v@) =~= arguments(*self));
        v
    }
}

/// The text that bytes stand for when what is not UTF-8 in them is replaced.
pub uninterp spec fn lossy_text(bytes: Seq<u8>) -> Seq<char>;

/// `String::from_utf8_lossy`, made into a string of its own. The contract
/// gives the result a name, and says that valid UTF-8 comes out as the
/// characters it encodes; how invalid bytes are replaced is left unsaid.
#[verifier::external_body]
fn decode_lossy(bytes: &[u8]) -> (r: String)
    ensures
        r@ == lossy_text(bytes@),
        valid_utf8(bytes@) ==> r@ == decode_utf8(bytes@),
{
    String::from_utf8_lossy(bytes).into_owned()
}

/// What a finished run of git amounts to: `None` when it could not be started,
/// otherwise whether it succeeded and what it printed.
pub fn reply(run: Option<(bool, &[u8])>) -> (r: Reply)
    ensures
        r.view() == match run {
            None => ReplyView::Missing,
            Some((false, _)) => ReplyView::Refused,
            Some((true, out)) => ReplyView::Output(lossy_text(out@)),
        },
        run matches Some((true, out)) ==> valid_utf8(out@) ==> r.view() == ReplyView::Output(
            decode_utf8(out@),
        ),
{
    match run {
        None => Reply::Missing,
        Some((success, out)) => if success {
            Reply::Output(decode_lossy(out))
        } else {
            Reply::Refused
        },
    }
}

/// The repository that three replies describe: the status, the top of the work
/// tree, the log.
///
/// An empty repository has no HEAD, and git refuses to print its log. That is
/// a repository with no history, not an error.
pub open spec fn repository(
    status: Seq<char>,
    top: ReplyView,
    log: ReplyView,
) -> SnapshotView {
    let rs = records(entries(status));
    SnapshotView {
        root: match top {
            ReplyView::Output(s) => Some(trim(s)),
            _ => None,
        },
        head: head_of(rs),
        changes: at_most(changes_of(rs), CHANGES_LIMIT as nat),
        total: changes_of(rs).len(),
        log: match log {
            ReplyView::Output(s) => commits(lines(s)),
            _ => Seq::empty(),
        },
    }
}

/// What to do after the replies so far.
pub open spec fn next_step(replies: Seq<ReplyView>) -> StepView {
    if replies.len() == 0 {
        StepView::Ask(Query::Status)
    } else {
        match replies[0] {
            ReplyView::Missing => StepView::Done(StateView::NoGit),
            ReplyView::Refused => StepView::Done(StateView::NotARepo),
            ReplyView::Output(status) => if replies.len() == 1 {
                StepView::Ask(Query::TopLevel)
            } else if replies.len() == 2 {
                StepView::Ask(Query::Log)
            } else {
                StepView::Done(StateView::Repo(repository(status, replies[1], replies[2])))
            },
        }
    }
}

/// Read the repository a directory sits in: given what git has answered so
/// far, in the order it was asked, either the next question or what was found.
pub fn read(replies: &Vec<Reply>) -> (r: Step)
    requires
        replies@.len() >= 3 ==> (heard(replies@)[0] matches ReplyView::Output(s) ==> sliceable(
            entries(s),
        )),
    ensures
        r.view() == next_step(heard(replies@)),
{
    if replies.len() == 0 {
        return Step::Ask(Query::Status);
    }
    match &replies[0] {
        Reply::Missing => Step::Done(State::NoGit),
        Reply::Refused => Step::Done(State::NotARepo),
        Reply::Output(status) => {
            if replies.len() == 1 {
                return Step::Ask(Query::TopLevel);
            }
            if replies.len() == 2 {
                return Step::Ask(Query::Log);
            }
            let mut snap = parse_status(status.as_str());
            let ghost parsed = snap;
            if let Reply::Output(top) = &replies[1] {
                let all = chars(top.as_str());
                snap.root = Some(spell(trimmed(all.as_slice())));
            }
            if let Reply::Output(log) = &replies[2] {
                snap.log = parse_log(log.as_str());
            }
            assert(snap.listed() =~= parsed.listed());
            Step::Done(State::Repo(snap))
        },
    }
}

} // verus!
