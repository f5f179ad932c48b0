//! What holds of reading git's output as a whole: what git prints is read back
//! as what it meant.

use vstd::prelude::*;

use crate::git::{arguments, at_most, change_of, changes_of, commit_of, commits, count_or_zero,
    entries, head_of, local_and_upstream, moved, is_staged, next_step, nonempty, records,
    repository, sliceable, taken, with_counts, with_header, without_notice, ChangeView, CommitView,
    HeadView, Query, Record, ReplyView, Snapshot, StateView, StepView, CHANGES_LIMIT, SEP};
use crate::scan::{byte_len, chars_in, digits_value, find, is_digit, lemma_find_first, lines,
    occurs_at, split_all, split_once, strip_prefix, trim, trim_end, trim_end_of, trim_start,
    unsigned, utf8_width, white_space};
use crate::text::{decimal, digit_char};

verus! {

// ---------------------------------------------------------------------------
// Splitting.

/// A text without the first character of a pattern is cut off whole by the
/// pattern that follows it.
proof fn lemma_cut_at(a: Seq<char>, p: Seq<char>, rest: Seq<char>)
    requires
        p.len() > 0,
        forall|i: int| 0 <= i < a.len() ==> a[i] != p[0],
    ensures
        split_once(a + p + rest, p) == Some((a, rest)),
{
    let s = a + p + rest;
    assert(s.subrange(a.len() as int, (a.len() + p.len()) as int) =~= p);
    assert forall|j: int| 0 <= j < a.len() implies !occurs_at(s, p, j) by {
        if occurs_at(s, p, j) {
            assert(s.subrange(j, j + p.len())[0] == s[j]);
        }
    }
    lemma_find_first(s, p, 0, a.len());
    assert(s.take(a.len() as int) =~= a);
    assert(s.skip((a.len() + p.len()) as int) =~= rest);
}

/// A text without the first character of a pattern is not cut by it.
proof fn lemma_no_cut(s: Seq<char>, p: Seq<char>)
    requires
        p.len() > 0,
        forall|i: int| 0 <= i < s.len() ==> s[i] != p[0],
    ensures
        split_once(s, p) is None,
{
    crate::scan::lemma_find(s, p, 0);
    if let Some(i) = find(s, p, 0) {
        assert(s.subrange(i as int, (i + p.len()) as int)[0] == s[i as int]);
    }
}

/// Dropping the empty pieces goes piece by piece from the front too.
proof fn lemma_nonempty_front(x: Seq<char>, rest: Seq<Seq<char>>)
    ensures
        nonempty(seq![x] + rest) == if x.len() == 0 {
            nonempty(rest)
        } else {
            seq![x] + nonempty(rest)
        },
    decreases rest.len(),
{
    let s = seq![x] + rest;
    if rest.len() == 0 {
        assert(s.drop_last() =~= Seq::<Seq<char>>::empty());
        assert(s.last() == x);
        reveal_with_fuel(nonempty, 2);
        assert(seq![x] + nonempty(rest) =~= seq![x]);
        assert(nonempty(s.drop_last()).push(x) =~= seq![x]);
    } else {
        lemma_nonempty_front(x, rest.drop_last());
        assert(s.drop_last() =~= seq![x] + rest.drop_last());
        assert(s.last() == rest.last());
        if x.len() > 0 && rest.last().len() > 0 {
            assert((seq![x] + nonempty(rest.drop_last())).push(rest.last()) =~= seq![x]
                + nonempty(rest.drop_last()).push(rest.last()));
        }
    }
}

/// Texts, each ended by a NUL.
pub open spec fn terminated(ps: Seq<Seq<char>>) -> Seq<char>
    decreases ps.len(),
{
    if ps.len() == 0 {
        Seq::empty()
    } else {
        ps[0] + seq!['\0'] + terminated(ps.skip(1))
    }
}

/// A text that a NUL can end.
pub open spec fn unbroken(s: Seq<char>) -> bool {
    forall|i: int| 0 <= i < s.len() ==> s[i] != '\0'
}

/// A text that can stand between two NULs.
pub open spec fn plain(s: Seq<char>) -> bool {
    s.len() > 0 && unbroken(s)
}

/// Texts that are ended by NULs are the entries again.
proof fn lemma_entries_of_terminated(ps: Seq<Seq<char>>)
    requires
        forall|i: int| 0 <= i < ps.len() ==> plain(#[trigger] ps[i]),
    ensures
        entries(terminated(ps)) == ps,
    decreases ps.len(),
{
    let nul = seq!['\0'];
    if ps.len() == 0 {
        let empty = Seq::<char>::empty();
        lemma_no_cut(empty, nul);
        assert(split_all(empty, nul) =~= seq![empty]);
        assert(seq![empty] =~= seq![empty] + Seq::<Seq<char>>::empty());
        lemma_nonempty_front(empty, Seq::empty());
        assert(ps =~= Seq::<Seq<char>>::empty());
    } else {
        let rest = ps.skip(1);
        assert forall|i: int| 0 <= i < rest.len() implies plain(#[trigger] rest[i]) by {
            assert(rest[i] == ps[i + 1]);
        }
        lemma_entries_of_terminated(rest);
        assert(plain(ps[0]));
        lemma_cut_at(ps[0], nul, terminated(rest));
        lemma_nonempty_front(ps[0], split_all(terminated(rest), nul));
        assert(seq![ps[0]] + rest =~= ps);
    }
}

// ---------------------------------------------------------------------------
// The status.

/// One file of a status as git means it.
pub struct File {
    pub code: Seq<char>,
    pub path: Seq<char>,
    /// The path it came from, of a rename or a copy.
    pub from: Option<Seq<char>>,
}

/// A file that git can print: a code of two one-byte characters which is not
/// the mark of a header, and an old path exactly where the code tells of one.
pub open spec fn printable(f: File) -> bool {
    &&& f.code.len() == 2
    &&& forall|i: int| 0 <= i < 2 ==> utf8_width(#[trigger] f.code[i]) == 1 && f.code[i] != '\0'
    &&& !(f.code[0] == '#' && f.code[1] == '#')
    &&& plain(f.path)
    &&& (f.from is Some) == moved(f.code)
    &&& f.from matches Some(old_path) ==> plain(old_path)
}

/// The entries one file takes.
pub open spec fn file_entries(f: File) -> Seq<Seq<char>> {
    let first = f.code + seq![' '] + f.path;
    match f.from {
        Some(old_path) => seq![first, old_path],
        None => seq![first],
    }
}

/// One record of a status as git means it: a header, or a file.
pub enum Piece {
    Header(Seq<char>),
    File(File),
}

/// A record that git can print.
pub open spec fn complete(p: Piece) -> bool {
    match p {
        Piece::Header(head) => unbroken(head),
        Piece::File(f) => printable(f),
    }
}

/// Records that git can print.
pub open spec fn all_complete(ps: Seq<Piece>) -> bool {
    forall|i: int| 0 <= i < ps.len() ==> complete(#[trigger] ps[i])
}

/// The entries one record takes.
pub open spec fn piece_entries(p: Piece) -> Seq<Seq<char>> {
    match p {
        Piece::Header(head) => seq!["## "@ + head],
        Piece::File(f) => file_entries(f),
    }
}

/// The entries of a run of records.
pub open spec fn run_entries(ps: Seq<Piece>) -> Seq<Seq<char>>
    decreases ps.len(),
{
    if ps.len() == 0 {
        Seq::empty()
    } else {
        piece_entries(ps[0]) + run_entries(ps.skip(1))
    }
}

/// What git prints for a run of records.
pub open spec fn printed(ps: Seq<Piece>) -> Seq<char> {
    terminated(run_entries(ps))
}

/// What a record is read back as. The old path of a file is not kept.
pub open spec fn read_back(p: Piece) -> Record {
    match p {
        Piece::Header(head) => Record::Head(head),
        Piece::File(f) => Record::Change(ChangeView { code: f.code, path: f.path }),
    }
}

/// What a run of records is read back as.
pub open spec fn all_read_back(ps: Seq<Piece>) -> Seq<Record> {
    Seq::new(ps.len(), |i: int| read_back(ps[i]))
}

/// The records of a status: a header, and the files behind it.
pub open spec fn status_pieces(head: Seq<char>, fs: Seq<File>) -> Seq<Piece> {
    seq![Piece::Header(head)] + Seq::new(fs.len(), |i: int| Piece::File(fs[i]))
}

/// What git prints for a header and files.
pub open spec fn printed_status(head: Seq<char>, fs: Seq<File>) -> Seq<char> {
    printed(status_pieces(head, fs))
}

proof fn lemma_byte_len_at_least(s: Seq<char>)
    ensures
        byte_len(s) >= s.len(),
    decreases s.len(),
{
    if s.len() > 0 {
        lemma_byte_len_at_least(s.drop_last());
    }
}

proof fn lemma_file_entry(f: File)
    requires
        printable(f),
    ensures
        ({
            let e = file_entries(f)[0];
            &&& plain(e)
            &&& strip_prefix(e, "## "@) is None
            &&& byte_len(e) >= 4
            &&& chars_in(e, 2) == Some(2nat)
            &&& chars_in(e, 3) == Some(3nat)
            &&& change_of(e) == ChangeView { code: f.code, path: f.path }
        }),
{
    let e = f.code + seq![' '] + f.path;
    assert(file_entries(f)[0] == e);
    reveal_strlit("## ");
    assert(e[0] == f.code[0] && e[1] == f.code[1] && e[2] == ' ');
    if occurs_at(e, "## "@, 0) {
        let m = e.subrange(0, 3);
        assert(m[0] == '#' && m[1] == '#');
    }
    lemma_byte_len_at_least(e);
    let e1 = e.skip(1);
    let e2 = e1.skip(1);
    let e3 = e2.skip(1);
    assert(e1[0] == e[1] && e2[0] == e[2]);
    assert(utf8_width(e[0]) == 1 && utf8_width(e[1]) == 1 && utf8_width(e[2]) == 1);
    assert(chars_in(e3, 0) == Some(0nat));
    assert(chars_in(e2, 0) == Some(0nat));
    assert(chars_in(e2, 1) == Some(1nat));
    assert(chars_in(e1, 1) == Some(1nat));
    assert(chars_in(e1, 2) == Some(2nat));
    assert(chars_in(e, 2) == Some(2nat));
    assert(chars_in(e, 3) == Some(3nat));
    assert(e.take(2) =~= f.code);
    assert(e.skip(3) =~= f.path);
    assert forall|i: int| 0 <= i < e.len() implies e[i] != '\0' by {
        if i < 2 {
            assert(e[i] == f.code[i]);
        } else if i > 2 {
            assert(e[i] == f.path[i - 3]);
        }
    }
}

proof fn lemma_header_entry(head: Seq<char>)
    requires
        unbroken(head),
    ensures
        plain("## "@ + head),
        strip_prefix("## "@ + head, "## "@) == Some(head),
{
    reveal_strlit("## ");
    let line = "## "@ + head;
    assert forall|k: int| 0 <= k < line.len() implies line[k] != '\0' by {
        if k < 3 {
            assert(line[k] == "## "@[k]);
        } else {
            assert(line[k] == head[k - 3]);
        }
    }
    assert(line.subrange(0, 3) =~= "## "@);
    assert(line.skip(3) =~= head);
}

/// The entries of a run of records stand for those records.
proof fn lemma_records_of_run(ps: Seq<Piece>)
    requires
        all_complete(ps),
    ensures
        records(run_entries(ps)) == all_read_back(ps),
        sliceable(run_entries(ps)),
        forall|i: int| 0 <= i < run_entries(ps).len() ==> plain(#[trigger] run_entries(ps)[i]),
    decreases ps.len(),
{
    if ps.len() == 0 {
        assert(all_read_back(ps) =~= Seq::<Record>::empty());
    } else {
        let p = ps[0];
        let rest = ps.skip(1);
        assert(complete(p));
        assert forall|i: int| 0 <= i < rest.len() implies complete(#[trigger] rest[i]) by {
            assert(rest[i] == ps[i + 1]);
        }
        lemma_records_of_run(rest);
        let own = piece_entries(p);
        let es = own + run_entries(rest);
        assert(run_entries(ps) == es);
        assert(es[0] == own[0]);
        assert(es.skip(own.len() as int) =~= run_entries(rest));
        match p {
            Piece::Header(head) => {
                lemma_header_entry(head);
            },
            Piece::File(f) => {
                lemma_file_entry(f);
                assert(taken(es[0], es.len()) == own.len());
            },
        }
        assert(all_read_back(ps) =~= seq![read_back(p)] + all_read_back(rest));
        assert forall|i: int| 0 <= i < es.len() implies plain(#[trigger] es[i]) by {
            if i < own.len() {
                assert(es[i] == own[i]);
            } else {
                assert(es[i] == run_entries(rest)[i - own.len()]);
            }
        }
    }
}

/// A status is read back as what git printed: the header, and every file once,
/// under its code and its new name, in the order git gave them.
pub proof fn law_status_is_read_back(head: Seq<char>, fs: Seq<File>)
    requires
        unbroken(head),
        forall|i: int| 0 <= i < fs.len() ==> printable(#[trigger] fs[i]),
    ensures
        sliceable(entries(printed_status(head, fs))),
        records(entries(printed_status(head, fs))) == all_read_back(status_pieces(head, fs)),
        changes_of(records(entries(printed_status(head, fs)))) == Seq::new(
            fs.len(),
            |i: int| ChangeView { code: fs[i].code, path: fs[i].path },
        ),
        head_of(records(entries(printed_status(head, fs)))) == with_header(
            HeadView { branch: None, ahead: 0, behind: 0, upstream: None },
            head,
        ),
{
    let ps = status_pieces(head, fs);
    assert forall|i: int| 0 <= i < ps.len() implies complete(#[trigger] ps[i]) by {
        if i > 0 {
            assert(printable(fs[i - 1]));
        }
    }
    lemma_records_of_run(ps);
    lemma_entries_of_terminated(run_entries(ps));
    lemma_changes_of_files(head, fs, fs.len() as int);
    assert(all_read_back(ps).take(ps.len() as int) =~= all_read_back(ps));
}

proof fn lemma_changes_of_files(head: Seq<char>, fs: Seq<File>, n: int)
    requires
        0 <= n <= fs.len(),
    ensures
        changes_of(all_read_back(status_pieces(head, fs)).take(n + 1)) == Seq::new(
            n as nat,
            |i: int| ChangeView { code: fs[i].code, path: fs[i].path },
        ),
        head_of(all_read_back(status_pieces(head, fs)).take(n + 1)) == with_header(
            HeadView { branch: None, ahead: 0, behind: 0, upstream: None },
            head,
        ),
    decreases n,
{
    let all = all_read_back(status_pieces(head, fs));
    let rs = all.take(n + 1);
    let want = Seq::new(n as nat, |i: int| ChangeView { code: fs[i].code, path: fs[i].path });
    assert(rs.last() == read_back(status_pieces(head, fs)[n]));
    if n == 0 {
        assert(rs.drop_last() =~= Seq::<Record>::empty());
        reveal_with_fuel(changes_of, 2);
        reveal_with_fuel(head_of, 2);
        assert(changes_of(rs) =~= want);
    } else {
        lemma_changes_of_files(head, fs, n - 1);
        assert(rs.drop_last() =~= all.take(n));
        assert(changes_of(rs) =~= want);
    }
}

proof fn lemma_run_entries_add(a: Seq<Piece>, b: Seq<Piece>)
    ensures
        run_entries(a + b) == run_entries(a) + run_entries(b),
    decreases a.len(),
{
    if a.len() == 0 {
        assert(a + b =~= b);
        assert(run_entries(a) + run_entries(b) =~= run_entries(b));
    } else {
        lemma_run_entries_add(a.skip(1), b);
        assert((a + b).skip(1) =~= a.skip(1) + b);
        assert(run_entries(a + b) =~= run_entries(a) + run_entries(b));
    }
}

proof fn lemma_terminated_add(x: Seq<Seq<char>>, y: Seq<Seq<char>>)
    ensures
        terminated(x + y) == terminated(x) + terminated(y),
    decreases x.len(),
{
    if x.len() == 0 {
        assert(x + y =~= y);
        assert(terminated(x) + terminated(y) =~= terminated(y));
    } else {
        lemma_terminated_add(x.skip(1), y);
        assert((x + y).skip(1) =~= x.skip(1) + y);
        assert(terminated(x + y) =~= terminated(x) + terminated(y));
    }
}

proof fn lemma_changes_add(x: Seq<Record>, y: Seq<Record>)
    ensures
        changes_of(x + y) == changes_of(x) + changes_of(y),
    decreases y.len(),
{
    if y.len() == 0 {
        assert(x + y =~= x);
        assert(changes_of(x) + changes_of(y) =~= changes_of(x));
    } else {
        lemma_changes_add(x, y.drop_last());
        assert((x + y).drop_last() =~= x + y.drop_last());
        assert((x + y).last() == y.last());
        assert(changes_of(x + y) =~= changes_of(x) + changes_of(y));
    }
}

/// A status made of two runs of complete records is read as the first run and
/// the second behind it. It has the changes of both, in that order, and what it
/// lists of them is what the runs list by themselves, cut to the limit again.
pub proof fn law_two_runs_are_read_one_after_the_other(a: Seq<Piece>, b: Seq<Piece>)
    requires
        all_complete(a),
        all_complete(b),
    ensures
        printed(a + b) == printed(a) + printed(b),
        sliceable(entries(printed(a))),
        sliceable(entries(printed(b))),
        sliceable(entries(printed(a) + printed(b))),
        records(entries(printed(a) + printed(b))) == records(entries(printed(a))) + records(
            entries(printed(b)),
        ),
        changes_of(records(entries(printed(a) + printed(b)))) == changes_of(
            records(entries(printed(a))),
        ) + changes_of(records(entries(printed(b)))),
        changes_of(records(entries(printed(a) + printed(b)))).len() == changes_of(
            records(entries(printed(a))),
        ).len() + changes_of(records(entries(printed(b)))).len(),
        at_most(
            changes_of(records(entries(printed(a) + printed(b)))),
            CHANGES_LIMIT as nat,
        ) == at_most(
            at_most(changes_of(records(entries(printed(a)))), CHANGES_LIMIT as nat) + at_most(
                changes_of(records(entries(printed(b)))),
                CHANGES_LIMIT as nat,
            ),
            CHANGES_LIMIT as nat,
        ),
{
    let both = a + b;
    assert forall|i: int| 0 <= i < both.len() implies complete(#[trigger] both[i]) by {
        if i < a.len() {
            assert(both[i] == a[i]);
        } else {
            assert(both[i] == b[i - a.len()]);
        }
    }
    lemma_run_entries_add(a, b);
    lemma_terminated_add(run_entries(a), run_entries(b));
    assert(printed(both) == printed(a) + printed(b));
    lemma_records_of_run(a);
    lemma_records_of_run(b);
    lemma_records_of_run(both);
    lemma_entries_of_terminated(run_entries(a));
    lemma_entries_of_terminated(run_entries(b));
    lemma_entries_of_terminated(run_entries(both));
    assert(all_read_back(both) =~= all_read_back(a) + all_read_back(b));
    lemma_changes_add(all_read_back(a), all_read_back(b));
    let x = changes_of(all_read_back(a));
    let y = changes_of(all_read_back(b));
    let n = CHANGES_LIMIT as nat;
    assert(at_most(x + y, n) =~= at_most(at_most(x, n) + at_most(y, n), n));
}

/// However many questions git has answered, the third answer is the last one
/// asked for.
pub proof fn law_read_asks_three_questions(replies: Seq<ReplyView>)
    ensures
        replies.len() >= 3 ==> next_step(replies) is Done,
        next_step(replies) is Ask ==> replies.len() < 3,
{
}

/// The first answer alone decides what kind of place the directory is: no git
/// when git is not there, no repository when git refuses, and a repository,
/// whatever the other answers are, when it prints a status.
pub proof fn law_the_first_answer_decides(replies: Seq<ReplyView>)
    requires
        replies.len() >= 3,
    ensures
        (next_step(replies) == StepView::Done(StateView::NoGit)) == (replies[0] is Missing),
        (next_step(replies) == StepView::Done(StateView::NotARepo)) == (replies[0] is Refused),
        (next_step(replies) matches StepView::Done(StateView::Repo(_))) == (replies[0] is Output),
{
}

/// A repository whose log git refuses to print is one with no history, not an
/// error, and one whose top git does not name is the directory asked about.
pub proof fn law_a_refused_log_is_an_empty_history(
    status: Seq<char>,
    top: ReplyView,
    log: ReplyView,
)
    ensures
        !(log is Output) ==> repository(status, top, log).log == Seq::<CommitView>::empty(),
        !(top is Output) ==> repository(status, top, log).root is None,
        repository(status, top, log).head == repository(
            status,
            ReplyView::Refused,
            ReplyView::Refused,
        ).head,
        repository(status, top, log).changes == repository(
            status,
            ReplyView::Refused,
            ReplyView::Refused,
        ).changes,
{
}

// ---------------------------------------------------------------------------
// Numbers.

/// A number in decimal is digits that stand for it.
proof fn lemma_decimal_digits(n: nat)
    ensures
        decimal(n).len() > 0,
        forall|i: int| 0 <= i < decimal(n).len() ==> is_digit(#[trigger] decimal(n)[i]),
        digits_value(decimal(n)) == n,
    decreases n,
{
    if n < 10 {
        assert(decimal(n).drop_last() =~= Seq::<char>::empty());
        assert(digits_value(Seq::<char>::empty()) == 0);
        assert(decimal(n).last() == digit_char(n));
    } else {
        lemma_decimal_digits(n / 10);
        assert(decimal(n).drop_last() =~= decimal(n / 10));
        assert(decimal(n).last() == digit_char(n % 10));
    }
}

/// A number that was written in decimal is read back as itself.
pub proof fn law_decimal_is_read_back(n: nat, max: nat)
    requires
        n <= max,
    ensures
        unsigned(decimal(n), max) == Some(n),
{
    lemma_decimal_digits(n);
    assert(is_digit(decimal(n)[0]));
}

// ---------------------------------------------------------------------------
// The header.

/// A name git allows a branch to have, as far as it matters here: no space, no
/// two dots in a row, no dot at the end.
pub open spec fn branch_name(s: Seq<char>) -> bool {
    &&& forall|i: int| 0 <= i < s.len() ==> s[i] != ' '
    &&& forall|i: int| 0 <= i < s.len() - 1 ==> !(#[trigger] s[i] == '.' && s[i + 1] == '.')
    &&& s.len() > 0 ==> s.last() != '.'
}

/// The counts of a header, without the brackets around them.
pub open spec fn counts_text(ahead: u32, behind: u32) -> Seq<char> {
    if ahead > 0 && behind > 0 {
        "ahead "@ + decimal(ahead as nat) + ", "@ + ("behind "@ + decimal(behind as nat))
    } else if ahead > 0 {
        "ahead "@ + decimal(ahead as nat)
    } else {
        "behind "@ + decimal(behind as nat)
    }
}

/// The names of a header.
pub open spec fn names_text(local: Seq<char>, upstream: Option<Seq<char>>) -> Seq<char> {
    match upstream {
        Some(u) => local + "..."@ + u,
        None => local,
    }
}

/// What git prints for a branch, its upstream and how far apart they are.
pub open spec fn printed_head(
    local: Seq<char>,
    upstream: Option<Seq<char>>,
    ahead: u32,
    behind: u32,
) -> Seq<char> {
    if ahead == 0 && behind == 0 {
        names_text(local, upstream)
    } else {
        names_text(local, upstream) + " ["@ + counts_text(ahead, behind).push(']')
    }
}

proof fn lemma_names(local: Seq<char>, upstream: Option<Seq<char>>)
    requires
        branch_name(local),
        upstream matches Some(u) ==> branch_name(u),
    ensures
        local_and_upstream(names_text(local, upstream)) == (local, upstream),
        forall|i: int|
            0 <= i < names_text(local, upstream).len() ==> names_text(local, upstream)[i] != ' ',
{
    reveal_strlit("...");
    let dots = "..."@;
    let names = names_text(local, upstream);
    assert forall|j: int| 0 <= j < local.len() implies !occurs_at(names, dots, j) by {
        if occurs_at(names, dots, j) {
            let m = names.subrange(j, j + 3);
            assert(m[0] == names[j] && m[1] == names[j + 1]);
            assert(names[j] == local[j]);
            if j + 1 < local.len() {
                assert(names[j + 1] == local[j + 1]);
                assert(local[j] == '.' && local[j + 1] == '.');
            }
        }
    }
    match upstream {
        Some(u) => {
            assert(names.subrange(local.len() as int, local.len() as int + 3) =~= dots);
            lemma_find_first(names, dots, 0, local.len());
            assert(names.take(local.len() as int) =~= local);
            assert(names.skip(local.len() as int + 3) =~= u);
            assert forall|i: int| 0 <= i < names.len() implies names[i] != ' ' by {
                if i < local.len() {
                    assert(names[i] == local[i]);
                } else if i >= local.len() + 3 {
                    assert(names[i] == u[i - local.len() - 3]);
                }
            }
        },
        None => {
            crate::scan::lemma_find(names, dots, 0);
        },
    }
}

/// A header that begins with a name is not taken for one of the notices.
proof fn lemma_no_notice(names: Seq<char>, rest: Seq<char>)
    requires
        forall|i: int| 0 <= i < names.len() ==> names[i] != ' ',
        rest.len() == 0 || (rest.len() >= 2 && rest[0] == ' ' && rest[1] == '['),
    ensures
        without_notice(names + rest) == names + rest,
{
    let head = names + rest;
    let n = names.len() as int;
    reveal_strlit("No commits yet on ");
    reveal_strlit("Initial commit on ");
    let a = "No commits yet on "@;
    let b = "Initial commit on "@;
    if occurs_at(head, a, 0) {
        let m = head.subrange(0, a.len() as int);
        assert(m[0] == head[0] && m[1] == head[1] && m[2] == head[2] && m[3] == head[3]);
        if n > 2 {
            assert(head[2] == names[2]);
        } else {
            assert(head[n] == rest[0]);
            assert(head[n + 1] == rest[1]);
        }
    }
    if occurs_at(head, b, 0) {
        let m = head.subrange(0, b.len() as int);
        assert(m[0] == head[0] && m[1] == head[1] && m[2] == head[2] && m[3] == head[3] && m[4]
            == head[4] && m[5] == head[5] && m[6] == head[6] && m[7] == head[7] && m[8] == head[8]);
        if n > 7 {
            assert(head[7] == names[7]);
        } else {
            assert(head[n] == rest[0]);
            assert(head[n + 1] == rest[1]);
        }
    }
}

proof fn lemma_one_count(word: Seq<char>, n: u32)
    requires
        word == "ahead "@ || word == "behind "@,
    ensures
        strip_prefix(word + decimal(n as nat), word) == Some(decimal(n as nat)),
        count_or_zero(decimal(n as nat)) == n,
        word == "behind "@ ==> strip_prefix(word + decimal(n as nat), "ahead "@) is None,
        forall|i: int|
            0 <= i < (word + decimal(n as nat)).len() ==> (word + decimal(n as nat))[i] != ','
                && (word + decimal(n as nat))[i] != ']',
        (word + decimal(n as nat)).len() > 0,
{
    reveal_strlit("ahead ");
    reveal_strlit("behind ");
    let d = decimal(n as nat);
    let s = word + d;
    lemma_decimal_digits(n as nat);
    law_decimal_is_read_back(n as nat, u32::MAX as nat);
    assert(s.subrange(0, word.len() as int) =~= word);
    assert(s.skip(word.len() as int) =~= d);
    if word == "behind "@ && occurs_at(s, "ahead "@, 0) {
        let m = s.subrange(0, 6);
        assert(m[0] == s[0]);
    }
    assert forall|i: int| 0 <= i < s.len() implies s[i] != ',' && s[i] != ']' by {
        if i >= word.len() {
            assert(s[i] == d[i - word.len()]);
            assert(is_digit(d[i - word.len()]));
        } else {
            assert(s[i] == word[i]);
        }
    }
}

proof fn lemma_counts(head: HeadView, ahead: u32, behind: u32)
    requires
        head.ahead == 0,
        head.behind == 0,
        ahead > 0 || behind > 0,
    ensures
        trim_end_of(counts_text(ahead, behind).push(']'), ']') == counts_text(ahead, behind),
        with_counts(head, split_all(counts_text(ahead, behind), ", "@)) == (HeadView {
            ahead,
            behind,
            ..head
        }),
{
    reveal_strlit(", ");
    let comma = ", "@;
    let a = "ahead "@ + decimal(ahead as nat);
    let b = "behind "@ + decimal(behind as nat);
    let t = counts_text(ahead, behind);
    lemma_one_count("ahead "@, ahead);
    lemma_one_count("behind "@, behind);
    reveal_with_fuel(with_counts, 3);
    lemma_no_cut(a, comma);
    lemma_no_cut(b, comma);
    assert(t.push(']').drop_last() =~= t);
    if ahead > 0 && behind > 0 {
        lemma_cut_at(a, comma, b);
        assert(t == a + comma + b);
        let parts = split_all(t, comma);
        assert(split_all(b, comma) =~= seq![b]);
        assert(parts =~= seq![a, b]);
        assert(parts.drop_last() =~= seq![a]);
        assert(parts.drop_last().drop_last() =~= Seq::<Seq<char>>::empty());
        assert(t.last() == b.last());
    } else if ahead > 0 {
        let parts = split_all(t, comma);
        assert(parts =~= seq![a]);
        assert(parts.drop_last() =~= Seq::<Seq<char>>::empty());
        assert(t.last() == a.last());
    } else {
        let parts = split_all(t, comma);
        assert(parts =~= seq![b]);
        assert(parts.drop_last() =~= Seq::<Seq<char>>::empty());
        assert(t.last() == b.last());
    }
    assert(trim_end_of(t, ']') == t);
}

/// A header is read back as what git printed: the branch, its upstream, and
/// how far apart they are.
pub proof fn law_header_is_read_back(
    local: Seq<char>,
    upstream: Option<Seq<char>>,
    ahead: u32,
    behind: u32,
)
    requires
        branch_name(local),
        upstream matches Some(u) ==> branch_name(u),
    ensures
        with_header(
            HeadView { branch: None, ahead: 0, behind: 0, upstream: None },
            printed_head(local, upstream, ahead, behind),
        ) == (HeadView { branch: Some(local), ahead, behind, upstream }),
{
    reveal_strlit(" [");
    reveal_strlit("HEAD (no branch)");
    let open = " ["@;
    let names = names_text(local, upstream);
    let line = printed_head(local, upstream, ahead, behind);
    lemma_names(local, upstream);
    if occurs_at(local, "HEAD (no branch)"@, 0) {
        let m = local.subrange(0, 16);
        assert(m[4] == local[4]);
    }
    let known = HeadView { branch: Some(local), ahead: 0, behind: 0, upstream };
    if ahead == 0 && behind == 0 {
        assert(names + Seq::<char>::empty() =~= names);
        lemma_no_notice(names, Seq::empty());
        lemma_no_cut(names, open);
        reveal_strlit(", ");
        let none = Seq::<char>::empty();
        lemma_no_cut(none, ", "@);
        let parts = split_all(none, ", "@);
        assert(parts =~= seq![none]);
        assert(parts.drop_last() =~= Seq::<Seq<char>>::empty());
        reveal_with_fuel(with_counts, 2);
        reveal_strlit("ahead ");
        reveal_strlit("behind ");
        assert(with_counts(known, parts) == known);
    } else {
        let rest = counts_text(ahead, behind).push(']');
        assert(line == names + open + rest);
        assert(names + open + rest =~= names + (open + rest));
        lemma_no_notice(names, open + rest);
        lemma_cut_at(names, open, rest);
        lemma_counts(known, ahead, behind);
    }
}

/// A detached HEAD leaves the branch unnamed.
pub proof fn law_detached_head_names_no_branch(before: HeadView)
    ensures
        with_header(before, "HEAD (no branch)"@).branch == before.branch,
{
    reveal_strlit("HEAD (no branch)");
    reveal_strlit("No commits yet on ");
    reveal_strlit("Initial commit on ");
    reveal_strlit(" [");
    reveal_strlit("...");
    let line = "HEAD (no branch)"@;
    if occurs_at(line, "No commits yet on "@, 0) {
        assert(line.subrange(0, 18).len() == 18);
    }
    if occurs_at(line, "Initial commit on "@, 0) {
        assert(line.subrange(0, 18).len() == 18);
    }
    crate::scan::lemma_find(line, " ["@, 0);
    if let Some(i) = find(line, " ["@, 0) {
        let m = line.subrange(i as int, i as int + 2);
        assert(m[1] == line[i as int + 1]);
    }
    crate::scan::lemma_find(line, "..."@, 0);
    if let Some(i) = find(line, "..."@, 0) {
        let m = line.subrange(i as int, i as int + 3);
        assert(m[0] == line[i as int]);
    }
    assert(line.subrange(0, 16) =~= line);
    lemma_counts_keep_branch(
        HeadView { branch: before.branch, upstream: None, ..before },
        split_all(Seq::empty(), ", "@),
    );
}

proof fn lemma_counts_keep_branch(head: HeadView, parts: Seq<Seq<char>>)
    ensures
        with_counts(head, parts).branch == head.branch,
    decreases parts.len(),
{
    if parts.len() > 0 {
        lemma_counts_keep_branch(head, parts.drop_last());
    }
}

// ---------------------------------------------------------------------------
// The log.

/// A text that fits into one field of one line of the log: it holds neither
/// the unit separator nor the end of a line.
pub open spec fn one_field(s: Seq<char>) -> bool {
    forall|i: int| 0 <= i < s.len() ==> s[i] != '\u{1f}' && s[i] != '\n'
}

/// The line git prints for a commit.
pub open spec fn printed_commit(c: CommitView) -> Seq<char> {
    c.hash + seq!['\u{1f}'] + (c.subject + seq!['\u{1f}'] + decimal(c.time as nat))
}

/// What git prints for commits, a line each.
pub open spec fn printed_log(cs: Seq<CommitView>) -> Seq<char>
    decreases cs.len(),
{
    if cs.len() == 0 {
        Seq::empty()
    } else {
        printed_commit(cs[0]) + seq!['\n'] + printed_log(cs.skip(1))
    }
}

/// A line of the log is read back as its commit, whatever else stands in the
/// subject.
proof fn lemma_commit_is_read_back(c: CommitView)
    requires
        one_field(c.hash),
        one_field(c.subject),
    ensures
        commit_of(printed_commit(c)) == Some(c),
        forall|i: int| 0 <= i < printed_commit(c).len() ==> printed_commit(c)[i] != '\n',
        printed_commit(c).len() > 0,
        printed_commit(c).last() != '\r',
{
    let sep = seq![SEP];
    let d = decimal(c.time as nat);
    let tail = c.subject + sep + d;
    let line = printed_commit(c);
    lemma_decimal_digits(c.time as nat);
    law_decimal_is_read_back(c.time as nat, u64::MAX as nat);
    assert forall|i: int| 0 <= i < d.len() implies d[i] != SEP && d[i] != '\n' by {
        assert(is_digit(d[i]));
    }
    lemma_cut_at(c.hash, sep, tail);
    lemma_cut_at(c.subject, sep, d);
    lemma_no_cut(d, sep);
    assert(split_all(d, sep) =~= seq![d]);
    assert(split_all(tail, sep) =~= seq![c.subject, d]);
    assert(split_all(line, sep) =~= seq![c.hash, c.subject, d]);
    assert forall|i: int| 0 <= i < line.len() implies line[i] != '\n' by {
        let h = c.hash.len() as int;
        let s = c.subject.len() as int;
        if i < h {
            assert(line[i] == c.hash[i]);
        } else if i == h {
            assert(line[i] == SEP);
        } else if i < h + 1 + s {
            assert(line[i] == c.subject[i - h - 1]);
        } else if i == h + 1 + s {
            assert(line[i] == SEP);
        } else {
            assert(line[i] == d[i - h - s - 2]);
        }
    }
    assert(line.last() == d.last());
    assert(is_digit(d[d.len() - 1]));
}

proof fn lemma_commits_front(x: Seq<char>, rest: Seq<Seq<char>>)
    ensures
        commits(seq![x] + rest) == match commit_of(x) {
            Some(c) => seq![c] + commits(rest),
            None => commits(rest),
        },
    decreases rest.len(),
{
    let s = seq![x] + rest;
    if rest.len() == 0 {
        assert(s.drop_last() =~= Seq::<Seq<char>>::empty());
        reveal_with_fuel(commits, 2);
        if let Some(c) = commit_of(x) {
            assert(commits(s) =~= seq![c] + commits(rest));
        }
    } else {
        lemma_commits_front(x, rest.drop_last());
        assert(s.drop_last() =~= seq![x] + rest.drop_last());
        if let Some(c) = commit_of(x) {
            if let Some(l) = commit_of(rest.last()) {
                assert((seq![c] + commits(rest.drop_last())).push(l) =~= seq![c] + commits(
                    rest.drop_last(),
                ).push(l));
            }
        }
    }
}

/// A log is read back as the commits git printed. A subject with tabs or pipes
/// in it stays whole: only the separator and the end of the line are special.
pub proof fn law_log_is_read_back(cs: Seq<CommitView>)
    requires
        forall|i: int|
            0 <= i < cs.len() ==> one_field((#[trigger] cs[i]).hash) && one_field(cs[i].subject),
    ensures
        commits(lines(printed_log(cs))) == cs,
    decreases cs.len(),
{
    if cs.len() == 0 {
        assert(commits(Seq::<Seq<char>>::empty()) =~= cs);
    } else {
        let c = cs[0];
        let rest = cs.skip(1);
        assert forall|i: int| 0 <= i < rest.len() implies one_field((#[trigger] rest[i]).hash)
            && one_field(rest[i].subject) by {
            assert(rest[i] == cs[i + 1]);
        }
        law_log_is_read_back(rest);
        lemma_commit_is_read_back(c);
        lemma_cut_at(printed_commit(c), seq!['\n'], printed_log(rest));
        lemma_commits_front(printed_commit(c), lines(printed_log(rest)));
        assert(seq![c] + rest =~= cs);
    }
}


// ---------------------------------------------------------------------------
// A read from end to end.

/// A text with no white space around it.
pub open spec fn no_space_around(s: Seq<char>) -> bool {
    s.len() > 0 && !white_space(s[0]) && !white_space(s.last())
}

proof fn lemma_trim_line_end(path: Seq<char>)
    requires
        no_space_around(path),
    ensures
        trim(path.push('\n')) == path,
{
    let line = path.push('\n');
    assert(line[0] == path[0]);
    assert(trim_start(line) == line);
    assert(line.drop_last() =~= path);
    assert(trim_end(line) == trim_end(path));
}

/// A read of a repository asks its three questions in order, and what it finds
/// is what git printed: the top of the work tree without the end of its line,
/// the branch with its upstream and how far apart they are, every changed file
/// counted and the first two hundred listed under their codes and names, and
/// every commit of the log, none of them left out.
pub proof fn law_a_read_finds_what_git_printed(
    local: Seq<char>,
    upstream: Option<Seq<char>>,
    ahead: u32,
    behind: u32,
    fs: Seq<File>,
    path: Seq<char>,
    cs: Seq<CommitView>,
)
    requires
        branch_name(local) && unbroken(local),
        upstream matches Some(u) ==> branch_name(u) && unbroken(u),
        forall|i: int| 0 <= i < fs.len() ==> printable(#[trigger] fs[i]),
        no_space_around(path),
        forall|i: int|
            0 <= i < cs.len() ==> one_field((#[trigger] cs[i]).hash) && one_field(cs[i].subject),
    ensures
        ({
            let status = ReplyView::Output(
                printed_status(printed_head(local, upstream, ahead, behind), fs),
            );
            let top = ReplyView::Output(path.push('\n'));
            let log = ReplyView::Output(printed_log(cs));
            &&& next_step(Seq::empty()) == StepView::Ask(Query::Status)
            &&& next_step(seq![status]) == StepView::Ask(Query::TopLevel)
            &&& next_step(seq![status, top]) == StepView::Ask(Query::Log)
            &&& next_step(seq![status, top, log]) matches StepView::Done(StateView::Repo(s))
            &&& s.root == Some(path)
            &&& s.head.branch == Some(local)
            &&& s.head.upstream == upstream
            &&& s.head.ahead == ahead
            &&& s.head.behind == behind
            &&& s.total == fs.len()
            &&& s.changes.len() == if fs.len() < 200 {
                fs.len()
            } else {
                200
            }
            &&& forall|i: int|
                0 <= i < s.changes.len() ==> (#[trigger] s.changes[i]).code == fs[i].code
                    && s.changes[i].path == fs[i].path
            &&& s.log == cs
        }),
{
    let head = printed_head(local, upstream, ahead, behind);
    law_header_is_read_back(local, upstream, ahead, behind);
    lemma_head_is_unbroken(local, upstream, ahead, behind);
    law_status_is_read_back(head, fs);
    law_log_is_read_back(cs);
    lemma_trim_line_end(path);
}

proof fn lemma_head_is_unbroken(
    local: Seq<char>,
    upstream: Option<Seq<char>>,
    ahead: u32,
    behind: u32,
)
    requires
        unbroken(local),
        upstream matches Some(u) ==> unbroken(u),
    ensures
        unbroken(printed_head(local, upstream, ahead, behind)),
{
    reveal_strlit("...");
    reveal_strlit(" [");
    reveal_strlit(", ");
    reveal_strlit("ahead ");
    reveal_strlit("behind ");
    lemma_decimal_digits(ahead as nat);
    lemma_decimal_digits(behind as nat);
    let a = decimal(ahead as nat);
    let b = decimal(behind as nat);
    assert forall|i: int| 0 <= i < a.len() implies a[i] != '\0' by {
        assert(is_digit(a[i]));
    }
    assert forall|i: int| 0 <= i < b.len() implies b[i] != '\0' by {
        assert(is_digit(b[i]));
    }
    assert(unbroken(a) && unbroken(b));
    lemma_unbroken_add("ahead "@, a);
    lemma_unbroken_add("behind "@, b);
    lemma_unbroken_add("ahead "@ + a, ", "@);
    lemma_unbroken_add("ahead "@ + a + ", "@, "behind "@ + b);
    let counts = counts_text(ahead, behind);
    assert(unbroken(counts.push(']')));
    if let Some(u) = upstream {
        lemma_unbroken_add(local, "..."@);
        lemma_unbroken_add(local + "..."@, u);
    }
    let names = names_text(local, upstream);
    lemma_unbroken_add(names, " ["@);
    lemma_unbroken_add(names + " ["@, counts.push(']'));
}

proof fn lemma_unbroken_add(a: Seq<char>, b: Seq<char>)
    requires
        unbroken(a),
        unbroken(b),
    ensures
        unbroken(a + b),
{
}

/// A branch without commits is named like any other: what git says before its
/// name is not part of it.
pub proof fn law_a_fresh_branch_is_named(
    local: Seq<char>,
    upstream: Option<Seq<char>>,
    before: HeadView,
)
    requires
        branch_name(local),
        upstream matches Some(u) ==> branch_name(u),
    ensures
        with_header(before, "No commits yet on "@ + names_text(local, upstream)).branch == Some(
            local,
        ),
        with_header(before, "Initial commit on "@ + names_text(local, upstream)).branch == Some(
            local,
        ),
{
    let names = names_text(local, upstream);
    let a = "No commits yet on "@;
    let b = "Initial commit on "@;
    reveal_strlit("No commits yet on ");
    reveal_strlit("Initial commit on ");
    reveal_strlit("HEAD (no branch)");
    reveal_strlit(" [");
    lemma_names(local, upstream);
    assert((a + names).subrange(0, 18) =~= a);
    assert((a + names).skip(18) =~= names);
    assert((b + names).subrange(0, 18) =~= b);
    assert((b + names).skip(18) =~= names);
    if occurs_at(b + names, a, 0) {
        assert((b + names).subrange(0, 18)[0] == 'I');
    }
    lemma_no_cut(names, " ["@);
    if occurs_at(local, "HEAD (no branch)"@, 0) {
        assert(local.subrange(0, 16)[4] == local[4]);
    }
    lemma_counts_keep_branch(
        HeadView { branch: Some(local), upstream, ..before },
        split_all(Seq::empty(), ", "@),
    );
}

/// A change is staged when the index column of its code says anything: it is
/// neither blank nor the mark of an untracked file. The work tree column says
/// nothing about it.
pub proof fn law_staged_is_what_the_index_column_says(x: char, y: char)
    ensures
        !is_staged(Seq::empty()),
        !is_staged(seq![' ', y]),
        !is_staged(seq!['?', y]),
        x != ' ' && x != '?' ==> is_staged(seq![x, y]),
{
}

/// Git is asked to print the fields of a commit in the order, and with the
/// separator between them, in which a line of the log is read; paths are to
/// come as they are, and records are to end in NULs.
pub proof fn law_git_is_asked_for_what_is_read()
    ensures
        arguments(Query::Status) == seq![
            "-c"@,
            "core.quotepath=off"@,
            "status"@,
            "--porcelain=v1"@,
            "--branch"@,
            "-z"@,
        ],
        arguments(Query::TopLevel) == seq![
            "-c"@,
            "core.quotepath=off"@,
            "rev-parse"@,
            "--show-toplevel"@,
        ],
        arguments(Query::Log).len() == 5,
        arguments(Query::Log)[3] == "-n60"@,
        arguments(Query::Log)[4] == "--format=%h"@.push('\u{1f}') + "%s"@.push('\u{1f}') + "%ct"@,
{
    reveal_strlit("-n");
    reveal_strlit("-n60");
    reveal_with_fuel(decimal, 2);
    assert(arguments(Query::Log)[3] =~= "-n60"@);
}

/// A line of the log with more fields than a commit has is the commit of its
/// first three, and one with fewer is none.
pub proof fn law_a_commit_takes_three_fields(c: CommitView, more: Seq<char>)
    requires
        one_field(c.hash),
        one_field(c.subject),
    ensures
        commit_of(printed_commit(c) + seq!['\u{1f}'] + more) == Some(c),
        commit_of(c.hash + seq!['\u{1f}'] + c.subject) is None,
        commit_of(c.hash) is None,
{
    let sep = seq![SEP];
    let d = decimal(c.time as nat);
    lemma_decimal_digits(c.time as nat);
    law_decimal_is_read_back(c.time as nat, u64::MAX as nat);
    assert forall|i: int| 0 <= i < d.len() implies d[i] != SEP by {
        assert(is_digit(d[i]));
    }
    let last = d + sep + more;
    let tail = c.subject + sep + last;
    let line = printed_commit(c) + sep + more;
    assert(line =~= c.hash + sep + tail);
    lemma_cut_at(c.hash, sep, tail);
    lemma_cut_at(c.subject, sep, last);
    lemma_cut_at(d, sep, more);
    let f = split_all(line, sep);
    assert(split_all(last, sep) == seq![d] + split_all(more, sep));
    assert(split_all(tail, sep) == seq![c.subject] + split_all(last, sep));
    assert(f == seq![c.hash] + split_all(tail, sep));
    assert(f.len() >= 3 && f[0] == c.hash && f[1] == c.subject && f[2] == d);
    lemma_no_cut(c.hash, sep);
    lemma_no_cut(c.subject, sep);
    assert(split_all(c.hash, sep) =~= seq![c.hash]);
    assert(split_all(c.subject, sep) =~= seq![c.subject]);
    lemma_cut_at(c.hash, sep, c.subject);
    assert(split_all(c.hash + sep + c.subject, sep).len() == 2);
}

/// An entry too short to hold a code and a path is passed over, wherever it
/// stands.
pub proof fn law_a_short_entry_is_passed_over(entry: Seq<char>, rest: Seq<Seq<char>>)
    requires
        byte_len(entry) < 4,
        strip_prefix(entry, "## "@) is None,
    ensures
        records(seq![entry] + rest) == records(rest),
        sliceable(seq![entry] + rest) == sliceable(rest),
{
    assert((seq![entry] + rest).skip(1) =~= rest);
}

/// What is said of a snapshot is said of everything in it: every change and
/// every commit, each under its own name.
pub proof fn law_a_snapshot_is_seen_whole(s: Snapshot, i: int)
    ensures
        s.view().changes.len() == s.changes@.len(),
        0 <= i < s.changes@.len() ==> s.view().changes[i].code == s.changes@[i].code@
            && s.view().changes[i].path == s.changes@[i].path@,
        s.view().log.len() == s.log@.len(),
        0 <= i < s.log@.len() ==> s.view().log[i].hash == s.log@[i].hash@
            && s.view().log[i].subject == s.log@[i].subject@ && s.view().log[i].time
            == s.log@[i].time,
        s.view().total == s.changes_total,
        s.view().head.ahead == s.ahead && s.view().head.behind == s.behind,
        s.branch matches Some(b) ==> s.view().head.branch == Some(b@),
        s.branch is None ==> s.view().head.branch is None,
        s.upstream matches Some(u) ==> s.view().head.upstream == Some(u@),
        s.upstream is None ==> s.view().head.upstream is None,
        s.root matches Some(r) ==> s.view().root == Some(r@),
        s.root is None ==> s.view().root is None,
{
}

/// A plus sign in front of a number changes nothing, any other sign makes it
/// none, and so does a number beyond the largest.
pub proof fn law_an_unsigned_number_has_no_other_sign(n: nat, max: nat, sign: char)
    requires
        !is_digit(sign),
    ensures
        n <= max && sign == '+' ==> unsigned(seq![sign] + decimal(n), max) == Some(n),
        sign != '+' ==> unsigned(seq![sign] + decimal(n), max) is None,
        n > max ==> unsigned(decimal(n), max) is None,
        unsigned(Seq::empty(), max) is None,
{
    lemma_decimal_digits(n);
    let s = seq![sign] + decimal(n);
    assert(s[0] == sign);
    assert(s.skip(1) =~= decimal(n));
    assert(is_digit(decimal(n)[0]));
    if sign != '+' {
        assert(!is_digit(s[0]));
    }
}

} // verus!
