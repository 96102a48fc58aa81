//! Run logs, so a reorganize run can be reversed.
//!
//! One tab-separated line per move: `original<TAB>destination`. Windows forbids
//! tab (and every other control character) in file names, so no escaping is
//! needed and a path can never be split across columns.
use vstd::prelude::*;

use crate::paths::{extension_of, file_extension};
use crate::text::{
    chars_of, first_index, lemma_first_index, lemma_lt_asymmetric, lemma_lt_irreflexive, lemma_lt_total,
    lemma_lt_transitive, push_str, seq_lt, slice_of, str_eq, str_lt, string_of,
};

verus! {

/// A move as plain text: where a file was, and where it went.
pub type MoveView = (Seq<char>, Seq<char>);

/// `l` without one trailing carriage return.
pub open spec fn strip_cr(l: Seq<char>) -> Seq<char> {
    if l.len() > 0 && l.last() == '\r' {
        l.drop_last()
    } else {
        l
    }
}

/// Reading `s` left to right: the lines ended so far (each without its `\n`
/// and one `\r` before it) and the text of the line still open.
pub open spec fn scan_lines(s: Seq<char>) -> (Seq<Seq<char>>, Seq<char>)
    decreases s.len(),
{
    if s.len() == 0 {
        (Seq::empty(), Seq::empty())
    } else {
        let prev = scan_lines(s.drop_last());
        if s.last() == '\n' {
            (prev.0.push(strip_cr(prev.1)), Seq::empty())
        } else {
            (prev.0, prev.1.push(s.last()))
        }
    }
}

/// The lines of `s`, as `str::lines` yields them: a final line ending is
/// optional, and a last line without one keeps any `\r` it ends with.
pub open spec fn lines(s: Seq<char>) -> Seq<Seq<char>> {
    let sc = scan_lines(s);
    if sc.1.len() > 0 {
        sc.0.push(sc.1)
    } else {
        sc.0
    }
}

/// A line split at its first tab, when both sides are non-empty.
pub open spec fn parse_line(l: Seq<char>) -> Option<MoveView> {
    let k = first_index(l, '\t');
    if 0 < k && k < l.len() - 1 {
        Some((l.take(k), l.skip(k + 1)))
    } else {
        None
    }
}

/// The moves of the lines that parse, in order.
pub open spec fn moves_of(ls: Seq<Seq<char>>) -> Seq<MoveView>
    decreases ls.len(),
{
    if ls.len() == 0 {
        Seq::empty()
    } else {
        match parse_line(ls.last()) {
            Some(m) => moves_of(ls.drop_last()).push(m),
            None => moves_of(ls.drop_last()),
        }
    }
}

/// The moves a log's contents record.
pub open spec fn parse_log_spec(contents: Seq<char>) -> Seq<MoveView> {
    moves_of(lines(contents))
}

pub open spec fn move_views(moves: Seq<(String, String)>) -> Seq<MoveView> {
    moves.map_values(|m: (String, String)| (m.0@, m.1@))
}

fn parse_line_of(l: &Vec<char>) -> (r: Option<(String, String)>)
    ensures
        match r {
            Some(m) => parse_line(l@) == Some((m.0@, m.1@)),
            None => parse_line(l@) is None,
        },
{
    let mut k: usize = 0;
    while k < l.len() && l[k] != '\t'
        invariant
            k <= l.len(),
            forall|j: int| 0 <= j < k ==> #[trigger] l@[j] != '\t',
        decreases l.len() - k,
    {
        k = k + 1;
    }
    proof {
        lemma_first_index(l@, '\t', k as int);
    }
    if 0 < k && k < l.len() - 1 {
        let from = slice_of(l, 0, k);
        let to = slice_of(l, k + 1, l.len());
        assert(from@ == l@.take(k as int));
        assert(to@ == l@.skip(k + 1));
        Some((string_of(&from), string_of(&to)))
    } else {
        None
    }
}

/// The moves recorded in a run log's contents, in the order they were made.
/// Blank and malformed lines are ignored.
pub fn parse_log(contents: &str) -> (moves: Vec<(String, String)>)
    ensures
        move_views(moves@) == parse_log_spec(contents@),
{
    let v = chars_of(contents);
    let mut moves: Vec<(String, String)> = Vec::new();
    let mut line: Vec<char> = Vec::new();
    let mut i: usize = 0;
    while i < v.len()
        invariant
            i <= v.len(),
            v@ == contents@,
            move_views(moves@) == moves_of(scan_lines(v@.take(i as int)).0),
            line@ == scan_lines(v@.take(i as int)).1,
        decreases v.len() - i,
    {
        let ghost before = v@.take(i as int);
        assert(v@.take(i + 1).drop_last() == before);
        assert(v@.take(i + 1).last() == v@[i as int]);
        if v[i] == '\n' {
            if line.len() > 0 && line[line.len() - 1] == '\r' {
                line.pop();
            }
            assert(line@ == strip_cr(scan_lines(before).1));
            let ghost done = scan_lines(before).0.push(line@);
            assert(done.drop_last() == scan_lines(before).0);
            match parse_line_of(&line) {
                Some(m) => {
                    moves.push(m);
                    assert(move_views(moves@) =~= moves_of(done));
                },
                None => {
                    assert(move_views(moves@) =~= moves_of(done));
                },
            }
            line = Vec::new();
        } else {
            line.push(v[i]);
        }
        i = i + 1;
    }
    assert(v@.take(v.len() as int) == v@);
    if line.len() > 0 {
        let ghost done = scan_lines(v@).0.push(line@);
        assert(done.drop_last() == scan_lines(v@).0);
        match parse_line_of(&line) {
            Some(m) => {
                moves.push(m);
                assert(move_views(moves@) =~= moves_of(done));
            },
            None => {},
        }
    }
    moves
}


/// The line a run log holds for one move.
pub open spec fn log_entry(from: Seq<char>, to: Seq<char>) -> Seq<char> {
    from + seq!['\t'] + to + seq!['\n']
}

/// The contents of a run log that recorded `moves`, in order.
pub open spec fn log_text(moves: Seq<MoveView>) -> Seq<char>
    decreases moves.len(),
{
    if moves.len() == 0 {
        Seq::empty()
    } else {
        log_text(moves.drop_last()) + log_entry(moves.last().0, moves.last().1)
    }
}

/// A move the log format can hold: both paths non-empty and on one line, the
/// original without a tab, and the destination not ending in a carriage
/// return (which reading a line would drop).
pub open spec fn loggable(m: MoveView) -> bool {
    &&& m.0.len() > 0
    &&& m.1.len() > 0
    &&& !m.0.contains('\n')
    &&& !m.1.contains('\n')
    &&& !m.0.contains('\t')
    &&& m.1.last() != '\r'
}

/// The line a run log records for one move: `from<TAB>to` and a newline.
pub fn log_line(from: &str, to: &str) -> (line: String)
    ensures
        line@ == log_entry(from@, to@),
{
    let mut line = String::new();
    push_str(&mut line, from);
    push_str(&mut line, "\t");
    push_str(&mut line, to);
    push_str(&mut line, "\n");
    proof {
        reveal_strlit("\t");
        reveal_strlit("\n");
        assert(line@ =~= log_entry(from@, to@));
    }
    line
}

proof fn lemma_scan_no_newline(x: Seq<char>, y: Seq<char>)
    requires
        !y.contains('\n'),
    ensures
        scan_lines(x + y) == (scan_lines(x).0, scan_lines(x).1 + y),
    decreases y.len(),
{
    if y.len() == 0 {
        assert(x + y =~= x);
        assert(scan_lines(x).1 + y =~= scan_lines(x).1);
    } else {
        let y0 = y.drop_last();
        assert(!y0.contains('\n')) by {
            if y0.contains('\n') {
                let j = choose|j: int| 0 <= j < y0.len() && y0[j] == '\n';
                assert(y[j] == '\n');
            }
        }
        lemma_scan_no_newline(x, y0);
        assert((x + y).drop_last() =~= x + y0);
        assert((x + y).last() == y.last());
        assert(y.last() != '\n') by {
            if y.last() == '\n' {
                assert(y[y.len() - 1] == '\n');
            }
        }
        assert(scan_lines(x).1 + y0.push(y.last()) =~= scan_lines(x).1 + y);
        assert(y0.push(y.last()) =~= y);
    }
}

proof fn lemma_scan_entry(x: Seq<char>, m: MoveView)
    requires
        loggable(m),
        scan_lines(x).1.len() == 0,
    ensures
        scan_lines(x + log_entry(m.0, m.1)) == (
            scan_lines(x).0.push(m.0 + seq!['\t'] + m.1),
            Seq::<char>::empty(),
        ),
{
    let body = m.0 + seq!['\t'] + m.1;
    assert(!body.contains('\n')) by {
        if body.contains('\n') {
            let j = choose|j: int| 0 <= j < body.len() && body[j] == '\n';
            if j < m.0.len() {
                assert(m.0[j] == '\n');
            } else if j > m.0.len() {
                assert(m.1[j - m.0.len() - 1] == '\n');
            }
        }
    }
    lemma_scan_no_newline(x, body);
    let whole = x + log_entry(m.0, m.1);
    assert(whole =~= (x + body).push('\n'));
    assert(whole.drop_last() =~= x + body);
    assert(scan_lines(x).1 + body =~= body);
    assert(body.last() == m.1.last());
    assert(strip_cr(body) == body);
}

proof fn lemma_scan_log_text(moves: Seq<MoveView>)
    requires
        forall|i: int| 0 <= i < moves.len() ==> loggable(#[trigger] moves[i]),
    ensures
        scan_lines(log_text(moves)).1.len() == 0,
        scan_lines(log_text(moves)).0 == moves.map_values(|m: MoveView| m.0 + seq!['\t'] + m.1),
    decreases moves.len(),
{
    if moves.len() == 0 {
        assert(log_text(moves) =~= Seq::<char>::empty());
    } else {
        let prev = moves.drop_last();
        assert forall|i: int| 0 <= i < prev.len() implies loggable(#[trigger] prev[i]) by {
            assert(prev[i] == moves[i]);
        }
        lemma_scan_log_text(prev);
        assert(loggable(moves[moves.len() - 1]));
        lemma_scan_entry(log_text(prev), moves.last());
        assert(moves.map_values(|m: MoveView| m.0 + seq!['\t'] + m.1) =~= prev.map_values(
            |m: MoveView| m.0 + seq!['\t'] + m.1,
        ).push(moves.last().0 + seq!['\t'] + moves.last().1));
    }
}

proof fn lemma_parse_entry_line(m: MoveView)
    requires
        loggable(m),
    ensures
        parse_line(m.0 + seq!['\t'] + m.1) == Some(m),
{
    let l = m.0 + seq!['\t'] + m.1;
    assert forall|j: int| 0 <= j < m.0.len() implies #[trigger] l[j] != '\t' by {
        assert(l[j] == m.0[j]);
        if m.0[j] == '\t' {
            assert(m.0.contains('\t'));
        }
    }
    lemma_first_index(l, '\t', m.0.len() as int);
    assert(l.take(m.0.len() as int) =~= m.0);
    assert(l.skip(m.0.len() + 1int) =~= m.1);
}

proof fn lemma_moves_of_entries(moves: Seq<MoveView>)
    requires
        forall|i: int| 0 <= i < moves.len() ==> loggable(#[trigger] moves[i]),
    ensures
        moves_of(moves.map_values(|m: MoveView| m.0 + seq!['\t'] + m.1)) == moves,
    decreases moves.len(),
{
    let ls = moves.map_values(|m: MoveView| m.0 + seq!['\t'] + m.1);
    if moves.len() > 0 {
        let prev = moves.drop_last();
        assert forall|i: int| 0 <= i < prev.len() implies loggable(#[trigger] prev[i]) by {
            assert(prev[i] == moves[i]);
        }
        lemma_moves_of_entries(prev);
        assert(ls.drop_last() =~= prev.map_values(|m: MoveView| m.0 + seq!['\t'] + m.1));
        assert(loggable(moves[moves.len() - 1]));
        lemma_parse_entry_line(moves.last());
        assert(moves_of(ls) =~= prev.push(moves.last()));
        assert(prev.push(moves.last()) =~= moves);
    } else {
        assert(ls.len() == 0);
    }
}

/// What a run log records is what reading it back gives: parsing the log
/// written for a sequence of moves yields exactly those moves, in order,
/// whenever each move is one the format can hold.
pub proof fn lemma_log_round_trip(moves: Seq<MoveView>)
    requires
        forall|i: int| 0 <= i < moves.len() ==> loggable(#[trigger] moves[i]),
    ensures
        parse_log_spec(log_text(moves)) == moves,
{
    lemma_scan_log_text(moves);
    lemma_moves_of_entries(moves);
}


/// Moves are undone newest first, so a file that was renamed out of the way
/// is restored before the file that displaced it.
pub fn newest_first(moves: Vec<(String, String)>) -> (order: Vec<(String, String)>)
    ensures
        order@ == moves@.reverse(),
{
    let mut moves = moves;
    let ghost given = moves@;
    let mut order: Vec<(String, String)> = Vec::new();
    while moves.len() > 0
        invariant
            moves@ == given.take(moves.len() as int),
            order@ == given.skip(moves.len() as int).reverse(),
            moves.len() <= given.len(),
        decreases moves.len(),
    {
        let ghost n = moves.len() as int;
        let m = moves.pop().unwrap();
        assert(m == given[n - 1]);
        order.push(m);
        assert(given.skip(n - 1).reverse() =~= given.skip(n).reverse().push(given[n - 1]));
        assert(moves@ =~= given.take(n - 1));
    }
    assert(given.skip(0) =~= given);
    order
}

/// What became of one logged move when undoing it.
pub enum MoveOutcome {
    /// Nothing is at the destination any more.
    DestinationMissing,
    /// Something already occupies the original path.
    OriginalOccupied,
    /// The original's folder could not be made again; the error says why.
    ParentNotCreated(String),
    /// Moving the file back failed; the error says why.
    RenameFailed(String),
    /// The file is back where it was.
    Restored,
}

pub open spec fn revert_check(destination_exists: bool, original_exists: bool) -> Option<
    MoveOutcome,
> {
    if !destination_exists {
        Some(MoveOutcome::DestinationMissing)
    } else if original_exists {
        Some(MoveOutcome::OriginalOccupied)
    } else {
        None
    }
}

/// The checks made before moving a file back, in the order they are made:
/// the file must still be at its destination, and its original path free.
/// `None` means the move may go ahead.
pub fn precheck(destination_exists: bool, original_exists: bool) -> (outcome: Option<MoveOutcome>)
    ensures
        outcome == revert_check(destination_exists, original_exists),
{
    if !destination_exists {
        Some(MoveOutcome::DestinationMissing)
    } else if original_exists {
        Some(MoveOutcome::OriginalOccupied)
    } else {
        None
    }
}

/// The tally of an undo: how many files went back, and which were skipped
/// with the reason.
pub struct Reversal {
    pub restored: usize,
    pub skipped: Vec<(String, String)>,
}

impl Reversal {
    pub fn new() -> (r: Reversal)
        ensures
            r.restored == 0,
            r.skipped@.len() == 0,
    {
        Reversal { restored: 0, skipped: Vec::new() }
    }

    /// Whether the run log can be cleared after this undo: only when nothing
    /// was skipped, so that a skipped move can still be undone later.
    pub fn clears_log(&self) -> (clear: bool)
        ensures
            clear == (self.skipped@.len() == 0),
    {
        self.skipped.len() == 0
    }

    /// Tallies the outcome of undoing the move `from` → `to`. A skip names
    /// the path it concerns: the destination when the file is missing from it
    /// or could not be moved, the original when that is occupied or its
    /// folder could not be made.
    pub fn record(&mut self, from: String, to: String, outcome: MoveOutcome)
        requires
            old(self).restored < usize::MAX,
        ensures
            match outcome {
                MoveOutcome::Restored => {
                    &&& final(self).restored == old(self).restored + 1
                    &&& final(self).skipped@ == old(self).skipped@
                },
                MoveOutcome::DestinationMissing => {
                    &&& final(self).restored == old(self).restored
                    &&& move_views(final(self).skipped@) == move_views(old(self).skipped@).push(
                        (to@, "no longer at the destination"@),
                    )
                },
                MoveOutcome::OriginalOccupied => {
                    &&& final(self).restored == old(self).restored
                    &&& move_views(final(self).skipped@) == move_views(old(self).skipped@).push(
                        (from@, "something is already at the original path"@),
                    )
                },
                MoveOutcome::ParentNotCreated(e) => {
                    &&& final(self).restored == old(self).restored
                    &&& move_views(final(self).skipped@) == move_views(old(self).skipped@).push(
                        (from@, e@),
                    )
                },
                MoveOutcome::RenameFailed(e) => {
                    &&& final(self).restored == old(self).restored
                    &&& move_views(final(self).skipped@) == move_views(old(self).skipped@).push(
                        (to@, e@),
                    )
                },
            },
    {
        let ghost before = self.skipped@;
        match outcome {
            MoveOutcome::Restored => {
                self.restored = self.restored + 1;
            },
            MoveOutcome::DestinationMissing => {
                let mut reason = String::new();
                push_str(&mut reason, "no longer at the destination");
                self.skipped.push((to, reason));
                assert(move_views(self.skipped@) =~= move_views(before).push(
                    (to@, "no longer at the destination"@),
                ));
            },
            MoveOutcome::OriginalOccupied => {
                let mut reason = String::new();
                push_str(&mut reason, "something is already at the original path");
                self.skipped.push((from, reason));
                assert(move_views(self.skipped@) =~= move_views(before).push(
                    (from@, "something is already at the original path"@),
                ));
            },
            MoveOutcome::ParentNotCreated(e) => {
                let ghost ev = e@;
                self.skipped.push((from, e));
                assert(move_views(self.skipped@) =~= move_views(before).push((from@, ev)));
            },
            MoveOutcome::RenameFailed(e) => {
                let ghost ev = e@;
                self.skipped.push((to, e));
                assert(move_views(self.skipped@) =~= move_views(before).push((to@, ev)));
            },
        }
    }
}


/// A file name that is a run log's: its extension is `tsv`.
pub open spec fn is_log_name(name: Seq<char>) -> bool {
    extension_of(name) == Some("tsv"@)
}

/// The most recent run log among the file names of the log folder: logs are
/// named so that a plain sort is chronological, so this is the greatest
/// log name. `None` when no name is a log's.
pub fn latest_log_name(names: &Vec<String>) -> (latest: Option<String>)
    ensures
        match latest {
            None => forall|i: int| 0 <= i < names@.len() ==> !is_log_name(#[trigger] names@[i]@),
            Some(n) => {
                &&& is_log_name(n@)
                &&& exists|i: int| 0 <= i < names@.len() && #[trigger] names@[i]@ == n@
                &&& forall|i: int|
                    0 <= i < names@.len() && is_log_name(#[trigger] names@[i]@) ==> !seq_lt(
                        n@,
                        names@[i]@,
                    )
            },
        },
{
    let mut best: Option<usize> = None;
    let mut i: usize = 0;
    while i < names.len()
        invariant
            i <= names.len(),
            match best {
                None => forall|j: int| 0 <= j < i ==> !is_log_name(#[trigger] names@[j]@),
                Some(b) => {
                    &&& b < i
                    &&& is_log_name(names@[b as int]@)
                    &&& forall|j: int|
                        0 <= j < i && is_log_name(#[trigger] names@[j]@) ==> !seq_lt(
                            names@[b as int]@,
                            names@[j]@,
                        )
                },
            },
        decreases names.len() - i,
    {
        let is_log = match file_extension(names[i].as_str()) {
            Some(e) => str_eq(e.as_str(), "tsv"),
            None => false,
        };
        if is_log {
            match best {
                None => {
                    best = Some(i);
                    proof {
                        lemma_lt_irreflexive(names@[i as int]@);
                    }
                },
                Some(b) => {
                    if str_lt(names[b].as_str(), names[i].as_str()) {
                        proof {
                            let nb = names@[b as int]@;
                            let ni = names@[i as int]@;
                            assert forall|j: int|
                                0 <= j < i + 1 && is_log_name(#[trigger] names@[j]@) implies !seq_lt(
                                ni,
                                names@[j]@,
                            ) by {
                                let nj = names@[j]@;
                                lemma_lt_total(nj, nb);
                                lemma_lt_transitive(nj, nb, ni);
                                lemma_lt_asymmetric(nj, ni);
                                lemma_lt_irreflexive(ni);
                            }
                        }
                        best = Some(i);
                    }
                },
            }
        }
        i = i + 1;
    }
    match best {
        None => None,
        Some(b) => Some(names[b].clone()),
    }
}


/// A folder tree as the files in it: each path with the contents there.
pub type Disk = Map<Seq<char>, Seq<u8>>;

/// The disk after moving the file at `m.0` to `m.1`.
pub open spec fn moved(d: Disk, m: MoveView) -> Disk {
    d.remove(m.0).insert(m.1, d[m.0])
}

/// The disk after the moves of a run, in order.
pub open spec fn after_run(d: Disk, moves: Seq<MoveView>) -> Disk
    decreases moves.len(),
{
    if moves.len() == 0 {
        d
    } else {
        moved(after_run(d, moves.drop_last()), moves.last())
    }
}

/// Each move of the run took a file that was there to a path that was free.
pub open spec fn valid_run(d: Disk, moves: Seq<MoveView>) -> bool
    decreases moves.len(),
{
    if moves.len() == 0 {
        true
    } else {
        let before = after_run(d, moves.drop_last());
        let m = moves.last();
        &&& valid_run(d, moves.drop_last())
        &&& before.contains_key(m.0)
        &&& !before.contains_key(m.1)
        &&& m.0 != m.1
    }
}

/// Undoing one move: moved back when the checks pass, else left alone.
pub open spec fn undo_one(d: Disk, m: MoveView) -> Disk {
    if revert_check(d.contains_key(m.1), d.contains_key(m.0)) is None {
        moved(d, (m.1, m.0))
    } else {
        d
    }
}

/// Undoing moves in the order given; `restored` counts those moved back.
pub open spec fn undo_all(d: Disk, order: Seq<MoveView>) -> (Disk, nat)
    decreases order.len(),
{
    if order.len() == 0 {
        (d, 0)
    } else {
        let m = order[0];
        let passed = revert_check(d.contains_key(m.1), d.contains_key(m.0)) is None;
        let rest = undo_all(undo_one(d, m), order.drop_first());
        (rest.0, rest.1 + if passed { 1nat } else { 0nat })
    }
}

/// A run can be undone completely: when nothing touched the folder since,
/// undoing the moves newest first passes every check, puts back every file,
/// and leaves the folder exactly as it was before the run, including the
/// files that were renamed to avoid a clash.
pub proof fn lemma_undo_restores(d: Disk, moves: Seq<MoveView>)
    requires
        valid_run(d, moves),
    ensures
        undo_all(after_run(d, moves), moves.reverse()) == (d, moves.len()),
    decreases moves.len(),
{
    if moves.len() > 0 {
        let prev = moves.drop_last();
        let m = moves.last();
        let before = after_run(d, prev);
        let after = after_run(d, moves);
        lemma_undo_restores(d, prev);
        assert(after.contains_key(m.1));
        assert(!after.contains_key(m.0));
        assert(undo_one(after, m) =~= before);
        assert(moves.reverse().drop_first() =~= prev.reverse());
        assert(moves.reverse()[0] == m);
    }
}

/// What is logged is what is undone: reading back the log of a valid run
/// and undoing its moves newest first restores the folder and every file.
pub proof fn lemma_logged_run_undoes(d: Disk, moves: Seq<MoveView>)
    requires
        valid_run(d, moves),
        forall|i: int| 0 <= i < moves.len() ==> loggable(#[trigger] moves[i]),
    ensures
        undo_all(after_run(d, moves), parse_log_spec(log_text(moves)).reverse()) == (
            d,
            moves.len(),
        ),
{
    lemma_log_round_trip(moves);
    lemma_undo_restores(d, moves);
}

} // verus!
