//! Parsing unified diff patches into side-by-side rows.
//!
//! A patch is read line by line. Hunk headers (`@@ -a,b +c,d @@`) set the
//! old and new line counters; removed and added lines are collected into a
//! change block, which is emitted pairwise (a removed line beside an added
//! line becomes one `Changed` row) when a context line, a header, any other
//! line or the end of the patch follows.
use vstd::prelude::*;

use crate::text;
use crate::text::{chars_eq, chars_of, lines_of, parse_i64, split_chars, starts_with_chars, string_of, sub_vec, words_of};

verus! {

/// What a diff row shows.
#[derive(Debug, Clone, Copy, PartialEq, Eq, Structural)]
pub enum DiffKind {
    Meta,
    Hunk,
    Context,
    Changed,
    Added,
    Removed,
}

/// One row of a side-by-side diff.
#[derive(Debug, Clone, PartialEq, Eq)]
pub struct DiffRow {
    pub kind: DiffKind,
    pub old_line: Option<i64>,
    pub new_line: Option<i64>,
    pub left: String,
    pub right: String,
    pub raw: String,
}

/// The model of a diff row.
pub struct DiffRowView {
    pub kind: DiffKind,
    pub old_line: Option<int>,
    pub new_line: Option<int>,
    pub left: Seq<char>,
    pub right: Seq<char>,
    pub raw: Seq<char>,
}

/// An optional line number as an integer.
pub open spec fn opt_int(o: Option<i64>) -> Option<int> {
    match o {
        Some(v) => Some(v as int),
        None => None,
    }
}

impl View for DiffRow {
    type V = DiffRowView;

    open spec fn view(&self) -> DiffRowView {
        DiffRowView {
            kind: self.kind,
            old_line: opt_int(self.old_line),
            new_line: opt_int(self.new_line),
            left: self.left@,
            right: self.right@,
            raw: self.raw@,
        }
    }
}

/// The views of a sequence of rows.
pub open spec fn row_views(v: Seq<DiffRow>) -> Seq<DiffRowView> {
    v.map_values(|r: DiffRow| r@)
}

/// A removed or added line waiting to be paired: its number, its text
/// without the marker, and the raw line.
pub type PendingView = (int, Seq<char>, Seq<char>);

/// The parser's state between lines.
pub struct PatchState {
    pub rows: Seq<DiffRowView>,
    pub old_line: int,
    pub new_line: int,
    pub removed: Seq<PendingView>,
    pub added: Seq<PendingView>,
}

/// The row that stands at position `i` of a change block.
pub open spec fn paired_row(removed: Seq<PendingView>, added: Seq<PendingView>, i: int) -> DiffRowView {
    if i < removed.len() && i < added.len() {
        DiffRowView {
            kind: DiffKind::Changed,
            old_line: Some(removed[i].0),
            new_line: Some(added[i].0),
            left: removed[i].1,
            right: added[i].1,
            raw: removed[i].2 + seq!['\n'] + added[i].2,
        }
    } else if i < removed.len() {
        DiffRowView {
            kind: DiffKind::Removed,
            old_line: Some(removed[i].0),
            new_line: None,
            left: removed[i].1,
            right: Seq::<char>::empty(),
            raw: removed[i].2,
        }
    } else {
        DiffRowView {
            kind: DiffKind::Added,
            old_line: None,
            new_line: Some(added[i].0),
            left: Seq::<char>::empty(),
            right: added[i].1,
            raw: added[i].2,
        }
    }
}

/// The rows of a change block: removed and added lines side by side, as many
/// rows as the longer of the two lists.
pub open spec fn block_rows(removed: Seq<PendingView>, added: Seq<PendingView>) -> Seq<DiffRowView> {
    let n = if removed.len() >= added.len() {
        removed.len()
    } else {
        added.len()
    };
    Seq::new(n, |i: int| paired_row(removed, added, i))
}

/// The state after the pending change block has been emitted.
pub open spec fn flushed(st: PatchState) -> PatchState {
    PatchState {
        rows: st.rows + block_rows(st.removed, st.added),
        old_line: st.old_line,
        new_line: st.new_line,
        removed: Seq::<PendingView>::empty(),
        added: Seq::<PendingView>::empty(),
    }
}

/// A row that carries only its raw text.
pub open spec fn bare_row(kind: DiffKind, raw: Seq<char>) -> DiffRowView {
    DiffRowView {
        kind,
        old_line: None,
        new_line: None,
        left: Seq::<char>::empty(),
        right: Seq::<char>::empty(),
        raw,
    }
}

/// The number before the first `,` of a header range, after its sign marker.
pub open spec fn range_start_spec(part: Seq<char>, marker: char) -> Option<i64> {
    if part.len() > 0 && part[0] == marker {
        text::parse_i64_spec(text::split_on(part.drop_first(), ',')[0])
    } else {
        None
    }
}

/// The old and new start lines of a hunk header `@@ -a[,b] +c[,d] ...`.
pub open spec fn hunk_header_spec(line: Seq<char>) -> Option<(i64, i64)> {
    let parts = text::words(line);
    if parts.len() < 3 || parts[0] != "@@"@ {
        None
    } else {
        match (range_start_spec(parts[1], '-'), range_start_spec(parts[2], '+')) {
            (Some(o), Some(n)) => Some((o, n)),
            _ => None,
        }
    }
}

/// The line adds a line (`+`, but not a `+++` file header).
pub open spec fn is_added_line(line: Seq<char>) -> bool {
    text::has_prefix(line, "+"@) && !text::has_prefix(line, "+++"@)
}

/// The line removes a line (`-`, but not a `---` file header).
pub open spec fn is_removed_line(line: Seq<char>) -> bool {
    text::has_prefix(line, "-"@) && !text::has_prefix(line, "---"@)
}

/// One parsing step.
pub open spec fn step(st: PatchState, line: Seq<char>) -> PatchState {
    if text::has_prefix(line, "@@"@) {
        let f = flushed(st);
        let (o, n) = match hunk_header_spec(line) {
            Some((o, n)) => (o as int, n as int),
            None => (st.old_line, st.new_line),
        };
        PatchState {
            rows: f.rows.push(bare_row(DiffKind::Hunk, line)),
            old_line: o,
            new_line: n,
            removed: f.removed,
            added: f.added,
        }
    } else if is_added_line(line) {
        PatchState {
            added: st.added.push((st.new_line, line.drop_first(), line)),
            new_line: st.new_line + 1,
            ..st
        }
    } else if is_removed_line(line) {
        PatchState {
            removed: st.removed.push((st.old_line, line.drop_first(), line)),
            old_line: st.old_line + 1,
            ..st
        }
    } else if text::has_prefix(line, " "@) {
        let f = flushed(st);
        PatchState {
            rows: f.rows.push(
                DiffRowView {
                    kind: DiffKind::Context,
                    old_line: Some(st.old_line),
                    new_line: Some(st.new_line),
                    left: line.drop_first(),
                    right: line.drop_first(),
                    raw: line,
                },
            ),
            old_line: st.old_line + 1,
            new_line: st.new_line + 1,
            ..f
        }
    } else {
        let f = flushed(st);
        PatchState { rows: f.rows.push(bare_row(DiffKind::Meta, line)), ..f }
    }
}

/// The state before any line.
pub open spec fn start_state() -> PatchState {
    PatchState {
        rows: Seq::<DiffRowView>::empty(),
        old_line: 0,
        new_line: 0,
        removed: Seq::<PendingView>::empty(),
        added: Seq::<PendingView>::empty(),
    }
}

/// The state after the given lines.
pub open spec fn run(ls: Seq<Seq<char>>) -> PatchState
    decreases ls.len(),
{
    if ls.len() == 0 {
        start_state()
    } else {
        step(run(ls.drop_last()), ls.last())
    }
}

/// A step whose counter increments stay within `i64`.
pub open spec fn step_fits(st: PatchState, line: Seq<char>) -> bool {
    if text::has_prefix(line, "@@"@) {
        true
    } else if is_added_line(line) {
        st.new_line < i64::MAX
    } else if is_removed_line(line) {
        st.old_line < i64::MAX
    } else if text::has_prefix(line, " "@) {
        st.old_line < i64::MAX && st.new_line < i64::MAX
    } else {
        true
    }
}

/// Every line counter the parse reaches fits in `i64`. Only a hunk header
/// whose start is within a few lines of `i64::MAX` breaks this.
pub open spec fn counters_fit(ls: Seq<Seq<char>>) -> bool
    decreases ls.len(),
{
    if ls.len() == 0 {
        true
    } else {
        counters_fit(ls.drop_last()) && step_fits(run(ls.drop_last()), ls.last())
    }
}

/// The rows of a patch; no patch gives no rows.
pub open spec fn parse_patch_spec(patch: Option<Seq<char>>) -> Seq<DiffRowView> {
    match patch {
        Some(p) => flushed(run(text::lines(p))).rows,
        None => Seq::<DiffRowView>::empty(),
    }
}

/// A patch whose line counters fit in `i64`.
pub open spec fn patch_fits(patch: Option<Seq<char>>) -> bool {
    match patch {
        Some(p) => counters_fit(text::lines(p)),
        None => true,
    }
}

/// The view of an optional string slice.
pub open spec fn opt_str_view(patch: Option<&str>) -> Option<Seq<char>> {
    match patch {
        Some(p) => Some(p@),
        None => None,
    }
}

// ---------------------------------------------------------------------------

/// A pending line as the executable state holds it.
pub struct Pending {
    pub line: i64,
    pub text: Vec<char>,
    pub raw: Vec<char>,
}

/// The views of pending lines.
pub open spec fn pending_views(v: Seq<Pending>) -> Seq<PendingView> {
    v.map_values(|p: Pending| (p.line as int, p.text@, p.raw@))
}

/// The run of characters `a`, a newline, then `b`.
fn joined_lines(a: &[char], b: &[char]) -> (r: Vec<char>)
    ensures
        r@ == a@ + seq!['\n'] + b@,
{
    let mut r = sub_vec(a, 0, a.len());
    r.push('\n');
    let mut i: usize = 0;
    while i < b.len()
        invariant
            i <= b.len(),
            r@ == a@ + seq!['\n'] + b@.take(i as int),
        decreases b.len() - i,
    {
        r.push(b[i]);
        i = i + 1;
        assert(r@ =~= a@ + seq!['\n'] + b@.take(i as int));
    }
    assert(b@.take(b.len() as int) =~= b@);
    assert(a@.subrange(0, a@.len() as int) =~= a@);
    r
}

/// Emits the pending change block pairwise and clears it.
fn flush_change_block(rows: &mut Vec<DiffRow>, pending_removed: &mut Vec<Pending>, pending_added: &mut Vec<Pending>)
    ensures
        row_views(final(rows)@) == row_views(old(rows)@) + block_rows(
            pending_views(old(pending_removed)@),
            pending_views(old(pending_added)@),
        ),
        final(pending_removed)@.len() == 0,
        final(pending_added)@.len() == 0,
{
    let ghost removed = pending_views(pending_removed@);
    let ghost added = pending_views(pending_added@);
    let ghost start = row_views(rows@);
    let pairs = if pending_removed.len() >= pending_added.len() {
        pending_removed.len()
    } else {
        pending_added.len()
    };
    let mut index: usize = 0;
    while index < pairs
        invariant
            index <= pairs,
            pairs == if removed.len() >= added.len() { removed.len() } else { added.len() },
            removed == pending_views(pending_removed@),
            added == pending_views(pending_added@),
            row_views(rows@) == start + Seq::new(index as nat, |i: int| paired_row(removed, added, i)),
        decreases pairs - index,
    {
        let ghost before = row_views(rows@);
        let row = if index < pending_removed.len() && index < pending_added.len() {
            let r = &pending_removed[index];
            let a = &pending_added[index];
            DiffRow {
                kind: DiffKind::Changed,
                old_line: Some(r.line),
                new_line: Some(a.line),
                left: string_of(r.text.as_slice()),
                right: string_of(a.text.as_slice()),
                raw: string_of(joined_lines(r.raw.as_slice(), a.raw.as_slice()).as_slice()),
            }
        } else if index < pending_removed.len() {
            let r = &pending_removed[index];
            DiffRow {
                kind: DiffKind::Removed,
                old_line: Some(r.line),
                new_line: None,
                left: string_of(r.text.as_slice()),
                right: String::new(),
                raw: string_of(r.raw.as_slice()),
            }
        } else {
            let a = &pending_added[index];
            DiffRow {
                kind: DiffKind::Added,
                old_line: None,
                new_line: Some(a.line),
                left: String::new(),
                right: string_of(a.text.as_slice()),
                raw: string_of(a.raw.as_slice()),
            }
        };
        assert(row@ == paired_row(removed, added, index as int));
        rows.push(row);
        index = index + 1;
        assert(row_views(rows@) =~= start + Seq::new(index as nat, |i: int| paired_row(removed, added, i))) by {
            assert(row_views(rows@) =~= before.push(paired_row(removed, added, index - 1)));
        }
    }
    assert(Seq::new(index as nat, |i: int| paired_row(removed, added, i)) =~= block_rows(removed, added));
    pending_removed.clear();
    pending_added.clear();
}

/// The number before the first `,` of a header range, after its marker.
fn range_start(part: &[char], marker: char) -> (r: Option<i64>)
    ensures
        r == range_start_spec(part@, marker),
{
    if part.len() > 0 && part[0] == marker {
        let rest = sub_vec(part, 1, part.len());
        assert(rest@ =~= part@.drop_first());
        let pieces = split_chars(rest.as_slice(), ',');
        proof {
            text::lemma_split_nonempty(rest@, ',');
        }
        assert(pieces@[0]@ == text::split_on(rest@, ',')[0]);
        parse_i64(pieces[0].as_slice())
    } else {
        None
    }
}

/// The old and new start lines of a hunk header.
pub fn parse_hunk_header(line: &[char]) -> (r: Option<(i64, i64)>)
    ensures
        r == hunk_header_spec(line@),
{
    let parts = words_of(line);
    assert(text::views(parts@) == text::words(line@));
    if parts.len() < 3 {
        return None;
    }
    assert(parts@[0]@ == text::words(line@)[0]);
    assert(parts@[1]@ == text::words(line@)[1]);
    assert(parts@[2]@ == text::words(line@)[2]);
    let marker = chars_of("@@");
    if !chars_eq(parts[0].as_slice(), marker.as_slice()) {
        return None;
    }
    let old = range_start(parts[1].as_slice(), '-');
    let new = range_start(parts[2].as_slice(), '+');
    match (old, new) {
        (Some(o), Some(n)) => Some((o, n)),
        _ => None,
    }
}

/// The exec pending list `v` with one more entry.
fn push_pending(v: &mut Vec<Pending>, line_no: i64, line: &[char])
    requires
        line@.len() > 0,
    ensures
        pending_views(final(v)@) == pending_views(old(v)@).push((line_no as int, line@.drop_first(), line@)),
{
    let text = sub_vec(line, 1, line.len());
    let raw = sub_vec(line, 0, line.len());
    assert(text@ =~= line@.drop_first());
    assert(raw@ =~= line@);
    v.push(Pending { line: line_no, text, raw });
    assert(pending_views(v@) =~= pending_views(old(v)@).push((line_no as int, line@.drop_first(), line@)));
}

/// Whether a patch's line counters stay within `i64` (see `patch_fits`):
/// the test a caller makes before `parse_patch`.
pub fn patch_fits_check(patch: Option<&str>) -> (b: bool)
    ensures
        b == patch_fits(opt_str_view(patch)),
{
    let text_of_patch = match patch {
        Some(t) => t,
        None => return true,
    };
    let chars = chars_of(text_of_patch);
    let ls = lines_of(chars.as_slice());
    let ghost lv = text::lines(text_of_patch@);
    let ghost fits = patch_fits(opt_str_view(patch));
    assert(fits == counters_fit(lv));
    let plus = chars_of("+");
    let plus3 = chars_of("+++");
    let minus = chars_of("-");
    let minus3 = chars_of("---");
    let space = chars_of(" ");
    let hunk = chars_of("@@");
    let mut old_line: i64 = 0;
    let mut new_line: i64 = 0;
    let mut i: usize = 0;
    assert(lv.take(0) =~= Seq::<Seq<char>>::empty());
    while i < ls.len()
        invariant
            i <= ls.len(),
            fits == counters_fit(lv),
            fits == patch_fits(opt_str_view(patch)),
            text::views(ls@) == lv,
            plus@ == "+"@,
            plus3@ == "+++"@,
            minus@ == "-"@,
            minus3@ == "---"@,
            space@ == " "@,
            hunk@ == "@@"@,
            counters_fit(lv.take(i as int)),
            old_line as int == run(lv.take(i as int)).old_line,
            new_line as int == run(lv.take(i as int)).new_line,
        decreases ls.len() - i,
    {
        let ghost prefix = lv.take(i as int);
        let ghost next = lv.take(i + 1);
        assert(next.drop_last() =~= prefix);
        assert(next.last() == lv[i as int]);
        let line = ls[i].as_slice();
        assert(line@ == lv[i as int]);
        if starts_with_chars(line, hunk.as_slice()) {
            match parse_hunk_header(line) {
                Some((o, n)) => {
                    old_line = o;
                    new_line = n;
                },
                None => {},
            }
        } else if starts_with_chars(line, plus.as_slice()) && !starts_with_chars(line, plus3.as_slice()) {
            if new_line == i64::MAX {
                proof {
                    assert(is_added_line(lv[i as int]));
                    assert(!step_fits(run(prefix), lv[i as int]));
                    if counters_fit(lv) {
                        lemma_counters_fit_prefix(lv, i as int + 1);
                        assert(lv.take(i as int + 1 - 1) =~= prefix);
                        assert(lv[i as int + 1 - 1] == lv[i as int]);
                        assert(false);
                    }
                    assert(!counters_fit(lv));
                }
                return false;
            }
            new_line = new_line + 1;
        } else if starts_with_chars(line, minus.as_slice()) && !starts_with_chars(line, minus3.as_slice()) {
            if old_line == i64::MAX {
                proof {
                    assert(!is_added_line(lv[i as int]));
                    assert(is_removed_line(lv[i as int]));
                    assert(!step_fits(run(prefix), lv[i as int]));
                    if counters_fit(lv) {
                        lemma_counters_fit_prefix(lv, i as int + 1);
                        assert(lv.take(i as int + 1 - 1) =~= prefix);
                        assert(lv[i as int + 1 - 1] == lv[i as int]);
                        assert(false);
                    }
                    assert(!counters_fit(lv));
                }
                return false;
            }
            old_line = old_line + 1;
        } else if starts_with_chars(line, space.as_slice()) {
            if old_line == i64::MAX || new_line == i64::MAX {
                proof {
                    if counters_fit(lv) {
                        lemma_counters_fit_prefix(lv, i as int + 1);
                        assert(lv.take(i as int + 1 - 1) =~= prefix);
                        assert(lv[i as int + 1 - 1] == lv[i as int]);
                        assert(false);
                    }
                    assert(!counters_fit(lv));
                }
                return false;
            }
            old_line = old_line + 1;
            new_line = new_line + 1;
        }
        i = i + 1;
    }
    assert(lv.take(ls.len() as int) =~= lv);
    true
}

/// Parses a unified diff patch into side-by-side rows: one row per hunk
/// header, context line and other line, and for each run of removed and
/// added lines one row per pair, with the old and new line numbers counted
/// from the last hunk header.
pub fn parse_patch(patch: Option<&str>) -> (rows: Vec<DiffRow>)
    requires
        patch_fits(opt_str_view(patch)),
    ensures
        row_views(rows@) == parse_patch_spec(opt_str_view(patch)),
{
    let patch = match patch {
        Some(patch) => patch,
        None => {
            let empty: Vec<DiffRow> = Vec::new();
            assert(row_views(empty@) =~= Seq::<DiffRowView>::empty());
            return empty;
        },
    };
    let chars = chars_of(patch);
    let ls = lines_of(chars.as_slice());
    let ghost lv = text::lines(patch@);
    let mut rows: Vec<DiffRow> = Vec::new();
    let mut old_line: i64 = 0;
    let mut new_line: i64 = 0;
    let mut pending_removed: Vec<Pending> = Vec::new();
    let mut pending_added: Vec<Pending> = Vec::new();
    let plus = chars_of("+");
    let plus3 = chars_of("+++");
    let minus = chars_of("-");
    let minus3 = chars_of("---");
    let space = chars_of(" ");
    let hunk = chars_of("@@");
    let mut i: usize = 0;
    assert(row_views(rows@) =~= Seq::<DiffRowView>::empty());
    assert(pending_views(pending_removed@) =~= Seq::<PendingView>::empty());
    assert(pending_views(pending_added@) =~= Seq::<PendingView>::empty());
    assert(lv.take(0) =~= Seq::<Seq<char>>::empty());
    while i < ls.len()
        invariant
            i <= ls.len(),
            text::views(ls@) == lv,
            counters_fit(lv),
            plus@ == "+"@,
            plus3@ == "+++"@,
            minus@ == "-"@,
            minus3@ == "---"@,
            space@ == " "@,
            hunk@ == "@@"@,
            ({
                let st = run(lv.take(i as int));
                &&& row_views(rows@) == st.rows
                &&& old_line as int == st.old_line
                &&& new_line as int == st.new_line
                &&& pending_views(pending_removed@) == st.removed
                &&& pending_views(pending_added@) == st.added
            }),
        decreases ls.len() - i,
    {
        let ghost prefix = lv.take(i as int);
        let ghost next = lv.take(i + 1);
        assert(next.drop_last() =~= prefix);
        assert(next.last() == lv[i as int]);
        proof {
            lemma_counters_fit_prefix(lv, i as int + 1);
        }
        let line = ls[i].as_slice();
        assert(line@ == lv[i as int]);
        let ghost st = run(prefix);
        if starts_with_chars(line, hunk.as_slice()) {
            flush_change_block(&mut rows, &mut pending_removed, &mut pending_added);
            let (next_old, next_new) = match parse_hunk_header(line) {
                Some(pair) => pair,
                None => (old_line, new_line),
            };
            old_line = next_old;
            new_line = next_new;
            rows.push(
                DiffRow {
                    kind: DiffKind::Hunk,
                    old_line: None,
                    new_line: None,
                    left: String::new(),
                    right: String::new(),
                    raw: string_of(line),
                },
            );
            assert(row_views(rows@) =~= run(next).rows);
            assert(pending_views(pending_removed@) =~= run(next).removed);
            assert(pending_views(pending_added@) =~= run(next).added);
        } else if starts_with_chars(line, plus.as_slice()) && !starts_with_chars(line, plus3.as_slice()) {
            proof {
                reveal_strlit("+");
            }
            assert(line@.len() > 0);
            push_pending(&mut pending_added, new_line, line);
            new_line = new_line + 1;
        } else if starts_with_chars(line, minus.as_slice()) && !starts_with_chars(line, minus3.as_slice()) {
            proof {
                reveal_strlit("-");
            }
            assert(line@.len() > 0);
            push_pending(&mut pending_removed, old_line, line);
            old_line = old_line + 1;
        } else if starts_with_chars(line, space.as_slice()) {
            proof {
                reveal_strlit(" ");
            }
            flush_change_block(&mut rows, &mut pending_removed, &mut pending_added);
            let body = sub_vec(line, 1, line.len());
            assert(body@ =~= line@.drop_first());
            rows.push(
                DiffRow {
                    kind: DiffKind::Context,
                    old_line: Some(old_line),
                    new_line: Some(new_line),
                    left: string_of(body.as_slice()),
                    right: string_of(body.as_slice()),
                    raw: string_of(line),
                },
            );
            old_line = old_line + 1;
            new_line = new_line + 1;
            assert(row_views(rows@) =~= run(next).rows);
            assert(pending_views(pending_removed@) =~= run(next).removed);
            assert(pending_views(pending_added@) =~= run(next).added);
        } else {
            flush_change_block(&mut rows, &mut pending_removed, &mut pending_added);
            rows.push(
                DiffRow {
                    kind: DiffKind::Meta,
                    old_line: None,
                    new_line: None,
                    left: String::new(),
                    right: String::new(),
                    raw: string_of(line),
                },
            );
            assert(row_views(rows@) =~= run(next).rows);
            assert(pending_views(pending_removed@) =~= run(next).removed);
            assert(pending_views(pending_added@) =~= run(next).added);
        }
        i = i + 1;
    }
    assert(lv.take(ls.len() as int) =~= lv);
    flush_change_block(&mut rows, &mut pending_removed, &mut pending_added);
    rows
}

/// Counters that fit for all lines also fit for every prefix of them.
pub proof fn lemma_counters_fit_prefix(ls: Seq<Seq<char>>, k: int)
    requires
        0 <= k <= ls.len(),
        counters_fit(ls),
    ensures
        counters_fit(ls.take(k)),
        k > 0 ==> step_fits(run(ls.take(k - 1)), ls[k - 1]),
    decreases ls.len(),
{
    if k == ls.len() {
        assert(ls.take(k) =~= ls);
        if k > 0 {
            assert(ls.take(k - 1) =~= ls.drop_last());
        }
    } else {
        assert(ls.drop_last().take(k) =~= ls.take(k));
        if k > 0 {
            assert(ls.drop_last().take(k - 1) =~= ls.take(k - 1));
        }
        lemma_counters_fit_prefix(ls.drop_last(), k);
    }
}

/// The rows of one hunk: its header and the rows up to the next header.
#[derive(Debug, Clone, Copy, PartialEq, Eq)]
pub struct DiffHunkRange {
    pub start: usize,
    pub end: usize,
}

/// `e` is the last row of the hunk whose header is at `start`: no header in
/// `(start, e]`, and `e` is the last row or the row after it is a header.
pub open spec fn is_hunk_end(rows: Seq<DiffRow>, start: int, e: int) -> bool {
    &&& start <= e < rows.len()
    &&& forall|k: int| start < k <= e ==> #[trigger] rows[k].kind != DiffKind::Hunk
    &&& (e + 1 == rows.len() || rows[e + 1].kind == DiffKind::Hunk)
}

/// `s` is the nearest hunk header at or above row `r`.
pub open spec fn is_hunk_start_for(rows: Seq<DiffRow>, r: int, s: int) -> bool {
    &&& 0 <= s <= r < rows.len()
    &&& rows[s].kind == DiffKind::Hunk
    &&& forall|k: int| s < k <= r ==> #[trigger] rows[k].kind != DiffKind::Hunk
}

/// The last row of the hunk whose header is at `hunk_start`; none when that
/// row is not a hunk header.
pub fn pull_request_hunk_end(rows: &[DiffRow], hunk_start: usize) -> (r: Option<usize>)
    ensures
        r is Some <==> (hunk_start < rows@.len() && rows@[hunk_start as int].kind == DiffKind::Hunk),
        r matches Some(e) ==> is_hunk_end(rows@, hunk_start as int, e as int),
{
    if hunk_start >= rows.len() {
        return None;
    }
    if rows[hunk_start].kind != DiffKind::Hunk {
        return None;
    }
    let mut index = hunk_start + 1;
    while index < rows.len()
        invariant
            hunk_start < index <= rows.len(),
            rows@[hunk_start as int].kind == DiffKind::Hunk,
            forall|k: int| hunk_start < k < index ==> #[trigger] rows@[k].kind != DiffKind::Hunk,
        decreases rows.len() - index,
    {
        if rows[index].kind == DiffKind::Hunk {
            return Some(index - 1);
        }
        index = index + 1;
    }
    Some(rows.len() - 1)
}

/// The hunk that holds row `row_index` (the last row when the index is past
/// the end): from the nearest header at or above it to that hunk's end.
pub fn pull_request_hunk_range_for_row(rows: &[DiffRow], row_index: usize) -> (r: Option<DiffHunkRange>)
    ensures
        rows@.len() == 0 ==> r is None,
        rows@.len() > 0 ==> {
            let row = if row_index < rows@.len() { row_index as int } else { rows@.len() - 1 };
            &&& r is None <==> (forall|k: int| 0 <= k <= row ==> #[trigger] rows@[k].kind != DiffKind::Hunk)
            &&& r matches Some(range) ==> is_hunk_start_for(rows@, row, range.start as int)
                && is_hunk_end(rows@, range.start as int, range.end as int)
        },
{
    if rows.len() == 0 {
        return None;
    }
    let row = if row_index < rows.len() { row_index } else { rows.len() - 1 };
    let mut index = row;
    loop
        invariant
            index <= row < rows.len(),
            row == if row_index < rows.len() { row_index } else { (rows.len() - 1) as usize },
            forall|k: int| index < k <= row ==> #[trigger] rows@[k].kind != DiffKind::Hunk,
        ensures
            index <= row < rows.len(),
            rows@[index as int].kind == DiffKind::Hunk,
            forall|k: int| index < k <= row ==> #[trigger] rows@[k].kind != DiffKind::Hunk,
        decreases index,
    {
        if rows[index].kind == DiffKind::Hunk {
            break;
        }
        if index == 0 {
            assert forall|k: int| 0 <= k <= row implies #[trigger] rows@[k].kind != DiffKind::Hunk by {
                if k == 0 {
                    assert(rows@[0].kind != DiffKind::Hunk);
                }
            }
            return None;
        }
        index = index - 1;
    }
    let hunk_start = index;
    let hunk_end = match pull_request_hunk_end(rows, hunk_start) {
        Some(e) => e,
        None => return None,
    };
    if row > hunk_end {
        assert(hunk_end + 1 < rows@.len());
        assert(rows@[hunk_end + 1].kind == DiffKind::Hunk);
        assert(rows@[hunk_end + 1].kind != DiffKind::Hunk);
        return None;
    }
    Some(DiffHunkRange { start: hunk_start, end: hunk_end })
}

/// The hunk found for a row holds that row: its header is at or above the
/// row and its end at or below it.
pub proof fn lemma_hunk_range_holds_row(rows: Seq<DiffRow>, row: int, start: int, end: int)
    requires
        is_hunk_start_for(rows, row, start),
        is_hunk_end(rows, start, end),
    ensures
        start <= row <= end,
{
    if row > end {
        assert(end + 1 <= row);
        assert(rows[end + 1].kind == DiffKind::Hunk);
    }
}

/// Every row of a hunk finds the same hunk: the header above it is the
/// hunk's header.
pub proof fn lemma_hunk_rows_share_header(rows: Seq<DiffRow>, start: int, end: int, other: int)
    requires
        0 <= start,
        rows[start].kind == DiffKind::Hunk,
        is_hunk_end(rows, start, end),
        start <= other <= end,
    ensures
        is_hunk_start_for(rows, other, start),
{
}


/// The shape a row of each kind has: headers and other lines carry no line
/// numbers and no text on either side; context shows the same text on both
/// sides with both numbers; a changed line has both numbers; an added line
/// only a new number and no left text; a removed line only an old number
/// and no right text.
pub open spec fn row_shaped(r: DiffRowView) -> bool {
    match r.kind {
        DiffKind::Hunk | DiffKind::Meta => r.old_line is None && r.new_line is None && r.left.len() == 0
            && r.right.len() == 0,
        DiffKind::Context => r.old_line is Some && r.new_line is Some && r.left == r.right,
        DiffKind::Changed => r.old_line is Some && r.new_line is Some,
        DiffKind::Added => r.old_line is None && r.new_line is Some && r.left.len() == 0,
        DiffKind::Removed => r.old_line is Some && r.new_line is None && r.right.len() == 0,
    }
}

/// Every row of `rows` has its kind's shape.
pub open spec fn rows_shaped(rows: Seq<DiffRowView>) -> bool {
    forall|i: int| 0 <= i < rows.len() ==> row_shaped(#[trigger] rows[i])
}

proof fn lemma_flushed_shaped(st: PatchState)
    requires
        rows_shaped(st.rows),
    ensures
        rows_shaped(flushed(st).rows),
{
    let b = block_rows(st.removed, st.added);
    let f = flushed(st);
    assert forall|i: int| 0 <= i < f.rows.len() implies row_shaped(#[trigger] f.rows[i]) by {
        if i >= st.rows.len() {
            assert(f.rows[i] == b[i - st.rows.len()]);
        }
    }
}

proof fn lemma_run_shaped(ls: Seq<Seq<char>>)
    ensures
        rows_shaped(run(ls).rows),
    decreases ls.len(),
{
    if ls.len() > 0 {
        let st = run(ls.drop_last());
        lemma_run_shaped(ls.drop_last());
        lemma_flushed_shaped(st);
        let n = run(ls);
        let line = ls.last();
        let f = flushed(st);
        assert forall|i: int| 0 <= i < n.rows.len() implies row_shaped(#[trigger] n.rows[i]) by {
            if !text::has_prefix(line, "@@"@) && !is_added_line(line) && !is_removed_line(line) {
                if i < f.rows.len() {
                    assert(n.rows[i] == f.rows[i]);
                }
            } else if text::has_prefix(line, "@@"@) {
                if i < f.rows.len() {
                    assert(n.rows[i] == f.rows[i]);
                }
            } else {
                assert(n.rows[i] == st.rows[i]);
            }
        }
    }
}

/// Every row a patch parses into has its kind's shape (see `row_shaped`).
pub proof fn lemma_patch_rows_shaped(patch: Option<Seq<char>>)
    ensures
        rows_shaped(parse_patch_spec(patch)),
{
    if let Some(p) = patch {
        lemma_run_shaped(text::lines(p));
        lemma_flushed_shaped(run(text::lines(p)));
    }
}


/// The kind of row a patch line becomes: a hunk header, an added line, a
/// removed line, a context line, or anything else.
pub open spec fn line_kind(line: Seq<char>) -> DiffKind {
    if text::has_prefix(line, "@@"@) {
        DiffKind::Hunk
    } else if is_added_line(line) {
        DiffKind::Added
    } else if is_removed_line(line) {
        DiffKind::Removed
    } else if text::has_prefix(line, " "@) {
        DiffKind::Context
    } else {
        DiffKind::Meta
    }
}

/// How many rows are of kind `k`.
pub open spec fn count_kind(rows: Seq<DiffRowView>, k: DiffKind) -> nat
    decreases rows.len(),
{
    if rows.len() == 0 {
        0
    } else {
        count_kind(rows.drop_last(), k) + if rows.last().kind == k { 1nat } else { 0nat }
    }
}

/// How many lines become rows of kind `k`.
pub open spec fn count_lines(ls: Seq<Seq<char>>, k: DiffKind) -> nat
    decreases ls.len(),
{
    if ls.len() == 0 {
        0
    } else {
        count_lines(ls.drop_last(), k) + if line_kind(ls.last()) == k { 1nat } else { 0nat }
    }
}

proof fn lemma_count_kind_append(a: Seq<DiffRowView>, b: Seq<DiffRowView>, k: DiffKind)
    ensures
        count_kind(a + b, k) == count_kind(a, k) + count_kind(b, k),
    decreases b.len(),
{
    if b.len() == 0 {
        assert(a + b =~= a);
    } else {
        assert((a + b).drop_last() =~= a + b.drop_last());
        lemma_count_kind_append(a, b.drop_last(), k);
    }
}

/// The first `n` rows of a change block.
spec fn block_prefix(r: Seq<PendingView>, a: Seq<PendingView>, n: int) -> Seq<DiffRowView> {
    Seq::new(n as nat, |i: int| paired_row(r, a, i))
}

spec fn min_int(x: int, y: int) -> int {
    if x <= y { x } else { y }
}

spec fn pos(x: int) -> int {
    if x >= 0 { x } else { 0 }
}

proof fn lemma_block_prefix_counts(r: Seq<PendingView>, a: Seq<PendingView>, n: int)
    requires
        0 <= n,
    ensures
        count_kind(block_prefix(r, a, n), DiffKind::Changed) == min_int(n, min_int(r.len() as int, a.len() as int)),
        count_kind(block_prefix(r, a, n), DiffKind::Removed) == pos(min_int(n, r.len() as int) - a.len()),
        count_kind(block_prefix(r, a, n), DiffKind::Added) == pos(n - r.len()),
        count_kind(block_prefix(r, a, n), DiffKind::Hunk) == 0,
        count_kind(block_prefix(r, a, n), DiffKind::Meta) == 0,
        count_kind(block_prefix(r, a, n), DiffKind::Context) == 0,
    decreases n,
{
    if n > 0 {
        assert(block_prefix(r, a, n).drop_last() =~= block_prefix(r, a, n - 1));
        lemma_block_prefix_counts(r, a, n - 1);
    }
}

proof fn lemma_flushed_counts(st: PatchState, k: DiffKind)
    ensures
        k == DiffKind::Changed ==> count_kind(flushed(st).rows, k) + count_kind(flushed(st).rows, DiffKind::Added)
            == count_kind(st.rows, k) + count_kind(st.rows, DiffKind::Added) + st.added.len(),
        k == DiffKind::Changed ==> count_kind(flushed(st).rows, k) + count_kind(flushed(st).rows, DiffKind::Removed)
            == count_kind(st.rows, k) + count_kind(st.rows, DiffKind::Removed) + st.removed.len(),
        k == DiffKind::Hunk || k == DiffKind::Meta || k == DiffKind::Context ==> count_kind(flushed(st).rows, k)
            == count_kind(st.rows, k),
{
    let n = if st.removed.len() >= st.added.len() { st.removed.len() } else { st.added.len() };
    assert(block_rows(st.removed, st.added) =~= block_prefix(st.removed, st.added, n as int));
    lemma_block_prefix_counts(st.removed, st.added, n as int);
    lemma_count_kind_append(st.rows, block_rows(st.removed, st.added), k);
    lemma_count_kind_append(st.rows, block_rows(st.removed, st.added), DiffKind::Added);
    lemma_count_kind_append(st.rows, block_rows(st.removed, st.added), DiffKind::Removed);
}

/// The counting invariant of a run: every line read so far is one row, or
/// waits in the pending change block.
spec fn counts_match(st: PatchState, ls: Seq<Seq<char>>) -> bool {
    &&& count_kind(st.rows, DiffKind::Hunk) == count_lines(ls, DiffKind::Hunk)
    &&& count_kind(st.rows, DiffKind::Context) == count_lines(ls, DiffKind::Context)
    &&& count_kind(st.rows, DiffKind::Meta) == count_lines(ls, DiffKind::Meta)
    &&& count_kind(st.rows, DiffKind::Changed) + count_kind(st.rows, DiffKind::Added) + st.added.len()
        == count_lines(ls, DiffKind::Added)
    &&& count_kind(st.rows, DiffKind::Changed) + count_kind(st.rows, DiffKind::Removed) + st.removed.len()
        == count_lines(ls, DiffKind::Removed)
}

proof fn lemma_run_counts(ls: Seq<Seq<char>>)
    ensures
        counts_match(run(ls), ls),
    decreases ls.len(),
{
    if ls.len() > 0 {
        let st = run(ls.drop_last());
        lemma_run_counts(ls.drop_last());
        let line = ls.last();
        let n = run(ls);
        let f = flushed(st);
        lemma_flushed_counts(st, DiffKind::Changed);
        lemma_flushed_counts(st, DiffKind::Hunk);
        lemma_flushed_counts(st, DiffKind::Meta);
        lemma_flushed_counts(st, DiffKind::Context);
        if line_kind(line) != DiffKind::Added && line_kind(line) != DiffKind::Removed {
            let row = n.rows.last();
            assert(n.rows =~= f.rows.push(row));
            assert(n.rows.drop_last() =~= f.rows);
            assert(row.kind == line_kind(line));
        }
    }
}

/// Every line of a patch is accounted for, none dropped or repeated: as
/// many hunk rows as `@@` lines, context rows as ` ` lines and other rows
/// as other lines; changed and added rows together as many as `+` lines,
/// changed and removed rows together as many as `-` lines (file headers
/// `+++` and `---` count as other lines).
pub proof fn lemma_patch_counts(p: Seq<char>)
    ensures
        ({
            let rows = parse_patch_spec(Some(p));
            let ls = text::lines(p);
            &&& count_kind(rows, DiffKind::Hunk) == count_lines(ls, DiffKind::Hunk)
            &&& count_kind(rows, DiffKind::Context) == count_lines(ls, DiffKind::Context)
            &&& count_kind(rows, DiffKind::Meta) == count_lines(ls, DiffKind::Meta)
            &&& count_kind(rows, DiffKind::Changed) + count_kind(rows, DiffKind::Added)
                == count_lines(ls, DiffKind::Added)
            &&& count_kind(rows, DiffKind::Changed) + count_kind(rows, DiffKind::Removed)
                == count_lines(ls, DiffKind::Removed)
        }),
{
    let ls = text::lines(p);
    lemma_run_counts(ls);
    let st = run(ls);
    lemma_flushed_counts(st, DiffKind::Changed);
    lemma_flushed_counts(st, DiffKind::Hunk);
    lemma_flushed_counts(st, DiffKind::Meta);
    lemma_flushed_counts(st, DiffKind::Context);
}


/// The old line numbers of the rows that carry one, in row order.
pub open spec fn old_numbers(rows: Seq<DiffRowView>) -> Seq<int>
    decreases rows.len(),
{
    if rows.len() == 0 {
        Seq::<int>::empty()
    } else {
        old_numbers(rows.drop_last()) + match rows.last().old_line {
            Some(n) => seq![n],
            None => Seq::<int>::empty(),
        }
    }
}

/// The new line numbers of the rows that carry one, in row order.
pub open spec fn new_numbers(rows: Seq<DiffRowView>) -> Seq<int>
    decreases rows.len(),
{
    if rows.len() == 0 {
        Seq::<int>::empty()
    } else {
        new_numbers(rows.drop_last()) + match rows.last().new_line {
            Some(n) => seq![n],
            None => Seq::<int>::empty(),
        }
    }
}

proof fn lemma_numbers_append(a: Seq<DiffRowView>, b: Seq<DiffRowView>)
    ensures
        old_numbers(a + b) == old_numbers(a) + old_numbers(b),
        new_numbers(a + b) == new_numbers(a) + new_numbers(b),
    decreases b.len(),
{
    if b.len() == 0 {
        assert(a + b =~= a);
        assert(old_numbers(a) + old_numbers(b) =~= old_numbers(a));
        assert(new_numbers(a) + new_numbers(b) =~= new_numbers(a));
    } else {
        assert((a + b).drop_last() =~= a + b.drop_last());
        lemma_numbers_append(a, b.drop_last());
        assert(old_numbers(a + b) =~= old_numbers(a) + old_numbers(b));
        assert(new_numbers(a + b) =~= new_numbers(a) + new_numbers(b));
    }
}

/// The line numbers of pending lines.
spec fn pending_numbers(v: Seq<PendingView>) -> Seq<int> {
    v.map_values(|p: PendingView| p.0)
}

proof fn lemma_block_prefix_numbers(r: Seq<PendingView>, a: Seq<PendingView>, n: int)
    requires
        0 <= n,
        n <= r.len() || n <= a.len(),
    ensures
        old_numbers(block_prefix(r, a, n)) == pending_numbers(r).take(min_int(n, r.len() as int)),
        new_numbers(block_prefix(r, a, n)) == pending_numbers(a).take(min_int(n, a.len() as int)),
    decreases n,
{
    if n > 0 {
        assert(block_prefix(r, a, n).drop_last() =~= block_prefix(r, a, n - 1));
        lemma_block_prefix_numbers(r, a, n - 1);
        assert(old_numbers(block_prefix(r, a, n)) =~= pending_numbers(r).take(min_int(n, r.len() as int)));
        assert(new_numbers(block_prefix(r, a, n)) =~= pending_numbers(a).take(min_int(n, a.len() as int)));
    }
}

proof fn lemma_flushed_numbers(st: PatchState)
    ensures
        old_numbers(flushed(st).rows) == old_numbers(st.rows) + pending_numbers(st.removed),
        new_numbers(flushed(st).rows) == new_numbers(st.rows) + pending_numbers(st.added),
{
    let n = if st.removed.len() >= st.added.len() { st.removed.len() } else { st.added.len() };
    assert(block_rows(st.removed, st.added) =~= block_prefix(st.removed, st.added, n as int));
    lemma_block_prefix_numbers(st.removed, st.added, n as int);
    assert(pending_numbers(st.removed).take(st.removed.len() as int) =~= pending_numbers(st.removed));
    assert(pending_numbers(st.added).take(st.added.len() as int) =~= pending_numbers(st.added));
    lemma_numbers_append(st.rows, block_rows(st.removed, st.added));
}

/// `s` counts up by one from `a`.
pub open spec fn counts_up_from(s: Seq<int>, a: int) -> bool {
    forall|i: int| 0 <= i < s.len() ==> #[trigger] s[i] == a + i
}

/// The numbering invariant of a run inside one hunk that started at old
/// line `a` and new line `b`.
spec fn numbered_from(st: PatchState, a: int, b: int) -> bool {
    &&& counts_up_from(old_numbers(st.rows) + pending_numbers(st.removed), a)
    &&& st.old_line == a + old_numbers(st.rows).len() + st.removed.len()
    &&& counts_up_from(new_numbers(st.rows) + pending_numbers(st.added), b)
    &&& st.new_line == b + new_numbers(st.rows).len() + st.added.len()
}

proof fn lemma_run_numbered(ls: Seq<Seq<char>>, a: int, b: int)
    requires
        ls.len() > 0,
        text::has_prefix(ls[0], "@@"@),
        hunk_header_spec(ls[0]) matches Some((o, n)) && o == a && n == b,
        forall|j: int| 1 <= j < ls.len() ==> !text::has_prefix(#[trigger] ls[j], "@@"@),
    ensures
        numbered_from(run(ls), a, b),
    decreases ls.len(),
{
    let st0 = run(ls.drop_last());
    let line = ls.last();
    let n = run(ls);
    if ls.len() == 1 {
        assert(ls.drop_last() =~= Seq::<Seq<char>>::empty());
        assert(line == ls[0]);
        let f = flushed(start_state());
        assert(block_rows(start_state().removed, start_state().added) =~= Seq::<DiffRowView>::empty());
        assert(f.rows =~= Seq::<DiffRowView>::empty());
        assert(n.rows.drop_last() =~= f.rows);
        assert(old_numbers(n.rows) =~= Seq::<int>::empty());
        assert(new_numbers(n.rows) =~= Seq::<int>::empty());
        assert(pending_numbers(n.removed) =~= Seq::<int>::empty());
        assert(pending_numbers(n.added) =~= Seq::<int>::empty());
        assert(old_numbers(n.rows) + pending_numbers(n.removed) =~= Seq::<int>::empty());
        assert(new_numbers(n.rows) + pending_numbers(n.added) =~= Seq::<int>::empty());
    } else {
        assert forall|j: int| 1 <= j < ls.drop_last().len() implies !text::has_prefix(
            #[trigger] ls.drop_last()[j],
            "@@"@,
        ) by {
            assert(ls.drop_last()[j] == ls[j]);
        }
        lemma_run_numbered(ls.drop_last(), a, b);
        assert(!text::has_prefix(ls[ls.len() - 1], "@@"@));
        assert(line == ls[ls.len() - 1]);
        let po = old_numbers(st0.rows) + pending_numbers(st0.removed);
        let pn = new_numbers(st0.rows) + pending_numbers(st0.added);
        if is_added_line(line) {
            assert(n.rows == st0.rows);
            assert(pending_numbers(n.added) =~= pending_numbers(st0.added).push(st0.new_line));
            assert(new_numbers(n.rows) + pending_numbers(n.added) =~= pn.push(st0.new_line));
            assert(pending_numbers(n.removed) == pending_numbers(st0.removed));
        } else if is_removed_line(line) {
            assert(n.rows == st0.rows);
            assert(pending_numbers(n.removed) =~= pending_numbers(st0.removed).push(st0.old_line));
            assert(old_numbers(n.rows) + pending_numbers(n.removed) =~= po.push(st0.old_line));
            assert(pending_numbers(n.added) == pending_numbers(st0.added));
        } else {
            let f = flushed(st0);
            lemma_flushed_numbers(st0);
            let row = n.rows.last();
            assert(n.rows.drop_last() =~= f.rows);
            assert(pending_numbers(n.removed) =~= Seq::<int>::empty());
            assert(pending_numbers(n.added) =~= Seq::<int>::empty());
            if text::has_prefix(line, " "@) {
                assert(old_numbers(n.rows) =~= po.push(st0.old_line));
                assert(new_numbers(n.rows) =~= pn.push(st0.new_line));
                assert(old_numbers(n.rows) + pending_numbers(n.removed) =~= po.push(st0.old_line));
                assert(new_numbers(n.rows) + pending_numbers(n.added) =~= pn.push(st0.new_line));
            } else {
                assert(old_numbers(n.rows) =~= po);
                assert(new_numbers(n.rows) =~= pn);
                assert(old_numbers(n.rows) + pending_numbers(n.removed) =~= po);
                assert(new_numbers(n.rows) + pending_numbers(n.added) =~= pn);
            }
        }
    }
}

/// Inside one hunk the line numbers count up by one: for a patch whose
/// first line is the hunk header `@@ -a.. +b.. @@` and which has no other
/// header, the old numbers of the rows that carry one are `a, a+1, ...` in
/// row order, and their new numbers `b, b+1, ...`.
pub proof fn lemma_hunk_numbers_consecutive(p: Seq<char>, a: int, b: int)
    requires
        text::lines(p).len() > 0,
        text::has_prefix(text::lines(p)[0], "@@"@),
        hunk_header_spec(text::lines(p)[0]) matches Some((o, n)) && o == a && n == b,
        forall|j: int| 1 <= j < text::lines(p).len() ==> !text::has_prefix(#[trigger] text::lines(p)[j], "@@"@),
    ensures
        counts_up_from(old_numbers(parse_patch_spec(Some(p))), a),
        counts_up_from(new_numbers(parse_patch_spec(Some(p))), b),
{
    let ls = text::lines(p);
    lemma_run_numbered(ls, a, b);
    lemma_flushed_numbers(run(ls));
}


} // verus!
