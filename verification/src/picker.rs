//! The label and assignee pickers: a list of options kept in ASCII
//! case-insensitive order without case-insensitive repeats, a set of chosen
//! options (by lower-case name), a highlighted option and a filter query.
use vstd::prelude::*;

use crate::app::View;
use vstd::view::View as _;
use crate::keybinds::{KeyCode, KeyMods, KeyPress};
use crate::metadata;
use crate::text;
use crate::text::{
    append_chars, chars_lt, chars_of, contains_chars, eq_ignore_case_chars, lower_chars, split_chars,
    string_of, trim_chars,
};

verus! {

broadcast use vstd::string::group_string_axioms;

// ---------------------------------------------------------------------------
// Order and lists
// ---------------------------------------------------------------------------

/// The sort key of an option: its ASCII lower-case form.
pub open spec fn key(s: Seq<char>) -> Seq<char> {
    text::lower(s)
}

/// Strictly increasing by key, so no two entries are equal ignoring ASCII case.
pub open spec fn sorted_by_key(v: Seq<Seq<char>>) -> bool {
    forall|i: int, j: int| 0 <= i < j < v.len() ==> text::text_lt(#[trigger] key(v[i]), #[trigger] key(v[j]))
}

/// No two entries are equal ignoring ASCII case.
pub open spec fn distinct_ignoring_case(v: Seq<Seq<char>>) -> bool {
    forall|i: int, j: int| 0 <= i < j < v.len() ==> !text::eq_ignore_case(#[trigger] v[i], #[trigger] v[j])
}

/// `r` is `v` put in key order.
pub open spec fn key_sorted_arrangement(r: Seq<Seq<char>>, v: Seq<Seq<char>>) -> bool {
    &&& r.len() == v.len()
    &&& sorted_by_key(r)
    &&& forall|x: Seq<char>| r.contains(x) <==> v.contains(x)
}

/// The first of each group of entries equal ignoring ASCII case, in order.
pub open spec fn first_of_each_key(v: Seq<Seq<char>>) -> Seq<Seq<char>>
    decreases v.len(),
{
    if v.len() == 0 {
        Seq::empty()
    } else {
        let prev = first_of_each_key(v.drop_last());
        if metadata::has_ignore_case(prev, v.last()) {
            prev
        } else {
            prev.push(v.last())
        }
    }
}

/// `options` followed by the new values that are not blank and not equal,
/// ignoring ASCII case, to an option or an earlier value.
pub open spec fn merged_options(options: Seq<Seq<char>>, values: Seq<Seq<char>>) -> Seq<Seq<char>>
    decreases values.len(),
{
    if values.len() == 0 {
        options
    } else {
        let prev = merged_options(options, values.drop_last());
        let v = values.last();
        if text::trim(v).len() == 0 || metadata::has_ignore_case(prev, v) {
            prev
        } else {
            prev.push(v)
        }
    }
}

/// A list in key order has no two entries equal ignoring ASCII case.
pub proof fn lemma_sorted_is_distinct(v: Seq<Seq<char>>)
    requires
        sorted_by_key(v),
    ensures
        distinct_ignoring_case(v),
{
    assert forall|i: int, j: int| 0 <= i < j < v.len() implies !text::eq_ignore_case(#[trigger] v[i], #[trigger] v[j]) by {
        assert(text::text_lt(key(v[i]), key(v[j])));
        if text::eq_ignore_case(v[i], v[j]) {
            text::lemma_text_lt_irreflexive(key(v[i]));
        }
    }
}

/// Keeping the first of each key leaves no two entries equal ignoring case.
pub proof fn lemma_first_of_each_key_distinct(v: Seq<Seq<char>>)
    ensures
        distinct_ignoring_case(first_of_each_key(v)),
        forall|x: Seq<char>| #[trigger] first_of_each_key(v).contains(x) ==> v.contains(x),
    decreases v.len(),
{
    if v.len() > 0 {
        let prev = first_of_each_key(v.drop_last());
        lemma_first_of_each_key_distinct(v.drop_last());
        assert forall|x: Seq<char>| #[trigger] first_of_each_key(v).contains(x) implies v.contains(x) by {
            if prev.contains(x) {
                let k = choose|k: int| 0 <= k < v.drop_last().len() && v.drop_last()[k] == x;
                assert(v[k] == x);
            } else {
                assert(v[v.len() - 1] == x);
            }
        }
        if !metadata::has_ignore_case(prev, v.last()) {
            lemma_push_keeps_distinct(prev, v.last());
        }
    }
}

/// Merging new values into a list without case-insensitive repeats keeps it so.
pub proof fn lemma_merged_options_distinct(options: Seq<Seq<char>>, values: Seq<Seq<char>>)
    requires
        distinct_ignoring_case(options),
    ensures
        distinct_ignoring_case(merged_options(options, values)),
    decreases values.len(),
{
    if values.len() > 0 {
        let prev = merged_options(options, values.drop_last());
        lemma_merged_options_distinct(options, values.drop_last());
        let v = values.last();
        if !(text::trim(v).len() == 0 || metadata::has_ignore_case(prev, v)) {
            lemma_push_keeps_distinct(prev, v);
        }
    }
}

proof fn lemma_push_keeps_distinct(prev: Seq<Seq<char>>, v: Seq<char>)
    requires
        distinct_ignoring_case(prev),
        !metadata::has_ignore_case(prev, v),
    ensures
        distinct_ignoring_case(prev.push(v)),
{
    let r = prev.push(v);
    assert forall|i: int, j: int| 0 <= i < j < r.len() implies !text::eq_ignore_case(#[trigger] r[i], #[trigger] r[j]) by {
        assert(r[i] == prev[i]);
        if j == prev.len() {
            if text::eq_ignore_case(r[i], r[j]) {
                assert(text::eq_ignore_case(prev[i], v));
            }
        } else {
            assert(r[j] == prev[j]);
        }
    }
}

/// The key of a string, lower-cased.
fn key_of(s: &str) -> (r: Vec<char>)
    ensures
        r@ == key(s@),
{
    let c = chars_of(s);
    lower_chars(c.as_slice())
}

/// Never decreasing by key.
pub open spec fn keys_ascending(v: Seq<Seq<char>>) -> bool {
    forall|i: int, j: int| 0 <= i < j < v.len() ==> !text::text_lt(#[trigger] key(v[j]), #[trigger] key(v[i]))
}

/// The entries of `v` whose key is `k`, in order.
pub open spec fn with_key(v: Seq<Seq<char>>, k: Seq<char>) -> Seq<Seq<char>> {
    v.filter(|x: Seq<char>| key(x) == k)
}

/// `r` is `v` sorted by key, stably: never decreasing by key, and the
/// entries of each key in the order they had in `v`.
pub open spec fn stably_sorted_by_key(r: Seq<Seq<char>>, v: Seq<Seq<char>>) -> bool {
    &&& keys_ascending(r)
    &&& forall|k: Seq<char>| #[trigger] with_key(r, k) == with_key(v, k)
}

/// The entries of a list whose keys are all other than `k` have none with key `k`.
proof fn lemma_with_key_none(v: Seq<Seq<char>>, k: Seq<char>)
    requires
        forall|q: int| 0 <= q < v.len() ==> key(#[trigger] v[q]) != k,
    ensures
        with_key(v, k) == Seq::<Seq<char>>::empty(),
{
    let f = with_key(v, k);
    if f.len() > 0 {
        v.lemma_filter_pred(|x: Seq<char>| key(x) == k, 0);
        v.lemma_filter_contains_rev(|x: Seq<char>| key(x) == k, f[0]);
        assert(f.contains(f[0]));
        let q = choose|q: int| 0 <= q < v.len() && v[q] == f[0];
        assert(key(v[q]) != k);
    }
    assert(f =~= Seq::<Seq<char>>::empty());
}

/// `v` put in key order, stably (`stably_sorted_by_key`); when no two
/// entries are equal ignoring case, strictly in key order.
pub fn sort_by_key(v: Vec<String>) -> (r: Vec<String>)
    ensures
        stably_sorted_by_key(text::string_views(r@), text::string_views(v@)),
        r.len() == v.len(),
        forall|x: Seq<char>| text::string_views(r@).contains(x) <==> text::string_views(v@).contains(x),
        distinct_ignoring_case(text::string_views(v@)) ==> key_sorted_arrangement(
            text::string_views(r@),
            text::string_views(v@),
        ),
{
    let ghost vv = text::string_views(v@);
    let mut out: Vec<String> = Vec::new();
    let mut keys: Vec<Vec<char>> = Vec::new();
    let mut i: usize = 0;
    proof {
        assert forall|k: Seq<char>| #[trigger] with_key(text::string_views(out@), k) == with_key(vv.take(0), k) by {
            lemma_with_key_none(text::string_views(out@), k);
            lemma_with_key_none(vv.take(0), k);
        }
    }
    while i < v.len()
        invariant
            i <= v.len(),
            vv == text::string_views(v@),
            out.len() == i,
            keys.len() == i,
            forall|q: int| 0 <= q < i ==> #[trigger] keys@[q]@ == key(text::string_views(out@)[q]),
            keys_ascending(text::string_views(out@)),
            distinct_ignoring_case(vv) ==> sorted_by_key(text::string_views(out@)),
            forall|x: Seq<char>| text::string_views(out@).contains(x) <==> vv.take(i as int).contains(x),
            forall|k: Seq<char>| #[trigger] with_key(text::string_views(out@), k) == with_key(vv.take(i as int), k),
        decreases v.len() - i,
    {
        let ghost ov = text::string_views(out@);
        let k = key_of(v[i].as_str());
        assert(vv[i as int] == v@[i as int]@);
        let mut p: usize = 0;
        while p < out.len() && !chars_lt(k.as_slice(), keys[p].as_slice())
            invariant
                p <= out.len(),
                out.len() == i,
                keys.len() == i,
                ov == text::string_views(out@),
                forall|q: int| 0 <= q < i ==> #[trigger] keys@[q]@ == key(ov[q]),
                forall|q: int| 0 <= q < p ==> !text::text_lt(k@, #[trigger] key(ov[q])),
            decreases out.len() - p,
        {
            p = p + 1;
        }
        // Every entry from `p` on has a larger key than the new one.
        assert forall|q: int| p <= q < i implies text::text_lt(k@, #[trigger] key(ov[q])) by {
            assert(text::text_lt(k@, key(ov[p as int])));
            if q > p {
                assert(!text::text_lt(key(ov[q]), key(ov[p as int])));
                if key(ov[q]) != key(ov[p as int]) {
                    text::lemma_text_lt_total(key(ov[q]), key(ov[p as int]));
                    text::lemma_text_lt_transitive(k@, key(ov[p as int]), key(ov[q]));
                }
            }
        }
        // With no repeats, every entry before `p` has a smaller key.
        assert(distinct_ignoring_case(vv) ==> forall|q: int| 0 <= q < p ==> text::text_lt(#[trigger] key(ov[q]), k@))
            by {
            if distinct_ignoring_case(vv) {
                assert forall|q: int| 0 <= q < p implies text::text_lt(#[trigger] key(ov[q]), k@) by {
                    assert(ov.contains(ov[q]));
                    assert(vv.take(i as int).contains(ov[q]));
                    let j = choose|j: int| 0 <= j < i && vv.take(i as int)[j] == ov[q];
                    assert(vv[j] == ov[q]);
                    assert(!text::eq_ignore_case(vv[j], vv[i as int]));
                    assert(key(ov[q]) != k@);
                    text::lemma_text_lt_total(k@, key(ov[q]));
                }
            }
        }
        let s = v[i].clone();
        out.insert(p, s);
        keys.insert(p, k);
        let ghost nv = text::string_views(out@);
        let ghost x = vv[i as int];
        assert(nv =~= ov.insert(p as int, x));
        assert forall|q: int| 0 <= q < i + 1 implies #[trigger] keys@[q]@ == key(nv[q]) by {
            if q < p {
                assert(nv[q] == ov[q]);
            } else if q > p {
                assert(nv[q] == ov[q - 1]);
            }
        }
        assert forall|a: int, b: int| 0 <= a < b < nv.len() implies !text::text_lt(#[trigger] key(nv[b]), #[trigger] key(nv[a])) by {
            if b < p {
                assert(nv[a] == ov[a] && nv[b] == ov[b]);
            } else if b == p {
                assert(nv[a] == ov[a]);
            } else if a == p {
                assert(nv[b] == ov[b - 1]);
                if text::text_lt(key(ov[b - 1]), k@) {
                    text::lemma_text_lt_transitive(k@, key(ov[b - 1]), k@);
                    text::lemma_text_lt_irreflexive(k@);
                }
            } else if a < p {
                assert(nv[a] == ov[a] && nv[b] == ov[b - 1]);
                assert(text::text_lt(k@, key(ov[b - 1])));
                if text::text_lt(key(ov[b - 1]), key(ov[a])) {
                    if key(ov[a]) == k@ {
                        text::lemma_text_lt_transitive(k@, key(ov[b - 1]), k@);
                        text::lemma_text_lt_irreflexive(k@);
                    } else {
                        text::lemma_text_lt_total(k@, key(ov[a]));
                        text::lemma_text_lt_transitive(key(ov[b - 1]), key(ov[a]), k@);
                        text::lemma_text_lt_transitive(k@, key(ov[b - 1]), k@);
                        text::lemma_text_lt_irreflexive(k@);
                    }
                }
            } else {
                assert(nv[a] == ov[a - 1] && nv[b] == ov[b - 1]);
            }
        }
        assert(distinct_ignoring_case(vv) ==> sorted_by_key(nv)) by {
            if distinct_ignoring_case(vv) {
                assert forall|a: int, b: int| 0 <= a < b < nv.len() implies text::text_lt(
                    #[trigger] key(nv[a]),
                    #[trigger] key(nv[b]),
                ) by {
                    if b < p {
                        assert(nv[a] == ov[a] && nv[b] == ov[b]);
                    } else if b == p {
                        assert(nv[a] == ov[a]);
                    } else if a == p {
                        assert(nv[b] == ov[b - 1]);
                    } else if a < p {
                        assert(nv[a] == ov[a] && nv[b] == ov[b - 1]);
                        assert(text::text_lt(key(ov[a]), k@));
                        assert(text::text_lt(k@, key(ov[b - 1])));
                        text::lemma_text_lt_transitive(key(ov[a]), k@, key(ov[b - 1]));
                    } else {
                        assert(nv[a] == ov[a - 1] && nv[b] == ov[b - 1]);
                    }
                }
            }
        }
        let ghost t0 = vv.take(i as int);
        let ghost t1 = vv.take(i + 1);
        assert(t1 =~= t0.push(x));
        assert forall|y: Seq<char>| nv.contains(y) <==> t1.contains(y) by {
            if nv.contains(y) {
                let q = choose|q: int| 0 <= q < nv.len() && nv[q] == y;
                if q < p {
                    assert(ov[q] == y);
                    assert(ov.contains(y));
                } else if q > p {
                    assert(ov[q - 1] == y);
                    assert(ov.contains(y));
                }
                if y != x {
                    assert(t0.contains(y));
                    let j = choose|j: int| 0 <= j < i && t0[j] == y;
                    assert(t1[j] == y);
                } else {
                    assert(t1[i as int] == y);
                }
            }
            if t1.contains(y) {
                let j = choose|j: int| 0 <= j < i + 1 && t1[j] == y;
                if j == i {
                    assert(nv[p as int] == y);
                } else {
                    assert(t0[j] == y);
                    assert(ov.contains(y));
                    let q = choose|q: int| 0 <= q < ov.len() && ov[q] == y;
                    if q < p {
                        assert(nv[q] == y);
                    } else {
                        assert(nv[q + 1] == y);
                    }
                }
            }
        }
        // The entries of each key keep their order, the new one last of its key.
        let ghost front = ov.take(p as int);
        let ghost back = ov.skip(p as int);
        assert(ov =~= front + back);
        assert(nv =~= front.push(x) + back);
        assert forall|kk: Seq<char>| #[trigger] with_key(nv, kk) == with_key(t1, kk) by {
            let pred = |y: Seq<char>| key(y) == kk;
            Seq::filter_distributes_over_add(front, back, pred);
            Seq::filter_distributes_over_add(front.push(x), back, pred);
            front.lemma_filter_push(x, pred);
            t0.lemma_filter_push(x, pred);
            assert(with_key(ov, kk) == with_key(t0, kk));
            if key(x) == kk {
                assert forall|q: int| 0 <= q < back.len() implies key(#[trigger] back[q]) != kk by {
                    assert(back[q] == ov[p + q]);
                    assert(text::text_lt(k@, key(ov[p + q])));
                    text::lemma_text_lt_irreflexive(k@);
                }
                lemma_with_key_none(back, kk);
                assert(with_key(back, kk) =~= Seq::<Seq<char>>::empty());
                assert(with_key(nv, kk) =~= with_key(front, kk).push(x));
                assert(with_key(ov, kk) =~= with_key(front, kk));
            } else {
                assert(with_key(nv, kk) =~= with_key(ov, kk));
            }
        }
        i = i + 1;
    }
    assert(vv.take(v.len() as int) =~= vv);
    out
}

// ---------------------------------------------------------------------------
// Filtering and choosing
// ---------------------------------------------------------------------------

/// The query an option filter matches with: trimmed and lower-cased.
pub open spec fn filter_query(query: Seq<char>) -> Seq<char> {
    key(text::trim(query))
}

/// An option is listed under a filter: the filter is empty, or the option's
/// lower-case form contains it.
pub open spec fn shown(option: Seq<char>, q: Seq<char>) -> bool {
    q.len() == 0 || text::has_sub(key(option), q)
}

/// The positions of the options listed under filter `q`, in order.
pub open spec fn filtered_spec(options: Seq<Seq<char>>, q: Seq<char>) -> Seq<usize>
    decreases options.len(),
{
    if options.len() == 0 {
        Seq::empty()
    } else {
        let prev = filtered_spec(options.drop_last(), q);
        if shown(options.last(), q) {
            prev.push((options.len() - 1) as usize)
        } else {
            prev
        }
    }
}

/// The first entry, or `d` when there is none.
pub open spec fn first_or(s: Seq<usize>, d: usize) -> usize {
    if s.len() > 0 {
        s[0]
    } else {
        d
    }
}

/// Some comma-separated piece, trimmed and lower-cased, is the non-empty key `k`.
pub open spec fn csv_has_key(parts: Seq<Seq<char>>, k: Seq<char>) -> bool {
    k.len() > 0 && exists|i: int| 0 <= i < parts.len() && #[trigger] key(text::trim(parts[i])) == k
}

/// The options whose key is chosen, in order.
pub open spec fn chosen(options: Seq<Seq<char>>, selection: Seq<Seq<char>>) -> Seq<Seq<char>>
    decreases options.len(),
{
    if options.len() == 0 {
        Seq::empty()
    } else {
        let prev = chosen(options.drop_last(), selection);
        if selection.contains(key(options.last())) {
            prev.push(options.last())
        } else {
            prev
        }
    }
}

/// The pieces trimmed, without the empty ones.
pub open spec fn nonblank_trimmed(parts: Seq<Seq<char>>) -> Seq<Seq<char>>
    decreases parts.len(),
{
    if parts.len() == 0 {
        Seq::empty()
    } else {
        let prev = nonblank_trimmed(parts.drop_last());
        let t = text::trim(parts.last());
        if t.len() > 0 {
            prev.push(t)
        } else {
            prev
        }
    }
}

/// A character that moves the highlight while the filter is empty.
pub open spec fn is_nav_char(ch: char) -> bool {
    ch == 'j' || ch == 'k' || ch == 'g' || ch == 'G'
}

/// Control is held and the key is `u`: clear the filter.
pub open spec fn is_clear_key(key: KeyPress) -> bool {
    key.modifiers.control && key.code == KeyCode::Char('u')
}

/// The filter box takes the key press when its query is `q`.
pub open spec fn filter_takes(q: Seq<char>, key: KeyPress) -> bool {
    if is_clear_key(key) {
        true
    } else {
        match key.code {
            KeyCode::Backspace => true,
            KeyCode::Char(ch) => (key.modifiers == crate::keybinds::no_mods() || key.modifiers == (KeyMods {
                shift: true,
                ..crate::keybinds::no_mods()
            })) && !(q.len() == 0 && is_nav_char(ch)),
            _ => false,
        }
    }
}

/// The query after the filter box took the key press.
pub open spec fn filter_query_after(q: Seq<char>, key: KeyPress) -> Seq<char> {
    if is_clear_key(key) {
        Seq::empty()
    } else if !filter_takes(q, key) {
        q
    } else {
        match key.code {
            KeyCode::Backspace => if q.len() > 0 {
                q.drop_last()
            } else {
                q
            },
            KeyCode::Char(ch) => q.push(ch),
            _ => q,
        }
    }
}

/// `after` holds what `before` holds, except that `k` is flipped: added
/// when it was missing and removed when it was there.
pub open spec fn flips(before: Seq<Seq<char>>, after: Seq<Seq<char>>, k: Seq<char>) -> bool {
    forall|x: Seq<char>| #[trigger] after.contains(x) <==> (if x == k {
        !before.contains(x)
    } else {
        before.contains(x)
    })
}

/// Every listed position is an option.
proof fn lemma_filtered_in_range(options: Seq<Seq<char>>, q: Seq<char>)
    ensures
        forall|j: int| 0 <= j < filtered_spec(options, q).len() ==> #[trigger] filtered_spec(options, q)[j] < options.len(),
    decreases options.len(),
{
    if options.len() > 0 {
        lemma_filtered_in_range(options.drop_last(), q);
        let prev = filtered_spec(options.drop_last(), q);
        if shown(options.last(), q) {
            assert forall|j: int| 0 <= j < filtered_spec(options, q).len() implies #[trigger] filtered_spec(options, q)[j]
                < options.len() by {
                if j < prev.len() {
                    assert(filtered_spec(options, q)[j] == prev[j]);
                }
            }
        }
    }
}

/// The first position in `s` that holds `x`.
pub open spec fn first_index(s: Seq<usize>, x: usize) -> Option<int>
    decreases s.len(),
{
    if s.len() == 0 {
        None
    } else {
        match first_index(s.drop_last(), x) {
            Some(j) => Some(j),
            None => if s.last() == x {
                Some(s.len() - 1)
            } else {
                None
            },
        }
    }
}

/// Where in the listing `s` the highlight `x` is, or the top when it is not listed.
pub open spec fn listing_position(s: Seq<usize>, x: usize) -> int {
    match first_index(s, x) {
        Some(j) => j,
        None => 0,
    }
}

/// The highlight after moving one listed option down (or up), staying on
/// the listing; unchanged when nothing is listed.
pub open spec fn cursor_moved(s: Seq<usize>, x: usize, down: bool) -> usize {
    if s.len() == 0 {
        x
    } else {
        let p = listing_position(s, x);
        if down {
            if p + 1 < s.len() { s[p + 1] } else { s[s.len() - 1] }
        } else {
            if p > 0 { s[p - 1] } else { s[0] }
        }
    }
}

/// A first index found is a position of `x`.
proof fn lemma_first_index_in_range(s: Seq<usize>, x: usize)
    ensures
        first_index(s, x) matches Some(j) ==> 0 <= j < s.len() && s[j] == x,
    decreases s.len(),
{
    if s.len() > 0 {
        lemma_first_index_in_range(s.drop_last(), x);
    }
}

/// Where `x` is in `s`, or 0.
fn listing_position_of(s: &Vec<usize>, x: usize) -> (r: usize)
    ensures
        r == listing_position(s@, x),
{
    let mut found: Option<usize> = None;
    let mut i: usize = 0;
    while i < s.len()
        invariant
            i <= s.len(),
            match found {
                Some(j) => first_index(s@.take(i as int), x) == Some(j as int),
                None => first_index(s@.take(i as int), x) is None,
            },
        decreases s.len() - i,
    {
        assert(s@.take(i + 1).drop_last() =~= s@.take(i as int));
        if found.is_none() && s[i] == x {
            found = Some(i);
        }
        i = i + 1;
    }
    assert(s@.take(s.len() as int) =~= s@);
    match found {
        Some(j) => j,
        None => 0,
    }
}

/// A list of options to choose from, with its chosen set, highlight and filter.
pub struct OptionPicker {
    options: Vec<String>,
    selected: Vec<Vec<char>>,
    cursor: usize,
    query: String,
}

/// `b` is `a` with the highlighted option chosen or unchosen, when the
/// filter lists it; nothing else changes.
pub open spec fn toggled(a: OptionPicker, b: OptionPicker) -> bool {
    &&& b.options_view() == a.options_view()
    &&& b.cursor_spec() == a.cursor_spec()
    &&& b.query_view() == a.query_view()
    &&& {
        let c = a.cursor_spec();
        let listed = filtered_spec(a.options_view(), filter_query(a.query_view()));
        if listed.contains(c) && c < a.options_view().len() {
            flips(a.selection(), b.selection(), key(a.options_view()[c as int]))
        } else {
            b.selection() == a.selection()
        }
    }
}

impl OptionPicker {
    /// The options, in key order.
    pub closed spec fn options_view(&self) -> Seq<Seq<char>> {
        text::string_views(self.options@)
    }

    /// The lower-case names of the chosen options.
    pub closed spec fn selection(&self) -> Seq<Seq<char>> {
        text::views(self.selected@)
    }

    /// The position of the highlighted option.
    pub closed spec fn cursor_spec(&self) -> usize {
        self.cursor
    }

    /// The filter query as typed.
    pub closed spec fn query_view(&self) -> Seq<char> {
        self.query@
    }

    /// The options are in key order and no name is chosen twice.
    pub open spec fn wf(&self) -> bool {
        &&& sorted_by_key(self.options_view())
        &&& self.selection().no_duplicates()
    }

    /// An empty picker.
    pub fn new() -> (r: Self)
        ensures
            r.wf(),
            r.options_view().len() == 0,
            r.selection().len() == 0,
            r.cursor_spec() == 0,
            r.query_view().len() == 0,
    {
        OptionPicker { options: Vec::new(), selected: Vec::new(), cursor: 0, query: String::new() }
    }

    /// The options, in key order.
    pub fn options(&self) -> (r: &[String])
        ensures
            text::string_views(r@) == self.options_view(),
    {
        self.options.as_slice()
    }

    /// The position of the highlighted option.
    pub fn cursor(&self) -> (r: usize)
        ensures
            r == self.cursor_spec(),
    {
        self.cursor
    }

    /// The filter query as typed.
    pub fn query(&self) -> (r: &str)
        ensures
            r@ == self.query_view(),
    {
        self.query.as_str()
    }

    /// The positions of the options the filter lists: all of them when the
    /// trimmed query is empty, else those whose lower-case form contains the
    /// trimmed, lower-cased query.
    pub fn filtered_indices(&self) -> (r: Vec<usize>)
        ensures
            r@ == filtered_spec(self.options_view(), filter_query(self.query_view())),
    {
        let qc = chars_of(self.query.as_str());
        let qt = trim_chars(qc.as_slice());
        let q = lower_chars(qt.as_slice());
        let ghost ov = self.options_view();
        let mut r: Vec<usize> = Vec::new();
        let mut i: usize = 0;
        while i < self.options.len()
            invariant
                i <= self.options.len(),
                ov == text::string_views(self.options@),
                q@ == filter_query(self.query@),
                r@ == filtered_spec(ov.take(i as int), q@),
            decreases self.options.len() - i,
        {
            assert(ov.take(i + 1).drop_last() =~= ov.take(i as int));
            assert(ov.take(i + 1).last() == self.options@[i as int]@);
            let show = if q.len() == 0 {
                true
            } else {
                let k = key_of(self.options[i].as_str());
                contains_chars(k.as_slice(), q.as_slice())
            };
            if show {
                r.push(i);
            }
            i = i + 1;
        }
        assert(ov.take(self.options.len() as int) =~= ov);
        r
    }

    /// Moves the highlight to the first listed option, if any.
    fn highlight_first_listed(&mut self)
        ensures
            final(self).options_view() == old(self).options_view(),
            final(self).selection() == old(self).selection(),
            final(self).query_view() == old(self).query_view(),
            final(self).cursor_spec() == first_or(
                filtered_spec(old(self).options_view(), filter_query(old(self).query_view())),
                old(self).cursor_spec(),
            ),
    {
        let listed = self.filtered_indices();
        if listed.len() > 0 {
            self.cursor = listed[0];
        }
    }

    /// Whether the option named `name` (in any case) is chosen.
    pub fn option_selected(&self, name: &str) -> (r: bool)
        ensures
            r == self.selection().contains(key(name@)),
    {
        let k = key_of(name);
        self.selected_position(k.as_slice()).is_some()
    }

    /// Where `k` is among the chosen names.
    fn selected_position(&self, k: &[char]) -> (r: Option<usize>)
        ensures
            r is None <==> !self.selection().contains(k@),
            r matches Some(p) ==> p < self.selected.len() && self.selection()[p as int] == k@,
    {
        let ghost sv = self.selection();
        let mut i: usize = 0;
        while i < self.selected.len()
            invariant
                i <= self.selected.len(),
                sv == text::views(self.selected@),
                forall|j: int| 0 <= j < i ==> sv[j] != k@,
            decreases self.selected.len() - i,
        {
            if text::chars_eq(self.selected[i].as_slice(), k) {
                assert(sv[i as int] == k@);
                return Some(i);
            }
            i = i + 1;
        }
        None
    }

    /// Fills the picker: the options put in key order keeping only the first
    /// of those equal ignoring case, nothing highlighted but the first, an
    /// empty filter, and as chosen the trimmed, lower-cased, non-empty pieces
    /// of the comma-separated `current` list.
    pub fn open(&mut self, options: Vec<String>, current: &str)
        ensures
            final(self).wf(),
            key_sorted_arrangement(final(self).options_view(), first_of_each_key(text::string_views(options@))),
            forall|k: Seq<char>| #[trigger] final(self).selection().contains(k) <==> csv_has_key(
                text::split_on(current@, ','),
                k,
            ),
            final(self).cursor_spec() == 0,
            final(self).query_view().len() == 0,
    {
        let firsts = first_of_each(options);
        let sorted = sort_by_key(firsts);
        self.options = sorted;
        self.cursor = 0;
        self.query = String::new();
        self.selected = csv_key_list(current);
    }

    /// Adds new options: each one not blank and not already there ignoring
    /// case, then puts all in key order and highlights the first listed one.
    pub fn merge_options(&mut self, values: Vec<String>)
        requires
            old(self).wf(),
        ensures
            final(self).wf(),
            key_sorted_arrangement(
                final(self).options_view(),
                merged_options(old(self).options_view(), text::string_views(values@)),
            ),
            final(self).selection() == old(self).selection(),
            final(self).query_view() == old(self).query_view(),
            final(self).cursor_spec() == first_or(
                filtered_spec(final(self).options_view(), filter_query(final(self).query_view())),
                old(self).cursor_spec(),
            ),
    {
        proof {
            lemma_sorted_is_distinct(self.options_view());
        }
        let current = self.options.clone();
        assert(current@ =~= self.options@) by {
            assert(forall|i: int| 0 <= i < current.len() ==> current@[i] == self.options@[i]);
        }
        let merged = merge_values(current, values);
        self.options = sort_by_key(merged);
        self.highlight_first_listed();
    }

    /// Moves the highlight to the next (or previous) option the filter
    /// lists, staying on the listing; a highlight off the listing counts as
    /// being on its first option.
    pub fn move_cursor(&mut self, down: bool)
        ensures
            final(self).cursor_spec() == cursor_moved(
                filtered_spec(old(self).options_view(), filter_query(old(self).query_view())),
                old(self).cursor_spec(),
                down,
            ),
            final(self).options_view() == old(self).options_view(),
            final(self).selection() == old(self).selection(),
            final(self).query_view() == old(self).query_view(),
    {
        let listed = self.filtered_indices();
        if listed.len() == 0 {
            return;
        }
        let p = listing_position_of(&listed, self.cursor);
        proof {
            lemma_first_index_in_range(listed@, self.cursor);
        }
        if down {
            self.cursor = if p + 1 < listed.len() { listed[p + 1] } else { listed[listed.len() - 1] };
        } else {
            self.cursor = if p > 0 { listed[p - 1] } else { listed[0] };
        }
    }

    /// Moves the highlight to the first (or last) option the filter lists,
    /// when it lists any.
    pub fn jump_cursor(&mut self, to_top: bool)
        ensures
            ({
                let listed = filtered_spec(old(self).options_view(), filter_query(old(self).query_view()));
                final(self).cursor_spec() == if listed.len() == 0 {
                    old(self).cursor_spec()
                } else if to_top {
                    listed[0]
                } else {
                    listed[listed.len() - 1]
                }
            }),
            final(self).options_view() == old(self).options_view(),
            final(self).selection() == old(self).selection(),
            final(self).query_view() == old(self).query_view(),
    {
        let listed = self.filtered_indices();
        if listed.len() == 0 {
            return;
        }
        self.cursor = if to_top { listed[0] } else { listed[listed.len() - 1] };
    }

    /// A click on the `index`-th listed option highlights it and chooses or
    /// unchooses it; a click past the listing does nothing. Whether an
    /// option was hit.
    pub fn click_option(&mut self, index: usize) -> (hit: bool)
        requires
            old(self).wf(),
        ensures
            final(self).wf(),
            ({
                let listed = filtered_spec(old(self).options_view(), filter_query(old(self).query_view()));
                &&& hit == (index < listed.len())
                &&& !hit ==> *final(self) == *old(self)
                &&& hit ==> final(self).cursor_spec() == listed[index as int]
                    && flips(old(self).selection(), final(self).selection(), key(old(self).options_view()[listed[index as int] as int]))
                    && final(self).options_view() == old(self).options_view()
                    && final(self).query_view() == old(self).query_view()
            }),
    {
        let listed = self.filtered_indices();
        if index >= listed.len() {
            return false;
        }
        self.cursor = listed[index];
        proof {
            lemma_filtered_in_range(self.options_view(), filter_query(self.query_view()));
            assert(listed@.contains(listed@[index as int]));
        }
        self.toggle_selected();
        true
    }

    /// Chooses or unchooses the highlighted option, when it is listed by the filter.
    pub fn toggle_selected(&mut self)
        requires
            old(self).wf(),
        ensures
            final(self).wf(),
            toggled(*old(self), *final(self)),
    {
        let listed = self.filtered_indices();
        let mut shown_here = false;
        let mut i: usize = 0;
        while i < listed.len()
            invariant
                i <= listed.len(),
                shown_here <==> exists|j: int| 0 <= j < i && listed@[j] == self.cursor,
            decreases listed.len() - i,
        {
            if listed[i] == self.cursor {
                shown_here = true;
            }
            i = i + 1;
        }
        if !shown_here {
            return;
        }
        if self.cursor >= self.options.len() {
            return;
        }
        let k = key_of(self.options[self.cursor].as_str());
        let ghost before = self.selection();
        match self.selected_position(k.as_slice()) {
            Some(p) => {
                self.selected.remove(p);
                let ghost after = self.selection();
                assert(after =~= before.remove(p as int));
                assert forall|x: Seq<char>| #[trigger] after.contains(x) <==> (if x == k@ {
                    !before.contains(x)
                } else {
                    before.contains(x)
                }) by {
                    if after.contains(x) {
                        let q = choose|q: int| 0 <= q < after.len() && after[q] == x;
                        if q < p {
                            assert(before[q] == x);
                        } else {
                            assert(before[q + 1] == x);
                        }
                        assert(before.contains(x));
                        if x == k@ {
                            if q < p {
                                assert(before[q] == before[p as int]);
                            } else {
                                assert(before[q + 1] == before[p as int]);
                            }
                        }
                    }
                    if x != k@ && before.contains(x) {
                        let q = choose|q: int| 0 <= q < before.len() && before[q] == x;
                        if q < p {
                            assert(after[q] == x);
                        } else {
                            assert(q != p);
                            assert(after[q - 1] == x);
                        }
                    }
                }
                assert(after.no_duplicates()) by {
                    assert forall|a: int, b: int| 0 <= a < b < after.len() implies after[a] != after[b] by {
                        let a2 = if a < p { a } else { a + 1 };
                        let b2 = if b < p { b } else { b + 1 };
                        assert(after[a] == before[a2] && after[b] == before[b2]);
                    }
                }
            },
            None => {
                self.selected.push(k);
                let ghost after = self.selection();
                assert(after =~= before.push(k@));
                assert forall|x: Seq<char>| #[trigger] after.contains(x) <==> (if x == k@ {
                    !before.contains(x)
                } else {
                    before.contains(x)
                }) by {
                    if after.contains(x) && x != k@ {
                        let q = choose|q: int| 0 <= q < after.len() && after[q] == x;
                        assert(before[q] == x);
                    }
                    if before.contains(x) {
                        let q = choose|q: int| 0 <= q < before.len() && before[q] == x;
                        assert(after[q] == x);
                    }
                    if x == k@ {
                        assert(after[before.len() as int] == x);
                    }
                }
                assert(after.no_duplicates()) by {
                    assert forall|a: int, b: int| 0 <= a < b < after.len() implies after[a] != after[b] by {
                        if b == before.len() {
                            assert(after[a] == before[a]);
                            assert(before.contains(before[a]));
                        } else {
                            assert(after[a] == before[a] && after[b] == before[b]);
                        }
                    }
                }
            },
        }
    }

    /// The chosen options joined by commas, in key order.
    pub fn selected_csv(&self) -> (r: String)
        requires
            self.wf(),
        ensures
            r@ == text::join(chosen(self.options_view(), self.selection()), ','),
    {
        let ghost ov = self.options_view();
        let mut out: Vec<char> = Vec::new();
        let mut count: usize = 0;
        let mut i: usize = 0;
        while i < self.options.len()
            invariant
                i <= self.options.len(),
                ov == text::string_views(self.options@),
                count == chosen(ov.take(i as int), self.selection()).len(),
                count <= i,
                out@ == text::join(chosen(ov.take(i as int), self.selection()), ','),
            decreases self.options.len() - i,
        {
            assert(ov.take(i + 1).drop_last() =~= ov.take(i as int));
            assert(ov.take(i + 1).last() == self.options@[i as int]@);
            if self.option_selected(self.options[i].as_str()) {
                let oc = chars_of(self.options[i].as_str());
                if count > 0 {
                    out.push(',');
                }
                append_chars(&mut out, oc.as_slice());
                let ghost c = chosen(ov.take(i + 1), self.selection());
                assert(c.drop_last() =~= chosen(ov.take(i as int), self.selection()));
                if count > 0 {
                    assert(out@ =~= text::join(c.drop_last(), ',') + seq![','] + c.last());
                } else {
                    assert(out@ =~= c[0]);
                }
                count = count + 1;
            }
            i = i + 1;
        }
        assert(ov.take(self.options.len() as int) =~= ov);
        string_of(out.as_slice())
    }

    /// The chosen options as a list: the comma-separated list split again,
    /// each piece trimmed and the empty ones left out.
    pub fn selected_values(&self) -> (r: Vec<String>)
        requires
            self.wf(),
        ensures
            text::string_views(r@) == nonblank_trimmed(
                text::split_on(text::join(chosen(self.options_view(), self.selection()), ','), ','),
            ),
    {
        let csv = self.selected_csv();
        let all = chars_of(csv.as_str());
        let parts = split_chars(all.as_slice(), ',');
        let ghost pv = text::views(parts@);
        let mut out: Vec<String> = Vec::new();
        let mut i: usize = 0;
        while i < parts.len()
            invariant
                i <= parts.len(),
                pv == text::views(parts@),
                text::string_views(out@) == nonblank_trimmed(pv.take(i as int)),
            decreases parts.len() - i,
        {
            assert(pv.take(i + 1).drop_last() =~= pv.take(i as int));
            assert(pv.take(i + 1).last() == parts@[i as int]@);
            let t = trim_chars(parts[i].as_slice());
            if t.len() > 0 {
                let ghost before = out@;
                out.push(string_of(t.as_slice()));
                assert(text::string_views(out@) =~= text::string_views(before).push(t@));
            }
            i = i + 1;
        }
        assert(pv.take(parts.len() as int) =~= pv);
        out
    }

    /// Feeds a key press to the filter box: control-`u` clears the query,
    /// backspace removes its last character, and a character typed without
    /// modifiers or with shift only is added to it, except `j`, `k`, `g` and
    /// `G` into an empty query, which are left to move the highlight. When
    /// the box takes the key, the first listed option is highlighted.
    /// Whether the box took the key.
    pub fn handle_filter_key(&mut self, key: KeyPress) -> (r: bool)
        ensures
            final(self).options_view() == old(self).options_view(),
            final(self).selection() == old(self).selection(),
            r == filter_takes(old(self).query_view(), key),
            final(self).query_view() == filter_query_after(old(self).query_view(), key),
            r ==> final(self).cursor_spec() == first_or(
                filtered_spec(final(self).options_view(), filter_query(final(self).query_view())),
                old(self).cursor_spec(),
            ),
            !r ==> final(self).cursor_spec() == old(self).cursor_spec(),
    {
        if key.modifiers.control && key.code == KeyCode::Char('u') {
            self.query = String::new();
            self.highlight_first_listed();
            return true;
        }
        match key.code {
            KeyCode::Backspace => {
                let _ = self.query.pop();
                self.highlight_first_listed();
                true
            },
            KeyCode::Char(ch) => {
                if !(key.modifiers.is_empty() || key.modifiers == KeyMods::shift_only()) {
                    return false;
                }
                let typed = chars_of(self.query.as_str());
                let empty = typed.len() == 0;
                if empty && (ch == 'j' || ch == 'k' || ch == 'g' || ch == 'G') {
                    return false;
                }
                self.query.push(ch);
                self.highlight_first_listed();
                true
            },
            _ => false,
        }
    }
}

/// The first of each group of strings equal ignoring ASCII case, in order.
pub fn first_of_each(values: Vec<String>) -> (r: Vec<String>)
    ensures
        text::string_views(r@) == first_of_each_key(text::string_views(values@)),
        distinct_ignoring_case(text::string_views(r@)),
{
    let ghost vv = text::string_views(values@);
    let mut kept: Vec<Vec<char>> = Vec::new();
    let mut out: Vec<String> = Vec::new();
    let mut i: usize = 0;
    while i < values.len()
        invariant
            i <= values.len(),
            vv == text::string_views(values@),
            text::views(kept@) == first_of_each_key(vv.take(i as int)),
            text::string_views(out@) == text::views(kept@),
        decreases values.len() - i,
    {
        assert(vv.take(i + 1).drop_last() =~= vv.take(i as int));
        assert(vv.take(i + 1).last() == values@[i as int]@);
        let c = chars_of(values[i].as_str());
        if !has_ignore_case_in(&kept, c.as_slice()) {
            let ghost bk = kept@;
            let ghost bo = out@;
            out.push(values[i].clone());
            kept.push(c);
            assert(text::views(kept@) =~= text::views(bk).push(kept@.last()@));
            assert(text::string_views(out@) =~= text::string_views(bo).push(out@.last()@));
        }
        i = i + 1;
    }
    assert(vv.take(values.len() as int) =~= vv);
    proof {
        lemma_first_of_each_key_distinct(vv);
    }
    out
}

/// Whether some entry of `list` equals `v` ignoring ASCII case.
fn has_ignore_case_in(list: &Vec<Vec<char>>, v: &[char]) -> (r: bool)
    ensures
        r == metadata::has_ignore_case(text::views(list@), v@),
{
    let mut i: usize = 0;
    while i < list.len()
        invariant
            i <= list.len(),
            forall|j: int| 0 <= j < i ==> !text::eq_ignore_case(#[trigger] text::views(list@)[j], v@),
        decreases list.len() - i,
    {
        if eq_ignore_case_chars(list[i].as_slice(), v) {
            assert(text::eq_ignore_case(text::views(list@)[i as int], v@));
            return true;
        }
        i = i + 1;
    }
    false
}

/// `options` followed by the values not blank and not yet there ignoring case.
fn merge_values(options: Vec<String>, values: Vec<String>) -> (r: Vec<String>)
    requires
        distinct_ignoring_case(text::string_views(options@)),
    ensures
        text::string_views(r@) == merged_options(text::string_views(options@), text::string_views(values@)),
        distinct_ignoring_case(text::string_views(r@)),
{
    let ghost ov = text::string_views(options@);
    let ghost vv = text::string_views(values@);
    let mut kept: Vec<Vec<char>> = Vec::new();
    let mut j: usize = 0;
    while j < options.len()
        invariant
            j <= options.len(),
            ov == text::string_views(options@),
            text::views(kept@) == ov.take(j as int),
        decreases options.len() - j,
    {
        let ghost bk = kept@;
        kept.push(chars_of(options[j].as_str()));
        assert(text::views(kept@) =~= text::views(bk).push(ov[j as int]));
        assert(ov.take(j + 1) =~= ov.take(j as int).push(ov[j as int]));
        j = j + 1;
    }
    assert(ov.take(options.len() as int) =~= ov);
    let mut out = options;
    let mut i: usize = 0;
    while i < values.len()
        invariant
            i <= values.len(),
            vv == text::string_views(values@),
            text::views(kept@) == merged_options(ov, vv.take(i as int)),
            text::string_views(out@) == text::views(kept@),
        decreases values.len() - i,
    {
        assert(vv.take(i + 1).drop_last() =~= vv.take(i as int));
        assert(vv.take(i + 1).last() == values@[i as int]@);
        let c = chars_of(values[i].as_str());
        let t = trim_chars(c.as_slice());
        if t.len() > 0 && !has_ignore_case_in(&kept, c.as_slice()) {
            let ghost bk = kept@;
            let ghost bo = out@;
            out.push(values[i].clone());
            kept.push(c);
            assert(text::views(kept@) =~= text::views(bk).push(kept@.last()@));
            assert(text::string_views(out@) =~= text::string_views(bo).push(out@.last()@));
        }
        i = i + 1;
    }
    assert(vv.take(values.len() as int) =~= vv);
    proof {
        lemma_merged_options_distinct(ov, vv);
    }
    out
}

/// The chosen keys of a comma-separated list: each piece trimmed and
/// lower-cased, empty ones left out, each once.
fn csv_key_list(input: &str) -> (r: Vec<Vec<char>>)
    ensures
        text::views(r@).no_duplicates(),
        forall|k: Seq<char>| #[trigger] text::views(r@).contains(k) <==> csv_has_key(text::split_on(input@, ','), k),
{
    let all = chars_of(input);
    let parts = split_chars(all.as_slice(), ',');
    let ghost pv = text::views(parts@);
    let mut out: Vec<Vec<char>> = Vec::new();
    let mut i: usize = 0;
    while i < parts.len()
        invariant
            i <= parts.len(),
            pv == text::views(parts@),
            pv == text::split_on(input@, ','),
            text::views(out@).no_duplicates(),
            forall|k: Seq<char>| #[trigger] text::views(out@).contains(k) <==> csv_has_key(pv.take(i as int), k),
        decreases parts.len() - i,
    {
        let ghost t0 = pv.take(i as int);
        let ghost t1 = pv.take(i + 1);
        assert(t1.drop_last() =~= t0);
        assert(t1[i as int] == parts@[i as int]@);
        let t = trim_chars(parts[i].as_slice());
        let k = lower_chars(t.as_slice());
        let ghost before = text::views(out@);
        let mut found = false;
        let mut j: usize = 0;
        while j < out.len()
            invariant
                j <= out.len(),
                before == text::views(out@),
                found <==> exists|m: int| 0 <= m < j && before[m] == k@,
            decreases out.len() - j,
        {
            assert(before[j as int] == out@[j as int]@);
            if text::chars_eq(out[j].as_slice(), k.as_slice()) {
                found = true;
            }
            j = j + 1;
        }
        if k.len() > 0 && !found {
            out.push(k);
            let ghost after = text::views(out@);
            assert(after =~= before.push(k@));
            assert(after.no_duplicates()) by {
                assert forall|a: int, b: int| 0 <= a < b < after.len() implies after[a] != after[b] by {
                    if b == before.len() {
                        assert(after[a] == before[a]);
                    } else {
                        assert(after[a] == before[a] && after[b] == before[b]);
                    }
                }
            }
        }
        let ghost now = text::views(out@);
        let ghost pushed = k.len() > 0 && !found;
        assert(pushed ==> now == before.push(k@));
        assert(!pushed ==> now == before);
        assert(k@ == key(text::trim(t1[i as int])));
        assert forall|x: Seq<char>| #[trigger] now.contains(x) implies csv_has_key(t1, x) by {
            if before.contains(x) {
                assert(csv_has_key(t0, x));
                let m = choose|m: int| 0 <= m < t0.len() && #[trigger] key(text::trim(t0[m])) == x;
                assert(t1[m] == t0[m]);
                assert(key(text::trim(t1[m])) == x);
            } else {
                assert(pushed);
                let q = choose|q: int| 0 <= q < now.len() && now[q] == x;
                if q < before.len() {
                    assert(now[q] == before[q]);
                    assert(before.contains(x));
                }
                assert(x == k@);
            }
        }
        assert forall|x: Seq<char>| csv_has_key(t1, x) implies #[trigger] now.contains(x) by {
            let m = choose|m: int| 0 <= m < t1.len() && #[trigger] key(text::trim(t1[m])) == x;
            if m < i {
                assert(t0[m] == t1[m]);
                assert(key(text::trim(t0[m])) == x);
                assert(csv_has_key(t0, x));
                assert(before.contains(x));
                let q = choose|q: int| 0 <= q < before.len() && before[q] == x;
                assert(now[q] == x);
            } else {
                assert(x == k@);
                if pushed {
                    assert(now[before.len() as int] == x);
                } else {
                    let q = choose|q: int| 0 <= q < before.len() && before[q] == k@;
                    assert(now[q] == x);
                }
            }
        }
        i = i + 1;
    }
    assert(pv.take(parts.len() as int) =~= pv);
    out
}

/// What feeding `key` to the filter box of picker `before` gives, when the
/// box answered `taken`: the options and the chosen set stay, the query is
/// edited, and a taken key highlights the first option still listed (the
/// highlight stays when nothing is listed or the key was not taken).
pub open spec fn filter_key_step(before: OptionPicker, after: OptionPicker, key: KeyPress, taken: bool) -> bool {
    &&& after.options_view() == before.options_view()
    &&& after.selection() == before.selection()
    &&& taken == filter_takes(before.query_view(), key)
    &&& after.query_view() == filter_query_after(before.query_view(), key)
    &&& taken ==> after.cursor_spec() == first_or(
        filtered_spec(after.options_view(), filter_query(after.query_view())),
        before.cursor_spec(),
    )
    &&& !taken ==> after.cursor_spec() == before.cursor_spec()
}

/// Feeds a key press to the filter box of whichever picker `view` shows;
/// no other view takes it. Whether it was taken.
pub fn handle_popup_filter_key(
    view: View,
    labels: &mut OptionPicker,
    assignees: &mut OptionPicker,
    key: KeyPress,
) -> (r: bool)
    ensures
        view == View::LabelPicker ==> filter_key_step(*old(labels), *final(labels), key, r)
            && *final(assignees) == *old(assignees),
        view == View::AssigneePicker ==> filter_key_step(*old(assignees), *final(assignees), key, r)
            && *final(labels) == *old(labels),
        view != View::LabelPicker && view != View::AssigneePicker ==> !r && *final(labels) == *old(labels)
            && *final(assignees) == *old(assignees),
{
    match view {
        View::LabelPicker => labels.handle_filter_key(key),
        View::AssigneePicker => assignees.handle_filter_key(key),
        _ => false,
    }
}

/// Flipping the same name twice gives back the chosen set: toggling an
/// option twice undoes the first toggle.
pub proof fn lemma_flip_twice_restores(a: Seq<Seq<char>>, b: Seq<Seq<char>>, c: Seq<Seq<char>>, k: Seq<char>)
    requires
        flips(a, b, k),
        flips(b, c, k),
    ensures
        forall|x: Seq<char>| #[trigger] c.contains(x) <==> a.contains(x),
{
    assert forall|x: Seq<char>| #[trigger] c.contains(x) <==> a.contains(x) by {
        assert(c.contains(x) <==> (if x == k { !b.contains(x) } else { b.contains(x) }));
        assert(b.contains(x) <==> (if x == k { !a.contains(x) } else { a.contains(x) }));
    }
}

/// Merging new values never loses an option.
pub proof fn lemma_merge_keeps_options(options: Seq<Seq<char>>, values: Seq<Seq<char>>, x: Seq<char>)
    requires
        options.contains(x),
    ensures
        merged_options(options, values).contains(x),
    decreases values.len(),
{
    if values.len() > 0 {
        lemma_merge_keeps_options(options, values.drop_last(), x);
        let prev = merged_options(options, values.drop_last());
        let v = values.last();
        if !(text::trim(v).len() == 0 || metadata::has_ignore_case(prev, v)) {
            let q = choose|q: int| 0 <= q < prev.len() && prev[q] == x;
            assert(prev.push(v)[q] == x);
        }
    }
}

/// The filter ignores the case of the options: options whose letters
/// differ only in ASCII case are listed alike, and under a non-blank filter
/// an option is listed exactly when its lower-cased text contains the
/// trimmed, lower-cased query.
pub proof fn lemma_filter_ignores_option_case(a: Seq<char>, b: Seq<char>, query: Seq<char>)
    ensures
        text::lower(a) == text::lower(b) ==> shown(a, filter_query(query)) == shown(b, filter_query(query)),
        text::lower(text::trim(query)).len() > 0 ==> (shown(a, filter_query(query)) <==> text::has_sub(
            text::lower(a),
            text::lower(text::trim(query)),
        )),
{
}

/// Lists of options that differ only in the case of their letters give the
/// same positions under any filter.
pub proof fn lemma_filtered_ignores_option_case(a: Seq<Seq<char>>, b: Seq<Seq<char>>, query: Seq<char>)
    requires
        a.len() == b.len(),
        forall|i: int| 0 <= i < a.len() ==> text::lower(#[trigger] a[i]) == text::lower(b[i]),
    ensures
        filtered_spec(a, filter_query(query)) == filtered_spec(b, filter_query(query)),
    decreases a.len(),
{
    if a.len() > 0 {
        lemma_filtered_ignores_option_case(a.drop_last(), b.drop_last(), query);
        lemma_filter_ignores_option_case(a.last(), b.last(), query);
        assert(text::lower(a[a.len() - 1]) == text::lower(b[b.len() - 1]));
    }
}

/// A blank filter lists every option, in order.
pub proof fn lemma_blank_filter_lists_every_option(options: Seq<Seq<char>>, query: Seq<char>)
    requires
        text::trim(query).len() == 0,
        options.len() <= usize::MAX,
    ensures
        filtered_spec(options, filter_query(query)) == Seq::new(options.len(), |i: int| i as usize),
    decreases options.len(),
{
    assert(filter_query(query).len() == 0);
    if options.len() > 0 {
        lemma_blank_filter_lists_every_option(options.drop_last(), query);
    }
    assert(filtered_spec(options, filter_query(query)) =~= Seq::new(options.len(), |i: int| i as usize));
}

} // verus!
