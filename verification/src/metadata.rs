//! Label and assignee lists: reading them from comma-separated input.
use vstd::prelude::*;

use crate::text;
use crate::text::{chars_of, eq_ignore_case_chars, split_chars, string_of, trim_chars};

verus! {

/// `s` with every leading `c` removed, as `str::trim_start_matches(c)` does.
pub open spec fn trim_start_char(s: Seq<char>, c: char) -> Seq<char>
    decreases s.len(),
{
    if s.len() > 0 && s[0] == c {
        trim_start_char(s.drop_first(), c)
    } else {
        s
    }
}

/// One comma-separated piece, trimmed and, when asked, without leading `@`.
pub open spec fn csv_value(raw: Seq<char>, strip_at: bool) -> Seq<char> {
    if strip_at {
        trim_start_char(text::trim(raw), '@')
    } else {
        text::trim(raw)
    }
}

/// Some entry of `list` equals `v` ignoring ASCII case.
pub open spec fn has_ignore_case(list: Seq<Seq<char>>, v: Seq<char>) -> bool {
    exists|i: int| 0 <= i < list.len() && text::eq_ignore_case(#[trigger] list[i], v)
}

/// The values of the pieces: empty ones skipped, and of those equal
/// ignoring ASCII case only the first kept, with its own case.
pub open spec fn csv_values(parts: Seq<Seq<char>>, strip_at: bool) -> Seq<Seq<char>>
    decreases parts.len(),
{
    if parts.len() == 0 {
        Seq::empty()
    } else {
        let prev = csv_values(parts.drop_last(), strip_at);
        let v = csv_value(parts.last(), strip_at);
        if v.len() == 0 || has_ignore_case(prev, v) {
            prev
        } else {
            prev.push(v)
        }
    }
}

/// The values of comma-separated input.
pub open spec fn parse_csv_spec(input: Seq<char>, strip_at: bool) -> Seq<Seq<char>> {
    csv_values(text::split_on(input, ','), strip_at)
}

/// `v` without its leading `c`s.
fn trim_start_char_chars(v: &[char], c: char) -> (r: Vec<char>)
    ensures
        r@ == trim_start_char(v@, c),
{
    let mut i: usize = 0;
    assert(v@.skip(0) =~= v@);
    while i < v.len() && v[i] == c
        invariant
            i <= v.len(),
            trim_start_char(v@, c) == trim_start_char(v@.skip(i as int), c),
        decreases v.len() - i,
    {
        assert(v@.skip(i as int).drop_first() =~= v@.skip(i + 1));
        i = i + 1;
    }
    let r = text::sub_vec(v, i, v.len());
    assert(r@ =~= v@.skip(i as int));
    r
}

/// Whether some entry of `list` equals `v` ignoring ASCII case.
fn has_ignore_case_chars(list: &Vec<Vec<char>>, v: &[char]) -> (r: bool)
    ensures
        r == has_ignore_case(text::views(list@), v@),
{
    let mut i: usize = 0;
    while i < list.len()
        invariant
            i <= list.len(),
            forall|j: int| 0 <= j < i ==> !text::eq_ignore_case(#[trigger] text::views(list@)[j], v@),
        decreases list.len() - i,
    {
        if eq_ignore_case_chars(list[i].as_slice(), v) {
            assert(text::eq_ignore_case(text::views(list@)[i as int], v@));
            return true;
        }
        i = i + 1;
    }
    false
}

/// The values of comma-separated input: each piece trimmed (and without
/// leading `@` when `strip_at`), empty pieces skipped, and of values equal
/// ignoring ASCII case only the first kept.
pub fn parse_csv_values(input: &str, strip_at: bool) -> (r: Vec<String>)
    ensures
        text::string_views(r@) == parse_csv_spec(input@, strip_at),
{
    let all = chars_of(input);
    let parts = split_chars(all.as_slice(), ',');
    let ghost pv = text::views(parts@);
    let mut kept: Vec<Vec<char>> = Vec::new();
    let mut values: Vec<String> = Vec::new();
    let mut i: usize = 0;
    while i < parts.len()
        invariant
            i <= parts.len(),
            pv == text::views(parts@),
            pv == text::split_on(input@, ','),
            text::views(kept@) == csv_values(pv.take(i as int), strip_at),
            text::string_views(values@) == text::views(kept@),
        decreases parts.len() - i,
    {
        assert(pv.take(i + 1).drop_last() =~= pv.take(i as int));
        assert(pv.take(i + 1).last() == parts@[i as int]@);
        let trimmed = trim_chars(parts[i].as_slice());
        let value = if strip_at {
            trim_start_char_chars(trimmed.as_slice(), '@')
        } else {
            trimmed
        };
        if value.len() > 0 && !has_ignore_case_chars(&kept, value.as_slice()) {
            let ghost before_kept = kept@;
            let ghost before_values = values@;
            values.push(string_of(value.as_slice()));
            kept.push(value);
            assert(text::views(kept@) =~= text::views(before_kept).push(kept@.last()@));
            assert(text::string_views(values@) =~= text::string_views(before_values).push(
                values@.last()@,
            ));
        }
        i = i + 1;
    }
    assert(pv.take(parts.len() as int) =~= pv);
    values
}

/// The values read from comma-separated input are all non-empty and no two
/// of them are equal ignoring ASCII case; when `@` is stripped, no value
/// starts with `@`.
pub proof fn lemma_csv_values_distinct(input: Seq<char>, strip_at: bool)
    ensures
        strip_at ==> forall|i: int| 0 <= i < parse_csv_spec(input, strip_at).len() ==> #[trigger] parse_csv_spec(
            input,
            strip_at,
        )[i][0] != '@',
        forall|i: int| 0 <= i < parse_csv_spec(input, strip_at).len() ==> #[trigger] parse_csv_spec(
            input,
            strip_at,
        )[i].len() > 0,
        forall|i: int, j: int|
            0 <= i < j < parse_csv_spec(input, strip_at).len() ==> !text::eq_ignore_case(
                #[trigger] parse_csv_spec(input, strip_at)[i],
                #[trigger] parse_csv_spec(input, strip_at)[j],
            ),
{
    lemma_csv_values_distinct_parts(text::split_on(input, ','), strip_at);
}

/// Removing every leading `c` leaves text that does not start with `c`.
proof fn lemma_trim_start_char_head(s: Seq<char>, c: char)
    ensures
        trim_start_char(s, c).len() > 0 ==> trim_start_char(s, c)[0] != c,
    decreases s.len(),
{
    if s.len() > 0 && s[0] == c {
        lemma_trim_start_char_head(s.drop_first(), c);
    }
}

proof fn lemma_csv_values_distinct_parts(parts: Seq<Seq<char>>, strip_at: bool)
    ensures
        strip_at ==> forall|i: int| 0 <= i < csv_values(parts, strip_at).len() ==> #[trigger] csv_values(
            parts,
            strip_at,
        )[i][0] != '@',
        forall|i: int| 0 <= i < csv_values(parts, strip_at).len() ==> #[trigger] csv_values(parts, strip_at)[i].len()
            > 0,
        forall|i: int, j: int|
            0 <= i < j < csv_values(parts, strip_at).len() ==> !text::eq_ignore_case(
                #[trigger] csv_values(parts, strip_at)[i],
                #[trigger] csv_values(parts, strip_at)[j],
            ),
    decreases parts.len(),
{
    if parts.len() > 0 {
        let prev = csv_values(parts.drop_last(), strip_at);
        lemma_csv_values_distinct_parts(parts.drop_last(), strip_at);
        let v = csv_value(parts.last(), strip_at);
        lemma_trim_start_char_head(text::trim(parts.last()), '@');
        if !(v.len() == 0 || has_ignore_case(prev, v)) {
            let r = prev.push(v);
            assert forall|i: int| strip_at && 0 <= i < r.len() implies #[trigger] r[i][0] != '@' by {
                if i < prev.len() {
                    assert(r[i] == prev[i]);
                }
            }
            assert forall|i: int, j: int| 0 <= i < j < r.len() implies !text::eq_ignore_case(
                #[trigger] r[i],
                #[trigger] r[j],
            ) by {
                if j == prev.len() {
                    assert(r[i] == prev[i]);
                    if text::eq_ignore_case(r[i], r[j]) {
                        assert(text::eq_ignore_case(prev[i], v));
                    }
                } else {
                    assert(r[i] == prev[i] && r[j] == prev[j]);
                }
            }
            assert forall|i: int| 0 <= i < r.len() implies #[trigger] r[i].len() > 0 by {
                if i < prev.len() {
                    assert(r[i] == prev[i]);
                }
            }
        }
    }
}

} // verus!
