//! Character-level helpers: ASCII case folding, case-insensitive equality
//! and containment, and decimal digits. The classification heuristic and the
//! analyzer-output parser are stated over these.

use vstd::prelude::*;
use vstd::string::StrSliceExecFns;

verus! {

/// ASCII case folding of one character; characters outside `A..=Z` are kept.
pub open spec fn lower_char(c: char) -> char {
    if 65 <= c as u32 && c as u32 <= 90 {
        ((c as u32) + 32) as char
    } else {
        c
    }
}

/// Executable ASCII case folding of one character.
pub fn to_lower(c: char) -> (r: char)
    ensures
        r == lower_char(c),
{
    let u = c as u32;
    if 65 <= u && u <= 90 {
        ((u + 32) as u8) as char
    } else {
        c
    }
}

/// Whether `c` is a decimal digit.
pub open spec fn is_digit(c: char) -> bool {
    48 <= c as u32 && c as u32 <= 57
}

/// The value of a decimal digit.
pub open spec fn digit_val(c: char) -> int {
    c as u32 - 48
}

/// Two character sequences are equal up to ASCII case.
pub open spec fn eq_ci(a: Seq<char>, b: Seq<char>) -> bool {
    a.len() == b.len() && forall|j: int| 0 <= j < a.len() ==> lower_char(a[j]) == lower_char(b[j])
}

/// `pat` occurs in `text` at position `i`, up to ASCII case.
pub open spec fn matches_at(text: Seq<char>, pat: Seq<char>, i: int) -> bool {
    &&& 0 <= i
    &&& i + pat.len() <= text.len()
    &&& forall|j: int| 0 <= j < pat.len() ==> lower_char(text[i + j]) == lower_char(pat[j])
}

/// `pat` occurs somewhere in `text`, up to ASCII case.
pub open spec fn contains_ci(text: Seq<char>, pat: Seq<char>) -> bool {
    exists|i: int| matches_at(text, pat, i)
}

/// Executable case-insensitive string equality.
pub fn str_eq_ci(a: &str, b: &str) -> (r: bool)
    ensures
        r == eq_ci(a@, b@),
{
    let n = a.unicode_len();
    if n != b.unicode_len() {
        return false;
    }
    let mut j: usize = 0;
    while j < n
        invariant
            n == a@.len(),
            n == b@.len(),
            j <= n,
            forall|j0: int| 0 <= j0 < j ==> lower_char(a@[j0]) == lower_char(b@[j0]),
        decreases n - j,
    {
        if to_lower(a.get_char(j)) != to_lower(b.get_char(j)) {
            return false;
        }
        j += 1;
    }
    true
}

/// Executable check that `pat` (of length `m`) occurs at position `i` of
/// `text`, up to ASCII case.
fn match_at_ci(text: &str, pat: &str, i: usize, m: usize) -> (r: bool)
    requires
        m == pat@.len(),
        i + m <= text@.len(),
        i + m <= usize::MAX,
    ensures
        r == matches_at(text@, pat@, i as int),
{
    let mut j: usize = 0;
    while j < m
        invariant
            m == pat@.len(),
            i + m <= text@.len(),
            i + m <= usize::MAX,
            j <= m,
            forall|j0: int| 0 <= j0 < j ==> lower_char(text@[i + j0]) == lower_char(pat@[j0]),
        decreases m - j,
    {
        if to_lower(text.get_char(i + j)) != to_lower(pat.get_char(j)) {
            return false;
        }
        j += 1;
    }
    true
}

/// The index of the first occurrence of `sep` in `s`, or `-1` when `sep`
/// does not occur.
pub open spec fn find_sep(s: Seq<char>, sep: char) -> int
    decreases s.len(),
{
    if s.len() == 0 {
        -1
    } else if s[0] == sep {
        0
    } else {
        let r = find_sep(s.drop_first(), sep);
        if r < 0 {
            -1
        } else {
            r + 1
        }
    }
}

/// `find_sep` finds exactly the first occurrence.
pub proof fn lemma_find_sep(s: Seq<char>, sep: char)
    ensures
        find_sep(s, sep) == -1 <==> (forall|j: int| 0 <= j < s.len() ==> s[j] != sep),
        find_sep(s, sep) >= 0 ==> {
            &&& 0 <= find_sep(s, sep) < s.len()
            &&& s[find_sep(s, sep)] == sep
            &&& forall|j: int| 0 <= j < find_sep(s, sep) ==> s[j] != sep
        },
    decreases s.len(),
{
    if s.len() > 0 && s[0] != sep {
        lemma_find_sep(s.drop_first(), sep);
        let r = find_sep(s.drop_first(), sep);
        if r < 0 {
            assert forall|j: int| 0 <= j < s.len() implies s[j] != sep by {
                if j > 0 {
                    assert(s.drop_first()[j - 1] != sep);
                }
            }
        } else {
            assert forall|j: int| 0 <= j < r + 1 implies s[j] != sep by {
                if j > 0 {
                    assert(s.drop_first()[j - 1] != sep);
                }
            }
        }
    }
}

/// When the first occurrence of `sep` is known to be at `i`, `find_sep`
/// agrees.
pub proof fn lemma_find_sep_at(s: Seq<char>, sep: char, i: int)
    requires
        0 <= i < s.len(),
        s[i] == sep,
        forall|j: int| 0 <= j < i ==> s[j] != sep,
    ensures
        find_sep(s, sep) == i,
{
    lemma_find_sep(s, sep);
}

/// Splitting on a separator: the text up to each occurrence of `sep`, in
/// order, and the text after the last occurrence. Text without the
/// separator is one single piece; so is the empty text.
pub open spec fn spec_split_on(s: Seq<char>, sep: char) -> Seq<Seq<char>>
    decreases s.len(),
    via spec_split_on_decreases
{
    let i = find_sep(s, sep);
    if i < 0 {
        seq![s]
    } else {
        seq![s.take(i)] + spec_split_on(s.skip(i + 1), sep)
    }
}

#[via_fn]
proof fn spec_split_on_decreases(s: Seq<char>, sep: char) {
    lemma_find_sep(s, sep);
}

/// Joining with a separator: the pieces in order with one `sep` between
/// each neighbouring pair.
pub open spec fn spec_join_with(items: Seq<Seq<char>>, sep: char) -> Seq<char>
    decreases items.len(),
{
    if items.len() == 0 {
        Seq::empty()
    } else if items.len() == 1 {
        items[0]
    } else {
        items[0] + seq![sep] + spec_join_with(items.drop_first(), sep)
    }
}

/// Appending one more piece extends the joined text by a separator and
/// that piece.
pub proof fn lemma_join_push(items: Seq<Seq<char>>, sep: char, x: Seq<char>)
    requires
        items.len() >= 1,
    ensures
        spec_join_with(items.push(x), sep) == spec_join_with(items, sep) + seq![sep] + x,
    decreases items.len(),
{
    if items.len() == 1 {
        let p = items.push(x);
        assert(p.drop_first() =~= seq![x]);
        assert(spec_join_with(p.drop_first(), sep) == x);
        assert(spec_join_with(p, sep) == items[0] + seq![sep] + x);
    } else {
        let p = items.push(x);
        assert(p.drop_first() =~= items.drop_first().push(x));
        lemma_join_push(items.drop_first(), sep, x);
        assert(p[0] + seq![sep] + (spec_join_with(items.drop_first(), sep) + seq![sep] + x) =~= (
        items[0] + seq![sep] + spec_join_with(items.drop_first(), sep)) + seq![sep] + x);
    }
}

/// Splitting a joined text recovers the pieces, provided none of them
/// holds the separator itself.
pub proof fn lemma_split_join(items: Seq<Seq<char>>, sep: char)
    requires
        items.len() >= 1,
        forall|i: int| 0 <= i < items.len() ==> !(#[trigger] items[i]).contains(sep),
    ensures
        spec_split_on(spec_join_with(items, sep), sep) == items,
    decreases items.len(),
{
    let s = spec_join_with(items, sep);
    if items.len() == 1 {
        assert(s == items[0]);
        lemma_find_sep(s, sep);
        if find_sep(s, sep) >= 0 {
            assert(items[0].contains(sep));
        }
        assert(spec_split_on(s, sep) =~= items);
    } else {
        let head = items[0];
        let rest = items.drop_first();
        let tail = spec_join_with(rest, sep);
        assert(s == head + seq![sep] + tail);
        let ll = head.len() as int;
        assert(s[ll] == sep);
        assert forall|j: int| 0 <= j < ll implies s[j] != sep by {
            assert(s[j] == head[j]);
            if head[j] == sep {
                assert(head.contains(sep));
            }
        }
        lemma_find_sep_at(s, sep, ll);
        assert(s.take(ll) =~= head);
        assert(s.skip(ll + 1) =~= tail);
        assert forall|i: int| 0 <= i < rest.len() implies !(#[trigger] rest[i]).contains(sep) by {
            assert(rest[i] == items[i + 1]);
        }
        lemma_split_join(rest, sep);
        assert(spec_split_on(s, sep) =~= items);
    }
}

/// Executable split on a separator character.
pub fn split_on(s: &str, sep: char) -> (r: Vec<String>)
    ensures
        r.deep_view() == spec_split_on(s@, sep),
{
    let n = s.unicode_len();
    let mut out: Vec<String> = Vec::new();
    let mut start: usize = 0;
    let mut i: usize = 0;
    proof {
        assert(s@.skip(0) =~= s@);
        assert(out.deep_view() =~= Seq::<Seq<char>>::empty());
        assert(Seq::<Seq<char>>::empty() + spec_split_on(s@, sep) =~= spec_split_on(s@, sep));
    }
    while i < n
        invariant
            start <= i <= n,
            n == s@.len(),
            spec_split_on(s@, sep) == out.deep_view() + spec_split_on(
                s@.skip(start as int),
                sep,
            ),
            forall|j: int| start <= j < i ==> s@[j] != sep,
        decreases n - i,
    {
        if s.get_char(i) == sep {
            let piece = String::from_str(s.substring_char(start, i));
            proof {
                let remaining = s@.skip(start as int);
                assert forall|j: int| 0 <= j < i - start implies remaining[j] != sep by {
                    assert(remaining[j] == s@[start + j]);
                }
                assert(remaining[i - start] == s@[i as int]);
                lemma_find_sep_at(remaining, sep, i - start);
                assert(remaining.take(i - start) =~= s@.subrange(start as int, i as int));
                assert(remaining.skip(i - start + 1) =~= s@.skip(i + 1));
            }
            let ghost pre = out.deep_view();
            out.push(piece);
            proof {
                assert(out.deep_view() =~= pre.push(piece@));
                assert(pre.push(piece@) + spec_split_on(s@.skip(i + 1), sep) =~= pre + (seq![
                    piece@,
                ] + spec_split_on(s@.skip(i + 1), sep)));
            }
            start = i + 1;
            i = i + 1;
        } else {
            i = i + 1;
        }
    }
    let piece = String::from_str(s.substring_char(start, n));
    proof {
        let remaining = s@.skip(start as int);
        assert forall|j: int| 0 <= j < remaining.len() implies remaining[j] != sep by {
            assert(remaining[j] == s@[start + j]);
        }
        lemma_find_sep(remaining, sep);
        assert(remaining =~= s@.subrange(start as int, n as int));
    }
    let ghost pre = out.deep_view();
    out.push(piece);
    proof {
        assert(out.deep_view() =~= pre.push(piece@));
        assert(pre.push(piece@) =~= pre + seq![piece@]);
    }
    out
}

/// Executable join with a single space between pieces.
pub fn join_space(items: &Vec<String>) -> (r: String)
    ensures
        r@ == spec_join_with(items.deep_view(), ' '),
{
    let mut r = String::new();
    if items.len() == 0 {
        return r;
    }
    r.append(items[0].as_str());
    let mut i: usize = 1;
    proof {
        assert(items.deep_view().take(1) =~= seq![items@[0]@]);
    }
    while i < items.len()
        invariant
            1 <= i <= items@.len(),
            items.deep_view().len() == items@.len(),
            r@ == spec_join_with(items.deep_view().take(i as int), ' '),
        decreases items@.len() - i,
    {
        r.append(" ");
        r.append(items[i].as_str());
        proof {
            reveal_strlit(" ");
            assert(" "@ =~= seq![' ']);
            let t = items.deep_view().take(i as int);
            lemma_join_push(t, ' ', items.deep_view()[i as int]);
            assert(t.push(items.deep_view()[i as int]) =~= items.deep_view().take(i + 1));
            assert(items.deep_view()[i as int] == items@[i as int]@);
        }
        i = i + 1;
    }
    proof {
        assert(items.deep_view().take(items@.len() as int) =~= items.deep_view());
    }
    r
}

/// Executable case-insensitive containment check.
pub fn str_contains_ci(text: &str, pat: &str) -> (r: bool)
    ensures
        r == contains_ci(text@, pat@),
{
    let n = text.unicode_len();
    let m = pat.unicode_len();
    if m > n {
        proof {
            if contains_ci(text@, pat@) {
                let i = choose|i: int| matches_at(text@, pat@, i);
                assert(false);
            }
        }
        return false;
    }
    let mut i: usize = 0;
    while i <= n - m
        invariant
            n == text@.len(),
            m == pat@.len(),
            m <= n,
            i <= n - m + 1,
            forall|i0: int| 0 <= i0 < i ==> !matches_at(text@, pat@, i0),
        decreases n - m + 1 - i,
    {
        if match_at_ci(text, pat, i, m) {
            return true;
        }
        i += 1;
    }
    proof {
        if contains_ci(text@, pat@) {
            let i0 = choose|i0: int| matches_at(text@, pat@, i0);
            assert(false);
        }
    }
    false
}

} // verus!
