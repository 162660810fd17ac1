//! Verified string helpers: equality, search, splitting, joining, and
//! decimal conversion over `&str` / `String` values viewed as `Seq<char>`.

use vstd::prelude::*;
use vstd::string::StrSliceExecFns;
use vstd::string::StringExecFns;

verus! {

/// `sub` occurs in `s` starting at position `i`.
pub open spec fn occurs_at(s: Seq<char>, sub: Seq<char>, i: int) -> bool {
    0 <= i && i + sub.len() <= s.len() && s.subrange(i, i + sub.len()) == sub
}

/// `sub` occurs somewhere in `s`.
pub open spec fn seq_contains(s: Seq<char>, sub: Seq<char>) -> bool {
    exists|i: int| occurs_at(s, sub, i)
}

/// `s` starts with `pre`.
pub open spec fn seq_starts_with(s: Seq<char>, pre: Seq<char>) -> bool {
    pre.len() <= s.len() && s.subrange(0, pre.len() as int) == pre
}

/// `s` ends with `suf`.
pub open spec fn seq_ends_with(s: Seq<char>, suf: Seq<char>) -> bool {
    suf.len() <= s.len() && s.subrange(s.len() - suf.len(), s.len() as int) == suf
}

/// Whether the strings `a` and `b` hold the same characters.
pub fn str_eq(a: &str, b: &str) -> (r: bool)
    ensures
        r == (a@ == b@),
{
    let alen = a.unicode_len();
    let blen = b.unicode_len();
    if alen != blen {
        assert(a@ != b@) by {
            assert(a@.len() != b@.len());
        }
        return false;
    }
    let mut i: usize = 0;
    while i < alen
        invariant
            alen == a@.len(),
            alen == b@.len(),
            i <= alen,
            forall|j: int| 0 <= j < i ==> a@[j] == b@[j],
        decreases alen - i,
    {
        if a.get_char(i) != b.get_char(i) {
            return false;
        }
        i += 1;
    }
    assert(a@ =~= b@);
    true
}

/// Whether `s` has `sub` as a (contiguous) substring starting at `at`.
fn matches_at(s: &str, sub: &str, at: usize) -> (r: bool)
    requires
        at + sub@.len() <= s@.len(),
        at + sub@.len() <= usize::MAX,
    ensures
        r == occurs_at(s@, sub@, at as int),
{
    let m = sub.unicode_len();
    let mut j: usize = 0;
    while j < m
        invariant
            m == sub@.len(),
            at + m <= s@.len(),
            at + m <= usize::MAX,
            j <= m,
            forall|k: int| 0 <= k < j ==> s@[at + k] == sub@[k],
        decreases m - j,
    {
        if s.get_char(at + j) != sub.get_char(j) {
            assert(!occurs_at(s@, sub@, at as int)) by {
                assert(s@.subrange(at as int, at + sub@.len())[j as int] == s@[at + j]);
            }
            return false;
        }
        j += 1;
    }
    assert(s@.subrange(at as int, at + sub@.len()) =~= sub@);
    true
}

/// Whether `s` contains `sub` as a substring.
pub fn str_contains(s: &str, sub: &str) -> (r: bool)
    ensures
        r == seq_contains(s@, sub@),
{
    let n = s.unicode_len();
    let m = sub.unicode_len();
    if m > n {
        assert(forall|i: int| !occurs_at(s@, sub@, i));
        return false;
    }
    if m == 0 {
        assert(occurs_at(s@, sub@, 0)) by {
            assert(s@.subrange(0, 0) =~= sub@);
        }
        return true;
    }
    let mut i: usize = 0;
    while i <= n - m
        invariant
            n == s@.len(),
            m == sub@.len(),
            0 < m <= n,
            i <= n - m + 1,
            forall|k: int| 0 <= k < i ==> !occurs_at(s@, sub@, k),
        decreases n - m + 1 - i,
    {
        if matches_at(s, sub, i) {
            return true;
        }
        i += 1;
    }
    assert(forall|k: int| !occurs_at(s@, sub@, k));
    false
}

/// Whether `s` starts with `pre`.
pub fn str_starts_with(s: &str, pre: &str) -> (r: bool)
    ensures
        r == seq_starts_with(s@, pre@),
{
    let n = s.unicode_len();
    let m = pre.unicode_len();
    if m > n {
        return false;
    }
    matches_at(s, pre, 0)
}

/// Whether `s` ends with `suf`.
pub fn str_ends_with(s: &str, suf: &str) -> (r: bool)
    ensures
        r == seq_ends_with(s@, suf@),
{
    let n = s.unicode_len();
    let m = suf.unicode_len();
    if m > n {
        return false;
    }
    matches_at(s, suf, n - m)
}

/// First index at which `c` occurs in `s`, or `None`.
pub fn find_char(s: &str, c: char) -> (r: Option<usize>)
    ensures
        match r {
            Some(i) => i < s@.len() && s@[i as int] == c && forall|j: int|
                0 <= j < i ==> s@[j] != c,
            None => forall|j: int| 0 <= j < s@.len() ==> s@[j] != c,
        },
{
    let n = s.unicode_len();
    let mut i: usize = 0;
    while i < n
        invariant
            n == s@.len(),
            i <= n,
            forall|j: int| 0 <= j < i ==> s@[j] != c,
        decreases n - i,
    {
        if s.get_char(i) == c {
            return Some(i);
        }
        i += 1;
    }
    None
}

/// The substring of `s` from `from` (inclusive) to `to` (exclusive).
pub fn substring<'a>(s: &'a str, from: usize, to: usize) -> (r: &'a str)
    requires
        from <= to <= s@.len(),
    ensures
        r@ == s@.subrange(from as int, to as int),
{
    s.substring_char(from, to)
}

/// Split `s` at the first occurrence of `c`: the part before and the part
/// after, the separator belonging to neither. `None` when `c` is absent.
pub fn split_once_char<'a>(s: &'a str, c: char) -> (r: Option<(&'a str, &'a str)>)
    ensures
        match r {
            Some((a, b)) => exists|i: int|
                0 <= i < s@.len() && s@[i] == c && (forall|j: int| 0 <= j < i ==> s@[j] != c)
                    && a@ == s@.subrange(0, i) && b@ == s@.subrange(i + 1, s@.len() as int),
            None => forall|j: int| 0 <= j < s@.len() ==> s@[j] != c,
        },
{
    let n = s.unicode_len();
    match find_char(s, c) {
        Some(i) => {
            let a = s.substring_char(0, i);
            let b = s.substring_char(i + 1, n);
            Some((a, b))
        },
        None => None,
    }
}

/// Append `s` to `v`, tracked at the level of character sequences.
pub fn push_string(v: &mut Vec<String>, s: String)
    ensures
        final(v).deep_view() == old(v).deep_view().push(s@),
        final(v)@.len() == old(v)@.len() + 1,
{
    let ghost v0 = v@;
    let ghost dv0 = v.deep_view();
    v.push(s);
    proof {
        assert forall|k: int| 0 <= k < v.deep_view().len() implies v.deep_view()[k] == dv0.push(
            s@,
        )[k] by {
            if k < v0.len() {
                assert(v@[k] == v0[k]);
            } else {
                assert(v@[k] == s);
            }
        }
        assert(v.deep_view() =~= dv0.push(s@));
    }
}

/// Copy a vector of strings, tracked at the level of character
/// sequences.
pub fn clone_string_vec(v: &Vec<String>) -> (r: Vec<String>)
    ensures
        r.deep_view() == v.deep_view(),
{
    let ghost dv = v.deep_view();
    let mut out: Vec<String> = Vec::new();
    let mut i: usize = 0;
    while i < v.len()
        invariant
            dv == v.deep_view(),
            dv.len() == v.len(),
            i <= v.len(),
            out.deep_view() =~= dv.subrange(0, i as int),
        decreases v.len() - i,
    {
        proof {
            assert(v@[i as int]@ == dv[i as int]);
        }
        push_string(&mut out, v[i].clone());
        proof {
            assert(out.deep_view() =~= dv.subrange(0, i + 1));
        }
        i += 1;
    }
    proof {
        assert(dv.subrange(0, dv.len() as int) =~= dv);
    }
    out
}

/// One step of `filter`: filtering a sequence extended by one element.
pub proof fn lemma_filter_push<A>(s: Seq<A>, x: A, pred: spec_fn(A) -> bool)
    ensures
        s.push(x).filter(pred) == if pred(x) {
            s.filter(pred).push(x)
        } else {
            s.filter(pred)
        },
{
    reveal(Seq::filter);
    assert(s.push(x).drop_last() =~= s);
    assert(s.push(x).last() == x);
    assert(s.push(x).len() == s.len() + 1);
}

/// The decimal digit character for `d`.
pub open spec fn dec_digit(d: nat) -> char {
    if d == 0 {
        '0'
    } else if d == 1 {
        '1'
    } else if d == 2 {
        '2'
    } else if d == 3 {
        '3'
    } else if d == 4 {
        '4'
    } else if d == 5 {
        '5'
    } else if d == 6 {
        '6'
    } else if d == 7 {
        '7'
    } else if d == 8 {
        '8'
    } else {
        '9'
    }
}

/// The decimal rendering of `n`, without leading zeros (but `0` for zero).
pub open spec fn dec_str(n: nat) -> Seq<char>
    decreases n,
{
    if n < 10 {
        seq![dec_digit(n)]
    } else {
        dec_str(n / 10).push(dec_digit(n % 10))
    }
}

/// One decimal digit as a string slice.
fn digit_str(d: u64) -> (r: &'static str)
    requires
        d < 10,
    ensures
        r@ =~= seq![dec_digit(d as nat)],
{
    proof {
        reveal_strlit("0");
        reveal_strlit("1");
        reveal_strlit("2");
        reveal_strlit("3");
        reveal_strlit("4");
        reveal_strlit("5");
        reveal_strlit("6");
        reveal_strlit("7");
        reveal_strlit("8");
        reveal_strlit("9");
    }
    match d {
        0 => "0",
        1 => "1",
        2 => "2",
        3 => "3",
        4 => "4",
        5 => "5",
        6 => "6",
        7 => "7",
        8 => "8",
        _ => "9",
    }
}

/// Render `n` in decimal.
pub fn u64_to_string(n: u64) -> (r: String)
    ensures
        r@ == dec_str(n as nat),
    decreases n,
{
    if n < 10 {
        String::from_str(digit_str(n))
    } else {
        let mut head = u64_to_string(n / 10);
        head.append(digit_str(n % 10));
        assert(head@ =~= dec_str(n as nat));
        head
    }
}

/// Render `n` in decimal.
pub fn u32_to_string(n: u32) -> (r: String)
    ensures
        r@ == dec_str(n as nat),
{
    u64_to_string(n as u64)
}

/// Whether `c` is a decimal digit.
pub open spec fn is_dec_digit(c: char) -> bool {
    48 <= c as u32 <= 57
}

/// The value of the digit `c`.
pub open spec fn digit_val(c: char) -> nat {
    (c as u32 - 48) as nat
}

/// Every character of `s` is a decimal digit.
pub open spec fn all_dec_digits(s: Seq<char>) -> bool {
    forall|i: int| 0 <= i < s.len() ==> is_dec_digit(#[trigger] s[i])
}

/// The numeric value of the digit string `s`.
pub open spec fn dec_value(s: Seq<char>) -> nat
    decreases s.len(),
{
    if s.len() == 0 {
        0
    } else {
        dec_value(s.drop_last()) * 10 + digit_val(s.last())
    }
}

/// Every character of a decimal rendering is a digit.
pub proof fn lemma_dec_str_digits(n: nat)
    ensures
        forall|k: int| 0 <= k < dec_str(n).len() ==> is_dec_digit(#[trigger] dec_str(n)[k]),
    decreases n,
{
    if n < 10 {
        assert(dec_str(n) =~= seq![dec_digit(n)]);
    } else {
        lemma_dec_str_digits(n / 10);
        assert forall|k: int| 0 <= k < dec_str(n).len() implies is_dec_digit(
            #[trigger] dec_str(n)[k],
        ) by {
            if k < dec_str(n / 10).len() {
                assert(dec_str(n)[k] == dec_str(n / 10)[k]);
            } else {
                assert(dec_str(n)[k] == dec_digit(n % 10));
            }
        }
    }
}

/// A joined sequence starts with its first part.
pub proof fn lemma_join_sep_first(parts: Seq<Seq<char>>, sep: char)
    requires
        parts.len() >= 1,
    ensures
        join_sep(parts, sep).len() >= parts[0].len(),
        forall|k: int| 0 <= k < parts[0].len() ==> #[trigger] join_sep(parts, sep)[k]
            == parts[0][k],
    decreases parts.len(),
{
    if parts.len() > 1 {
        lemma_join_sep_first(parts.drop_last(), sep);
        assert(parts.drop_last()[0] == parts[0]);
        let j = join_sep(parts.drop_last(), sep);
        assert forall|k: int| 0 <= k < parts[0].len() implies #[trigger] join_sep(parts, sep)[k]
            == parts[0][k] by {
            assert(join_sep(parts, sep)[k] == j[k]);
        }
    }
}

/// Reading a decimal rendering back gives the number.
pub proof fn lemma_dec_value_of_dec_str(n: nat)
    ensures
        dec_value(dec_str(n)) == n,
        all_dec_digits(dec_str(n)),
    decreases n,
{
    lemma_dec_str_digits(n);
    if n < 10 {
        assert(dec_str(n) =~= seq![dec_digit(n)]);
        assert(dec_str(n).drop_last() =~= Seq::<char>::empty());
        assert(dec_value(Seq::<char>::empty()) == 0);
        assert(digit_val(dec_digit(n)) == n);
        assert(dec_value(dec_str(n)) == dec_value(dec_str(n).drop_last()) * 10 + digit_val(
            dec_str(n).last(),
        ));
    } else {
        lemma_dec_value_of_dec_str(n / 10);
        assert(dec_str(n).drop_last() =~= dec_str(n / 10));
        assert(dec_str(n).last() == dec_digit(n % 10));
        assert(digit_val(dec_digit(n % 10)) == n % 10);
    }
}

/// A digit string is worth at least any of its prefixes.
proof fn lemma_dec_value_prefix_le(s: Seq<char>, i: int)
    requires
        0 <= i <= s.len(),
    ensures
        dec_value(s.subrange(0, i)) <= dec_value(s),
    decreases s.len() - i,
{
    if i < s.len() {
        lemma_dec_value_prefix_le(s, i + 1);
        let p = s.subrange(0, i + 1);
        assert(p.drop_last() =~= s.subrange(0, i));
        assert(dec_value(s.subrange(0, i)) <= dec_value(p)) by {
            assert(dec_value(p) == dec_value(p.drop_last()) * 10 + digit_val(p.last()));
        }
    } else {
        assert(s.subrange(0, i) =~= s);
    }
}

/// Parse `s` as a decimal number. `Some` exactly when `s` is a non-empty
/// digit string whose value fits in a `u64`.
pub fn parse_u64(s: &str) -> (r: Option<u64>)
    ensures
        match r {
            Some(v) => s@.len() > 0 && all_dec_digits(s@) && v == dec_value(s@),
            None => s@.len() == 0 || !all_dec_digits(s@) || dec_value(s@) > u64::MAX,
        },
{
    let n = s.unicode_len();
    if n == 0 {
        return None;
    }
    let mut v: u64 = 0;
    let mut i: usize = 0;
    while i < n
        invariant
            n == s@.len(),
            0 < n,
            i <= n,
            forall|j: int| 0 <= j < i ==> is_dec_digit(#[trigger] s@[j]),
            v == dec_value(s@.subrange(0, i as int)),
        decreases n - i,
    {
        let c = s.get_char(i);
        let cv = c as u32;
        if cv < 48 || cv > 57 {
            return None;
        }
        let d = (cv - 48) as u64;
        proof {
            assert(s@.subrange(0, i + 1).drop_last() =~= s@.subrange(0, i as int));
        }
        if v > (u64::MAX - d) / 10 {
            proof {
                let p = s@.subrange(0, i + 1);
                assert(dec_value(p) == v * 10 + d);
                lemma_dec_value_prefix_le(s@, i + 1);
            }
            return None;
        }
        v = v * 10 + d;
        i += 1;
    }
    proof {
        assert(s@.subrange(0, n as int) =~= s@);
    }
    Some(v)
}

/// Parse `s` as a decimal number fitting a `u32`.
pub fn parse_u32(s: &str) -> (r: Option<u32>)
    ensures
        match r {
            Some(v) => s@.len() > 0 && all_dec_digits(s@) && v == dec_value(s@),
            None => s@.len() == 0 || !all_dec_digits(s@) || dec_value(s@) > u32::MAX,
        },
{
    match parse_u64(s) {
        Some(v) => if v <= u32::MAX as u64 {
            Some(v as u32)
        } else {
            None
        },
        None => None,
    }
}

/// The parts of `parts` joined by the separator `sep`.
pub open spec fn join_sep(parts: Seq<Seq<char>>, sep: char) -> Seq<char>
    decreases parts.len(),
{
    if parts.len() == 0 {
        Seq::empty()
    } else if parts.len() == 1 {
        parts[0]
    } else {
        join_sep(parts.drop_last(), sep) + seq![sep] + parts.last()
    }
}

/// Join `parts` with the one-character separator `sep`, which `sep_str`
/// must spell.
fn join_char(parts: &Vec<String>, sep: char, sep_str: &str) -> (r: String)
    requires
        sep_str@ =~= seq![sep],
    ensures
        r@ == join_sep(parts.deep_view(), sep),
{
    let mut out = String::new();
    let mut i: usize = 0;
    while i < parts.len()
        invariant
            i <= parts.len(),
            sep_str@ =~= seq![sep],
            out@ == join_sep(parts.deep_view().subrange(0, i as int), sep),
        decreases parts.len() - i,
    {
        if i > 0 {
            out.append(sep_str);
        }
        out.append(parts[i].as_str());
        proof {
            let dv = parts.deep_view();
            assert(dv.subrange(0, i + 1).drop_last() =~= dv.subrange(0, i as int));
            assert(dv.subrange(0, i + 1).last() == dv[i as int]);
            assert(parts.deep_view()[i as int] == parts[i as int]@);
            if i == 0 {
                assert(out@ =~= join_sep(dv.subrange(0, 1), sep));
            }
        }
        i += 1;
    }
    proof {
        assert(parts.deep_view().subrange(0, parts.len() as int) =~= parts.deep_view());
    }
    out
}

/// Join `parts` with `:`.
pub fn join_colon(parts: &Vec<String>) -> (r: String)
    ensures
        r@ == join_sep(parts.deep_view(), ':'),
{
    proof {
        reveal_strlit(":");
    }
    join_char(parts, ':', ":")
}

/// Join `parts` with `,`.
pub fn join_comma(parts: &Vec<String>) -> (r: String)
    ensures
        r@ == join_sep(parts.deep_view(), ','),
{
    proof {
        reveal_strlit(",");
    }
    join_char(parts, ',', ",")
}

/// Index of the first occurrence of `c` in `s`, or `-1` when absent.
pub open spec fn spec_find(s: Seq<char>, c: char) -> int
    decreases s.len(),
{
    if s.len() == 0 {
        -1
    } else if s[0] == c {
        0
    } else {
        let r = spec_find(s.drop_first(), c);
        if r < 0 {
            -1
        } else {
            r + 1
        }
    }
}

/// What `spec_find` returns: the first occurrence, or `-1` when none exists.
pub proof fn lemma_spec_find(s: Seq<char>, c: char)
    ensures
        spec_find(s, c) >= 0 ==> spec_find(s, c) < s.len() && s[spec_find(s, c)] == c && forall|
            j: int,
        | 0 <= j < spec_find(s, c) ==> s[j] != c,
        spec_find(s, c) < 0 ==> forall|j: int| 0 <= j < s.len() ==> s[j] != c,
    decreases s.len(),
{
    if s.len() > 0 && s[0] != c {
        lemma_spec_find(s.drop_first(), c);
        let r = spec_find(s.drop_first(), c);
        if r >= 0 {
            assert(s.drop_first()[r] == s[r + 1]);
            assert forall|j: int| 0 <= j < r + 1 implies s[j] != c by {
                if j > 0 {
                    assert(s.drop_first()[j - 1] == s[j]);
                }
            }
        } else {
            assert forall|j: int| 0 <= j < s.len() implies s[j] != c by {
                if j > 0 {
                    assert(s.drop_first()[j - 1] == s[j]);
                }
            }
        }
    }
}

/// The pieces of `s` cut at every occurrence of `c`; the separators belong
/// to no piece, and `n` separators give `n + 1` pieces.
pub open spec fn split_seq(s: Seq<char>, c: char) -> Seq<Seq<char>>
    decreases s.len(),
    via split_seq_decreases
{
    if spec_find(s, c) < 0 {
        seq![s]
    } else {
        let i = spec_find(s, c);
        seq![s.subrange(0, i)] + split_seq(s.subrange(i + 1, s.len() as int), c)
    }
}

#[via_fn]
proof fn split_seq_decreases(s: Seq<char>, c: char) {
    lemma_spec_find(s, c);
}

/// A first occurrence at `i` pins down `spec_find` and one unfolding of
/// `split_seq`.
pub proof fn lemma_first_occurrence(s: Seq<char>, c: char, i: int)
    requires
        0 <= i < s.len(),
        s[i] == c,
        forall|j: int| 0 <= j < i ==> s[j] != c,
    ensures
        spec_find(s, c) == i,
        split_seq(s, c) == seq![s.subrange(0, i)] + split_seq(
            s.subrange(i + 1, s.len() as int),
            c,
        ),
{
    lemma_spec_find(s, c);
    let w = spec_find(s, c);
    if w < 0 {
        assert(s[i] != c);
    }
    if w < i {
        assert(s[w] != c);
    }
    if w > i {
        assert(s[i] != c);
    }
}

/// When `c` does not occur, `split_seq` is the one whole piece.
pub proof fn lemma_no_occurrence(s: Seq<char>, c: char)
    requires
        forall|j: int| 0 <= j < s.len() ==> s[j] != c,
    ensures
        spec_find(s, c) < 0,
        split_seq(s, c) == seq![s],
{
    lemma_spec_find(s, c);
    if spec_find(s, c) >= 0 {
        assert(s[spec_find(s, c)] != c);
    }
}

/// Cut `s` at every occurrence of `c`.
pub fn split_char(s: &str, c: char) -> (r: Vec<String>)
    ensures
        r.deep_view() == split_seq(s@, c),
        r.len() >= 1,
    decreases s@.len(),
{
    let n = s.unicode_len();
    match find_char(s, c) {
        Some(i) => {
            let head = s.substring_char(0, i);
            let tail = s.substring_char(i + 1, n);
            let mut rest = split_char(tail, c);
            proof {
                lemma_first_occurrence(s@, c, i as int);
            }
            let ghost v0 = rest@;
            let ghost dv0 = rest.deep_view();
            let head_s = String::from_str(head);
            rest.insert(0, head_s);
            proof {
                assert forall|k: int| 0 <= k < rest.deep_view().len() implies rest.deep_view()[k]
                    == (seq![head@] + dv0)[k] by {
                    if k == 0 {
                        assert(rest@[0] == head_s);
                    } else {
                        assert(rest@[k] == v0[k - 1]);
                    }
                }
                assert(rest.deep_view() =~= seq![head@] + dv0);
                assert(rest.deep_view() =~= split_seq(s@, c));
            }
            rest
        },
        None => {
            let mut out: Vec<String> = Vec::new();
            out.push(String::from_str(s));
            proof {
                lemma_no_occurrence(s@, c);
                assert(out.deep_view() =~= seq![s@]);
            }
            out
        },
    }
}

/// `s` with leading and trailing spaces removed.
pub open spec fn spec_trim_spaces(s: Seq<char>) -> Seq<char>
    decreases s.len(),
{
    if s.len() > 0 && s[0] == ' ' {
        spec_trim_spaces(s.drop_first())
    } else if s.len() > 0 && s.last() == ' ' {
        spec_trim_spaces(s.drop_last())
    } else {
        s
    }
}

/// Remove leading and trailing spaces.
pub fn trim_spaces<'a>(s: &'a str) -> (r: &'a str)
    ensures
        r@ == spec_trim_spaces(s@),
    decreases s@.len(),
{
    let n = s.unicode_len();
    if n > 0 && s.get_char(0) == ' ' {
        let rest = s.substring_char(1, n);
        proof {
            assert(rest@ =~= s@.drop_first());
        }
        trim_spaces(rest)
    } else if n > 0 && s.get_char(n - 1) == ' ' {
        let rest = s.substring_char(0, n - 1);
        proof {
            assert(rest@ =~= s@.drop_last());
        }
        trim_spaces(rest)
    } else {
        s
    }
}

} // verus!
