//! Verified text utilities: decimal digits, substring containment,
//! whitespace trimming and number parsing/formatting over `&str`
//! values viewed as sequences of characters.

use vstd::prelude::*;
use vstd::string::*;

verus! {

/// A decimal digit character.
pub open spec fn is_digit(c: char) -> bool {
    '0' <= c && c <= '9'
}

/// Numeric value of a decimal digit character.
pub open spec fn digit_val(c: char) -> nat {
    (c as nat - '0' as nat) as nat
}

/// Value of a sequence of decimal digit characters, most significant first.
pub open spec fn seq_val(s: Seq<char>) -> nat
    decreases s.len(),
{
    if s.len() == 0 {
        0
    } else {
        seq_val(s.drop_last()) * 10 + digit_val(s.last())
    }
}

/// Every character of `s` is a decimal digit.
pub open spec fn all_digits(s: Seq<char>) -> bool {
    forall|i: int| 0 <= i < s.len() ==> is_digit(#[trigger] s[i])
}

/// A non-empty run of decimal digits: the shape a number must have to parse.
pub open spec fn is_number(s: Seq<char>) -> bool {
    s.len() > 0 && all_digits(s)
}

/// Appending one digit multiplies the value by ten and adds the digit.
pub proof fn lemma_seq_val_extend(s: Seq<char>, i: int, m: int)
    requires
        0 <= i <= m < s.len(),
    ensures
        seq_val(s.subrange(i, m + 1)) == seq_val(s.subrange(i, m)) * 10 + digit_val(s[m]),
{
    let pre = s.subrange(i, m + 1);
    assert(pre.drop_last() =~= s.subrange(i, m));
    assert(pre.last() == s[m]);
}

proof fn lemma_seq_val_grow(s: Seq<char>, i: int)
    requires
        0 <= i < s.len(),
    ensures
        seq_val(s.subrange(0, i + 1)) == seq_val(s.subrange(0, i)) * 10 + digit_val(s[i]),
{
    lemma_seq_val_extend(s, 0, i);
}

/// Executable twin of `is_digit`.
pub fn is_digit_char(c: char) -> (r: bool)
    ensures
        r == is_digit(c),
{
    '0' <= c && c <= '9'
}

/// Parse a non-empty all-digit string as a `u32`.
///
/// Returns `Some(n)` exactly when the whole string is a non-empty run of
/// decimal digits whose value fits in a `u32`, and then `n` is that value.
pub fn parse_u32(s: &str) -> (r: Option<u32>)
    ensures
        r is Some <==> is_number(s@) && seq_val(s@) <= u32::MAX,
        r is Some ==> r->0 == seq_val(s@),
{
    let n = s.unicode_len();
    if n == 0 {
        return None;
    }
    // Accumulate in a u64, saturating just above u32::MAX so overflowing
    // inputs are detected without wrapping.
    let cap: u64 = 0x1_0000_0000;
    let mut acc: u64 = 0;
    let mut i: usize = 0;
    while i < n
        invariant
            n == s@.len(),
            0 <= i <= n,
            all_digits(s@.subrange(0, i as int)),
            acc == if seq_val(s@.subrange(0, i as int)) <= u32::MAX {
                seq_val(s@.subrange(0, i as int)) as u64
            } else {
                cap
            },
        decreases n - i,
    {
        let c = s.get_char(i);
        if c < '0' || c > '9' {
            assert(!is_digit(s@[i as int]));
            return None;
        }
        let d: u64 = (c as u32 - '0' as u32) as u64;
        proof {
            lemma_seq_val_grow(s@, i as int);
            assert(d == digit_val(s@[i as int]));
        }
        acc = acc * 10 + d;
        if acc > u32::MAX as u64 {
            acc = cap;
        }
        i += 1;
    }
    assert(s@.subrange(0, n as int) =~= s@);
    if acc <= u32::MAX as u64 {
        Some(acc as u32)
    } else {
        None
    }
}

/// The pattern `p` occurs in `t` starting at position `i`.
pub open spec fn contains_at(t: Seq<char>, p: Seq<char>, i: int) -> bool {
    &&& 0 <= i
    &&& i + p.len() <= t.len()
    &&& forall|k: int| 0 <= k < p.len() ==> t[i + k] == p[k]
}

/// The pattern `p` occurs somewhere in `t`.
pub open spec fn contains_seq(t: Seq<char>, p: Seq<char>) -> bool {
    exists|i: int| contains_at(t, p, i)
}

/// Whether `p` occurs in `t` starting exactly at `i`.
fn matches_at(t: &str, tn: usize, p: &str, pn: usize, i: usize) -> (r: bool)
    requires
        tn == t@.len(),
        pn == p@.len(),
        i + pn <= tn,
    ensures
        r == contains_at(t@, p@, i as int),
{
    let mut k: usize = 0;
    while k < pn
        invariant
            0 <= k <= pn,
            forall|m: int| 0 <= m < k ==> t@[i + m] == p@[m],
        decreases pn - k,
    {
        if t.get_char(i + k) != p.get_char(k) {
            return false;
        }
        k += 1;
    }
    true
}

/// Substring search: does `p` occur anywhere in `t`?
pub fn str_contains(t: &str, p: &str) -> (r: bool)
    ensures
        r == contains_seq(t@, p@),
{
    let tn = t.unicode_len();
    let pn = p.unicode_len();
    if pn > tn {
        assert(forall|i: int| !contains_at(t@, p@, i));
        return false;
    }
    let mut i: usize = 0;
    while i <= tn - pn
        invariant
            pn <= tn,
            0 <= i <= tn - pn + 1,
            forall|j: int| 0 <= j < i ==> !contains_at(t@, p@, j),
        decreases tn - pn - i + 1,
    {
        if matches_at(t, tn, p, pn, i) {
            return true;
        }
        i += 1;
    }
    assert(forall|j: int| j > tn - pn ==> !contains_at(t@, p@, j));
    false
}

/// Does `s` start with the prefix `p`?
pub fn str_starts_with(s: &str, p: &str) -> (r: bool)
    ensures
        r == contains_at(s@, p@, 0),
{
    let sn = s.unicode_len();
    let pn = p.unicode_len();
    if pn > sn {
        return false;
    }
    matches_at(s, sn, p, pn, 0)
}

/// Character-for-character string equality.
pub fn str_eq(a: &str, b: &str) -> (r: bool)
    ensures
        r == (a@ == b@),
{
    let an = a.unicode_len();
    let bn = b.unicode_len();
    if an != bn {
        return false;
    }
    let mut i: usize = 0;
    while i < an
        invariant
            an == a@.len() == b@.len(),
            0 <= i <= an,
            forall|j: int| 0 <= j < i ==> a@[j] == b@[j],
        decreases an - i,
    {
        if a.get_char(i) != b.get_char(i) {
            return false;
        }
        i += 1;
    }
    assert(a@ =~= b@);
    true
}

/// Index of the first occurrence of `c` in `s`, or `s.len()` if absent.
pub open spec fn first_index_of(s: Seq<char>, c: char) -> int
    decreases s.len(),
{
    if s.len() == 0 {
        0
    } else if s[0] == c {
        0
    } else {
        1 + first_index_of(s.subrange(1, s.len() as int), c)
    }
}

pub proof fn lemma_first_index_props(s: Seq<char>, c: char)
    ensures
        0 <= first_index_of(s, c) <= s.len(),
        forall|j: int| 0 <= j < first_index_of(s, c) ==> s[j] != c,
        first_index_of(s, c) < s.len() ==> s[first_index_of(s, c)] == c,
    decreases s.len(),
{
    if s.len() > 0 && s[0] != c {
        let tail = s.subrange(1, s.len() as int);
        lemma_first_index_props(tail, c);
        assert forall|j: int| 0 <= j < first_index_of(s, c) implies s[j] != c by {
            if j > 0 {
                assert(tail[j - 1] != c);
            }
        }
    }
}

/// Any index with the "first occurrence" properties is `first_index_of`.
pub proof fn lemma_first_index_unique(s: Seq<char>, c: char, i: int)
    requires
        0 <= i <= s.len(),
        forall|j: int| 0 <= j < i ==> s[j] != c,
        i < s.len() ==> s[i] == c,
    ensures
        i == first_index_of(s, c),
{
    lemma_first_index_props(s, c);
    let f = first_index_of(s, c);
    if f < i {
        assert(s[f] != c);
    } else if i < f {
        assert(s[i] != c);
    }
}

/// Index of the first occurrence of `c` in `s`, or the length if absent.
pub fn find_char(s: &str, c: char) -> (i: usize)
    ensures
        i == first_index_of(s@, c),
{
    let n = s.unicode_len();
    let mut i: usize = 0;
    while i < n
        invariant
            n == s@.len(),
            0 <= i <= n,
            forall|j: int| 0 <= j < i ==> s@[j] != c,
        decreases n - i,
    {
        if s.get_char(i) == c {
            proof {
                lemma_first_index_unique(s@, c, i as int);
            }
            return i;
        }
        i += 1;
    }
    proof {
        lemma_first_index_unique(s@, c, n as int);
    }
    n
}

/// How many times `c` occurs in `s`.
pub open spec fn count_char(s: Seq<char>, c: char) -> nat
    decreases s.len(),
{
    if s.len() == 0 {
        0
    } else {
        count_char(s.drop_last(), c) + (if s.last() == c {
            1nat
        } else {
            0nat
        })
    }
}

proof fn lemma_count_grow(s: Seq<char>, c: char, i: int)
    requires
        0 <= i < s.len(),
    ensures
        count_char(s.subrange(0, i + 1), c) == count_char(s.subrange(0, i), c) + (if s[i] == c {
            1nat
        } else {
            0nat
        }),
{
    let pre = s.subrange(0, i + 1);
    assert(pre.drop_last() =~= s.subrange(0, i));
    assert(pre.last() == s[i]);
}

/// Number of occurrences of `c` in `s`.
pub fn count_char_occurrences(s: &str, c: char) -> (r: usize)
    ensures
        r == count_char(s@, c),
{
    let n = s.unicode_len();
    let mut i: usize = 0;
    let mut count: usize = 0;
    while i < n
        invariant
            n == s@.len(),
            0 <= i <= n,
            count == count_char(s@.subrange(0, i as int), c),
            count <= i,
        decreases n - i,
    {
        proof {
            lemma_count_grow(s@, c, i as int);
        }
        if s.get_char(i) == c {
            count += 1;
        }
        i += 1;
    }
    assert(s@.subrange(0, n as int) =~= s@);
    count
}

/// Occurrences in a concatenation are the occurrences in its parts.
pub proof fn lemma_count_concat(a: Seq<char>, b: Seq<char>, c: char)
    ensures
        count_char(a + b, c) == count_char(a, c) + count_char(b, c),
    decreases b.len(),
{
    if b.len() == 0 {
        assert(a + b =~= a);
    } else {
        lemma_count_concat(a, b.drop_last(), c);
        assert((a + b).drop_last() =~= a + b.drop_last());
        assert((a + b).last() == b.last());
    }
}

/// A character absent from every position does not count.
pub proof fn lemma_count_zero(s: Seq<char>, c: char)
    requires
        forall|i: int| 0 <= i < s.len() ==> s[i] != c,
    ensures
        count_char(s, c) == 0,
    decreases s.len(),
{
    if s.len() > 0 {
        lemma_count_zero(s.drop_last(), c);
    }
}

/// A positive count means the character occurs: its first index is in range.
pub proof fn lemma_count_pos_occurrence(s: Seq<char>, c: char)
    requires
        count_char(s, c) > 0,
    ensures
        first_index_of(s, c) < s.len(),
        s[first_index_of(s, c)] == c,
{
    lemma_first_index_props(s, c);
    if first_index_of(s, c) == s.len() {
        lemma_count_zero(s, c);
    }
}

/// The characters with the Unicode white-space property: what
/// `str::trim` strips from the ends of raw input and what may separate
/// a number from its `Hz` unit.
pub open spec fn is_space(c: char) -> bool {
    ||| ('\u{9}' <= c && c <= '\u{d}')
    ||| c == ' '
    ||| c == '\u{85}'
    ||| c == '\u{a0}'
    ||| c == '\u{1680}'
    ||| ('\u{2000}' <= c && c <= '\u{200a}')
    ||| c == '\u{2028}'
    ||| c == '\u{2029}'
    ||| c == '\u{202f}'
    ||| c == '\u{205f}'
    ||| c == '\u{3000}'
}

/// `s` with ASCII whitespace stripped from both ends.
pub open spec fn trimmed(s: Seq<char>) -> Seq<char>
    decreases s.len(),
{
    if s.len() == 0 {
        s
    } else if is_space(s[0]) {
        trimmed(s.subrange(1, s.len() as int))
    } else if is_space(s.last()) {
        trimmed(s.drop_last())
    } else {
        s
    }
}

proof fn lemma_trimmed_all_space(s: Seq<char>)
    requires
        forall|i: int| 0 <= i < s.len() ==> is_space(#[trigger] s[i]),
    ensures
        trimmed(s) =~= Seq::<char>::empty(),
    decreases s.len(),
{
    if s.len() > 0 {
        lemma_trimmed_all_space(s.subrange(1, s.len() as int));
    }
}

proof fn lemma_trimmed_range(s: Seq<char>, f: int, l: int)
    requires
        0 <= f <= l < s.len(),
        !is_space(s[f]),
        !is_space(s[l]),
        forall|i: int| 0 <= i < f ==> is_space(#[trigger] s[i]),
        forall|i: int| l < i < s.len() ==> is_space(#[trigger] s[i]),
    ensures
        trimmed(s) =~= s.subrange(f, l + 1),
    decreases s.len(),
{
    if f > 0 {
        let tail = s.subrange(1, s.len() as int);
        lemma_trimmed_range(tail, f - 1, l - 1);
        assert(tail.subrange(f - 1, l) =~= s.subrange(f, l + 1));
    } else if l < s.len() - 1 {
        lemma_trimmed_range(s.drop_last(), f, l);
        assert(s.drop_last().subrange(f, l + 1) =~= s.subrange(f, l + 1));
    } else {
        assert(s.subrange(0, s.len() as int) =~= s);
    }
}

/// Strip ASCII whitespace from both ends of `s`.
pub fn trim(s: &str) -> (r: &str)
    ensures
        r@ == trimmed(s@),
{
    let n = s.unicode_len();
    let mut f: usize = 0;
    while f < n && is_space_char(s.get_char(f))
        invariant
            n == s@.len(),
            0 <= f <= n,
            forall|i: int| 0 <= i < f ==> is_space(#[trigger] s@[i]),
        decreases n - f,
    {
        f += 1;
    }
    if f == n {
        proof {
            lemma_trimmed_all_space(s@);
        }
        let r = s.substring_char(n, n);
        assert(r@ =~= trimmed(s@));
        return r;
    }
    let mut l: usize = n - 1;
    while l > f && is_space_char(s.get_char(l))
        invariant
            n == s@.len(),
            f <= l < n,
            forall|i: int| l < i < n ==> is_space(#[trigger] s@[i]),
        decreases l,
    {
        l -= 1;
    }
    proof {
        lemma_trimmed_range(s@, f as int, l as int);
    }
    s.substring_char(f, l + 1)
}

/// Executable twin of `is_space`.
pub fn is_space_char(c: char) -> (r: bool)
    ensures
        r == is_space(c),
{
    ('\u{9}' <= c && c <= '\u{d}') || c == ' ' || c == '\u{85}' || c == '\u{a0}' || c
        == '\u{1680}' || ('\u{2000}' <= c && c <= '\u{200a}') || c == '\u{2028}' || c == '\u{2029}'
        || c == '\u{202f}' || c == '\u{205f}' || c == '\u{3000}'
}

/// The prefix of `s` before its first newline (the whole of `s` if none).
pub open spec fn first_line_spec(s: Seq<char>) -> Seq<char> {
    s.subrange(0, first_index_of(s, '\n'))
}

/// Take the first line of a multi-line string.
pub fn first_line(s: &str) -> (r: &str)
    ensures
        r@ == first_line_spec(s@),
{
    proof {
        lemma_first_index_props(s@, '\n');
    }
    let e = find_char(s, '\n');
    s.substring_char(0, e)
}

/// Start of the first occurrence of `p` in `t`; `t.len()` when `p` does
/// not occur (and `p` is non-empty).
pub open spec fn first_occurrence(t: Seq<char>, p: Seq<char>) -> int
    decreases t.len(),
{
    if contains_at(t, p, 0) {
        0
    } else if t.len() == 0 {
        0
    } else {
        1 + first_occurrence(t.subrange(1, t.len() as int), p)
    }
}

pub proof fn lemma_first_occurrence_props(t: Seq<char>, p: Seq<char>)
    ensures
        0 <= first_occurrence(t, p) <= t.len(),
        forall|j: int| 0 <= j < first_occurrence(t, p) ==> !contains_at(t, p, j),
        contains_seq(t, p) ==> contains_at(t, p, first_occurrence(t, p)),
    decreases t.len(),
{
    if !contains_at(t, p, 0) && t.len() > 0 {
        let tail = t.subrange(1, t.len() as int);
        lemma_first_occurrence_props(tail, p);
        assert forall|j: int| 0 <= j < first_occurrence(t, p) implies !contains_at(t, p, j) by {
            if j > 0 && contains_at(t, p, j) {
                assert(contains_at(tail, p, j - 1)) by {
                    assert forall|k: int| 0 <= k < p.len() implies tail[j - 1 + k] == p[k] by {
                        assert(t[j + k] == p[k]);
                    }
                }
            }
        }
        if contains_seq(t, p) {
            let w = choose|w: int| contains_at(t, p, w);
            assert(w > 0);
            assert(contains_at(tail, p, w - 1)) by {
                assert forall|k: int| 0 <= k < p.len() implies tail[w - 1 + k] == p[k] by {
                    assert(t[w + k] == p[k]);
                }
            }
            let f = first_occurrence(tail, p);
            assert(contains_at(tail, p, f));
            assert(contains_at(t, p, f + 1)) by {
                assert forall|k: int| 0 <= k < p.len() implies t[f + 1 + k] == p[k] by {
                    assert(tail[f + k] == p[k]);
                }
            }
        }
    }
}

proof fn lemma_first_occurrence_unique(t: Seq<char>, p: Seq<char>, i: int)
    requires
        0 <= i <= t.len(),
        forall|j: int| 0 <= j < i ==> !contains_at(t, p, j),
        contains_at(t, p, i) || (i == t.len() && !contains_seq(t, p)),
    ensures
        contains_at(t, p, i) ==> i == first_occurrence(t, p),
{
    lemma_first_occurrence_props(t, p);
    if contains_at(t, p, i) {
        let f = first_occurrence(t, p);
        if f < i {
            assert(!contains_at(t, p, f));
        }
    }
}

/// Find the first occurrence of `p` in `t`: its start position if `p`
/// occurs, or `None`.
pub fn find_substring(t: &str, p: &str) -> (r: Option<usize>)
    requires
        p@.len() > 0,
    ensures
        r is Some ==> r->0 == first_occurrence(t@, p@) && contains_at(t@, p@, r->0 as int),
        r is None ==> !contains_seq(t@, p@),
{
    let tn = t.unicode_len();
    let pn = p.unicode_len();
    if pn > tn {
        assert(forall|i: int| !contains_at(t@, p@, i));
        return None;
    }
    let mut i: usize = 0;
    while i <= tn - pn
        invariant
            pn <= tn,
            0 <= i <= tn - pn + 1,
            forall|j: int| 0 <= j < i ==> !contains_at(t@, p@, j),
        decreases tn - pn - i + 1,
    {
        if matches_at(t, tn, p, pn, i) {
            proof {
                lemma_first_occurrence_unique(t@, p@, i as int);
            }
            return Some(i);
        }
        i += 1;
    }
    assert(forall|j: int| j > tn - pn ==> !contains_at(t@, p@, j));
    None
}

/// Append one more string to a vector of strings.
pub fn push_str(args: &mut Vec<String>, s: &str)
    ensures
        final(args).deep_view() == old(args).deep_view().push(s@),
{
    args.push(String::from_str(s));
    proof {
        assert(args.deep_view() =~= old(args).deep_view().push(s@));
    }
}

/// Append an owned string to a vector of strings.
pub fn push_string(args: &mut Vec<String>, s: String)
    ensures
        final(args).deep_view() == old(args).deep_view().push(s@),
{
    let ghost v = s@;
    args.push(s);
    proof {
        assert(args.deep_view() =~= old(args).deep_view().push(v));
    }
}

/// Decimal digit character for a digit value.
pub open spec fn digit_char(d: nat) -> char {
    if d == 0 {
        '0'
    } else if d == 1 {
        '1'
    } else if d == 2 {
        '2'
    } else if d == 3 {
        '3'
    } else if d == 4 {
        '4'
    } else if d == 5 {
        '5'
    } else if d == 6 {
        '6'
    } else if d == 7 {
        '7'
    } else if d == 8 {
        '8'
    } else {
        '9'
    }
}

/// Decimal representation of `n`, most significant digit first.
pub open spec fn dec_str(n: nat) -> Seq<char>
    decreases n,
{
    if n < 10 {
        seq![digit_char(n)]
    } else {
        dec_str(n / 10).push(digit_char(n % 10))
    }
}

/// A formatted number is a non-empty digit run reading back to itself.
pub proof fn lemma_dec_str_value(n: nat)
    ensures
        dec_str(n).len() > 0,
        all_digits(dec_str(n)),
        seq_val(dec_str(n)) == n,
    decreases n,
{
    if n < 10 {
        let s = seq![digit_char(n)];
        assert(s.drop_last() =~= Seq::<char>::empty());
        assert(seq_val(Seq::<char>::empty()) == 0);
        assert(digit_val(digit_char(n)) == n);
        assert(all_digits(s)) by {
            assert(is_digit(s[0]));
        }
    } else {
        lemma_dec_str_value(n / 10);
        let pre = dec_str(n / 10);
        let c = digit_char(n % 10);
        assert(pre.push(c).drop_last() =~= pre);
        assert(pre.push(c).last() == c);
        assert(digit_val(c) == n % 10);
        assert(seq_val(dec_str(n)) == seq_val(pre) * 10 + n % 10);
        assert(all_digits(pre.push(c))) by {
            assert forall|i: int| 0 <= i < pre.push(c).len() implies is_digit(
                #[trigger] pre.push(c)[i],
            ) by {
                if i < pre.len() {
                    assert(is_digit(pre[i]));
                }
            }
        }
    }
}

fn digit_string(d: u32) -> (r: &'static str)
    requires
        d < 10,
    ensures
        r@ =~= seq![digit_char(d as nat)],
{
    if d == 0 {
        proof {
            reveal_strlit("0");
        }
        "0"
    } else if d == 1 {
        proof {
            reveal_strlit("1");
        }
        "1"
    } else if d == 2 {
        proof {
            reveal_strlit("2");
        }
        "2"
    } else if d == 3 {
        proof {
            reveal_strlit("3");
        }
        "3"
    } else if d == 4 {
        proof {
            reveal_strlit("4");
        }
        "4"
    } else if d == 5 {
        proof {
            reveal_strlit("5");
        }
        "5"
    } else if d == 6 {
        proof {
            reveal_strlit("6");
        }
        "6"
    } else if d == 7 {
        proof {
            reveal_strlit("7");
        }
        "7"
    } else if d == 8 {
        proof {
            reveal_strlit("8");
        }
        "8"
    } else {
        proof {
            reveal_strlit("9");
        }
        "9"
    }
}

/// Format `n` in decimal.
pub fn u32_to_string(n: u32) -> (r: String)
    ensures
        r@ == dec_str(n as nat),
    decreases n,
{
    if n < 10 {
        let r = String::from_str(digit_string(n));
        assert(r@ =~= dec_str(n as nat));
        r
    } else {
        let mut r = u32_to_string(n / 10);
        r.append(digit_string(n % 10));
        assert(r@ =~= dec_str(n as nat));
        r
    }
}

} // verus!
