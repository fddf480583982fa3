//! Extraction of refresh-rate readings from decoded EDID prose.
//!
//! The text is scanned left to right.  Wherever a whole *reading*
//! matches — a run of decimal digits, a tolerated fractional part
//! (`.` and more digits), optional whitespace, then the letters `Hz` —
//! its value is the leading digit run, and the scan resumes after the
//! consumed `Hz`, so the digits of a fraction are part of their number
//! and never a reading of their own; everywhere else the scan moves on
//! by one character.  Readings are best-effort facts mined from
//! free-form text, so only values strictly above 60 Hz and at most
//! 500 Hz are believed; anything larger is treated as noise.

use vstd::prelude::*;
use vstd::string::*;
use crate::text::{digit_val, is_digit, is_digit_char, is_space, is_space_char, lemma_seq_val_extend, seq_val};

verus! {

/// End of the run of digit characters that starts at `i`.
pub open spec fn run_end(t: Seq<char>, i: int) -> int
    decreases t.len() - i,
{
    if i < 0 || i >= t.len() {
        i
    } else if is_digit(t[i]) {
        run_end(t, i + 1)
    } else {
        i
    }
}

pub proof fn lemma_run_end_props(t: Seq<char>, i: int)
    requires
        0 <= i <= t.len(),
    ensures
        i <= run_end(t, i) <= t.len(),
        forall|m: int| i <= m < run_end(t, i) ==> is_digit(#[trigger] t[m]),
        run_end(t, i) < t.len() ==> !is_digit(t[run_end(t, i)]),
    decreases t.len() - i,
{
    if i < t.len() && is_digit(t[i]) {
        lemma_run_end_props(t, i + 1);
    }
}

/// End of the tolerated fractional part whose number's digits end at
/// `j`: a decimal point and the digits after it, or nothing.
pub open spec fn frac_end(t: Seq<char>, j: int) -> int {
    if 0 <= j < t.len() && t[j] == '.' {
        run_end(t, j + 1)
    } else {
        j
    }
}

/// End of the run of whitespace characters that starts at `k`.
pub open spec fn ws_end(t: Seq<char>, k: int) -> int
    decreases t.len() - k,
{
    if k < 0 || k >= t.len() {
        k
    } else if is_space(t[k]) {
        ws_end(t, k + 1)
    } else {
        k
    }
}

proof fn lemma_ws_end_props(t: Seq<char>, k: int)
    requires
        0 <= k <= t.len(),
    ensures
        k <= ws_end(t, k) <= t.len(),
    decreases t.len() - k,
{
    if k < t.len() && is_space(t[k]) {
        lemma_ws_end_props(t, k + 1);
    }
}

/// Where the letters `Hz` must stand for a reading whose digits end at
/// `j`: after the tolerated fraction and the whitespace run.
pub open spec fn hz_pos(t: Seq<char>, j: int) -> int {
    ws_end(t, frac_end(t, j))
}

/// A whole reading matches at `i`: a digit run, an optional fraction,
/// optional whitespace, and the letters `Hz`.
pub open spec fn hz_match_at(t: Seq<char>, i: int) -> bool {
    &&& 0 <= i < t.len()
    &&& is_digit(t[i])
    &&& hz_pos(t, run_end(t, i)) + 2 <= t.len()
    &&& t[hz_pos(t, run_end(t, i))] == 'H'
    &&& t[hz_pos(t, run_end(t, i)) + 1] == 'z'
}

/// The position just after the `Hz` of the reading matched at `i`.
pub open spec fn hz_match_end(t: Seq<char>, i: int) -> int {
    hz_pos(t, run_end(t, i)) + 2
}

/// The integer value of the reading matched at `i`: its leading digit
/// run, the fraction discarded.
pub open spec fn hz_value_at(t: Seq<char>, i: int) -> nat {
    seq_val(t.subrange(i, run_end(t, i)))
}

/// Only rates strictly above 60 Hz and at most 500 Hz are believed.
pub open spec fn hz_qualifies(v: nat) -> bool {
    60 < v <= 500
}

/// A match is consumed whole: its end lies past its start and within
/// the text.
pub proof fn lemma_match_end_bounds(t: Seq<char>, i: int)
    requires
        hz_match_at(t, i),
    ensures
        i < hz_match_end(t, i) <= t.len(),
        i < run_end(t, i),
{
    lemma_run_end_props(t, i + 1);
    let j = run_end(t, i);
    if 0 <= j < t.len() && t[j] == '.' {
        lemma_run_end_props(t, j + 1);
    }
    lemma_ws_end_props(t, frac_end(t, j));
}

/// The largest believable reading the scan finds from position `i` on.
pub open spec fn scan_best(t: Seq<char>, i: int) -> nat
    decreases t.len() - i,
{
    if i < 0 || i >= t.len() {
        0
    } else if hz_match_at(t, i) {
        proof {
            lemma_match_end_bounds(t, i);
        }
        let v = hz_value_at(t, i);
        let rest = scan_best(t, hz_match_end(t, i));
        if hz_qualifies(v) && v > rest {
            v
        } else {
            rest
        }
    } else {
        scan_best(t, i + 1)
    }
}

/// Largest believable refresh-rate reading anywhere in `t`; 0 if none.
pub open spec fn best_hz(t: Seq<char>) -> nat {
    scan_best(t, 0)
}

proof fn lemma_scan_best_bounds(t: Seq<char>, i: int)
    ensures
        scan_best(t, i) == 0 || hz_qualifies(scan_best(t, i)),
    decreases t.len() - i,
{
    if 0 <= i < t.len() {
        if hz_match_at(t, i) {
            lemma_match_end_bounds(t, i);
            lemma_scan_best_bounds(t, hz_match_end(t, i));
        } else {
            lemma_scan_best_bounds(t, i + 1);
        }
    }
}

/// A believable best reading is itself believable: `best_hz` is either
/// 0 (no reading qualified) or a value above 60 and at most 500.
pub proof fn lemma_best_hz_bounds(t: Seq<char>)
    ensures
        best_hz(t) == 0 || (60 < best_hz(t) <= 500),
{
    lemma_scan_best_bounds(t, 0);
}

/// End of the digit run starting at `i`, as the scan walks it.
fn run_end_exec(t: &str, tn: usize, i: usize) -> (j: usize)
    requires
        tn == t@.len(),
        i <= tn,
    ensures
        j as int == run_end(t@, i as int),
        i <= j <= tn,
{
    let mut j = i;
    while j < tn && is_digit_char(t.get_char(j))
        invariant
            i <= j <= tn,
            run_end(t@, i as int) == run_end(t@, j as int),
        decreases tn - j,
    {
        j += 1;
    }
    j
}

/// End of the whitespace run starting at `k`.
fn ws_end_exec(t: &str, tn: usize, k: usize) -> (l: usize)
    requires
        tn == t@.len(),
        k <= tn,
    ensures
        l as int == ws_end(t@, k as int),
        k <= l <= tn,
{
    let mut l = k;
    while l < tn && is_space_char(t.get_char(l))
        invariant
            k <= l <= tn,
            ws_end(t@, k as int) == ws_end(t@, l as int),
        decreases tn - l,
    {
        l += 1;
    }
    l
}

/// Value of the digit run `[i, j)`, saturated just above the believable
/// ceiling so oversized numbers are seen as noise without overflow.
fn run_value_exec(t: &str, tn: usize, i: usize, j: usize) -> (v: u64)
    requires
        tn == t@.len(),
        i < j <= tn,
        forall|m: int| i <= m < j ==> is_digit(#[trigger] t@[m]),
    ensures
        v == if seq_val(t@.subrange(i as int, j as int)) <= 500 {
            seq_val(t@.subrange(i as int, j as int)) as u64
        } else {
            501
        },
{
    let c = t.get_char(i);
    let mut acc: u64 = (c as u32 - '0' as u32) as u64;
    let mut m = i + 1;
    proof {
        let s1 = t@.subrange(i as int, i as int + 1);
        assert(s1.drop_last() =~= Seq::<char>::empty());
        assert(s1.last() == t@[i as int]);
        assert(seq_val(Seq::<char>::empty()) == 0);
        assert(seq_val(s1) == digit_val(t@[i as int]));
        assert(acc == digit_val(t@[i as int]));
    }
    while m < j
        invariant
            i < m <= j <= tn,
            forall|k: int| i <= k < j ==> is_digit(#[trigger] t@[k]),
            acc == if seq_val(t@.subrange(i as int, m as int)) <= 500 {
                seq_val(t@.subrange(i as int, m as int)) as u64
            } else {
                501
            },
        decreases j - m,
    {
        proof {
            lemma_seq_val_extend(t@, i as int, m as int);
        }
        let d: u64 = (t.get_char(m) as u32 - '0' as u32) as u64;
        acc = acc * 10 + d;
        if acc > 500 {
            acc = 501;
        }
        m += 1;
    }
    acc
}

/// Scan `t` left to right for the largest believable refresh-rate
/// reading.
///
/// Returns 0 when no reading qualifies (value above 60 and at most
/// 500), and otherwise the largest qualifying value.
pub fn max_hz_reading(t: &str) -> (r: u32)
    ensures
        r == best_hz(t@),
        r <= 500,
{
    let tn = t.unicode_len();
    let mut best: u32 = 0;
    let mut i: usize = 0;
    while i < tn
        invariant
            tn == t@.len(),
            0 <= i <= tn,
            best <= 500,
            best_hz(t@) == if scan_best(t@, i as int) > best {
                scan_best(t@, i as int)
            } else {
                best as nat
            },
        decreases tn - i,
    {
        if is_digit_char(t.get_char(i)) {
            let j = run_end_exec(t, tn, i);
            proof {
                lemma_run_end_props(t@, i as int);
                assert(j > i);
            }
            let k = if j < tn && t.get_char(j) == '.' {
                run_end_exec(t, tn, j + 1)
            } else {
                j
            };
            assert(k as int == frac_end(t@, j as int));
            let l = ws_end_exec(t, tn, k);
            assert(l as int == hz_pos(t@, j as int));
            if tn - l >= 2 && t.get_char(l) == 'H' && t.get_char(l + 1) == 'z' {
                assert(hz_match_at(t@, i as int));
                let v = run_value_exec(t, tn, i, j);
                if v > 60 && v <= 500 {
                    let v32 = v as u32;
                    if v32 > best {
                        best = v32;
                    }
                }
                i = l + 2;
            } else {
                assert(!hz_match_at(t@, i as int));
                i += 1;
            }
        } else {
            assert(!hz_match_at(t@, i as int));
            i += 1;
        }
    }
    best
}

} // verus!
