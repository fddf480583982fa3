//! The display catalog's data model and the pure rules it applies: what a
//! connector entry must look like, how a `"<width>x<height>"` resolution
//! string is parsed, and which connector entries become selectable outputs.

use vstd::prelude::*;
use vstd::string::*;
use crate::text::{
    contains_at, count_char, count_char_occurrences, dec_str, find_char, first_index_of,
    first_line_spec, is_digit, is_number, is_space, lemma_count_concat, lemma_count_pos_occurrence,
    lemma_count_zero, lemma_dec_str_value, lemma_first_index_props, lemma_first_index_unique,
    parse_u32, seq_val, str_starts_with, trim, trimmed,
};

verus! {

/// Identity of a physical connector: its stable name, the path of its
/// device-tree node, and its currently advertised native resolution.
#[derive(Debug, Clone)]
pub struct DisplayInfo {
    pub connector_name: String,
    pub connector_path: String,
    pub resolution: String,
    pub width: u32,
    pub height: u32,
}

/// Why a resolution string was rejected.
#[derive(Debug, Clone, Copy, PartialEq, Eq, Structural)]
pub enum ResolutionError {
    /// Not exactly one `x` separator.
    Format,
    /// The part before the `x` is not a `u32` numeral.
    Width,
    /// The part after the `x` is not a `u32` numeral.
    Height,
}

impl ResolutionError {
    /// A human-readable description of the error.
    pub fn message(&self) -> (r: &'static str)
        ensures
            r@ == match self {
                ResolutionError::Format => "Invalid resolution format"@,
                ResolutionError::Width => "Invalid width in resolution"@,
                ResolutionError::Height => "Invalid height in resolution"@,
            },
    {
        match self {
            ResolutionError::Format => "Invalid resolution format",
            ResolutionError::Width => "Invalid width in resolution",
            ResolutionError::Height => "Invalid height in resolution",
        }
    }
}

/// The digits before the `x` separator of a trimmed resolution string.
pub open spec fn width_part(s: Seq<char>) -> Seq<char> {
    trimmed(s).subrange(0, first_index_of(trimmed(s), 'x'))
}

/// The digits after the `x` separator of a trimmed resolution string.
pub open spec fn height_part(s: Seq<char>) -> Seq<char> {
    trimmed(s).subrange(first_index_of(trimmed(s), 'x') + 1, trimmed(s).len() as int)
}

/// The string has exactly one `x` once trimmed.
pub open spec fn res_format_ok(s: Seq<char>) -> bool {
    count_char(trimmed(s), 'x') == 1
}

/// The width half is a numeral that fits in a `u32`.
pub open spec fn res_width_ok(s: Seq<char>) -> bool {
    is_number(width_part(s)) && seq_val(width_part(s)) <= u32::MAX
}

/// The height half is a numeral that fits in a `u32`.
pub open spec fn res_height_ok(s: Seq<char>) -> bool {
    is_number(height_part(s)) && seq_val(height_part(s)) <= u32::MAX
}

/// A well-formed `"<width>x<height>"` string.
pub open spec fn res_ok(s: Seq<char>) -> bool {
    res_format_ok(s) && res_width_ok(s) && res_height_ok(s)
}

/// The error a malformed resolution string is rejected with.
pub open spec fn res_error(s: Seq<char>) -> ResolutionError {
    if !res_format_ok(s) {
        ResolutionError::Format
    } else if !res_width_ok(s) {
        ResolutionError::Width
    } else {
        ResolutionError::Height
    }
}

/// Parse a `"<width>x<height>"` string, tolerating surrounding whitespace.
///
/// Succeeds exactly when the trimmed string consists of two `u32`
/// numerals joined by a single `x`, and then returns their values.
pub fn parse_resolution(res: &str) -> (r: Result<(u32, u32), ResolutionError>)
    ensures
        r is Ok <==> res_ok(res@),
        r is Ok ==> r->Ok_0 == (seq_val(width_part(res@)) as u32, seq_val(height_part(res@)) as u32),
        r is Err ==> r->Err_0 == res_error(res@),
{
    let t = trim(res);
    let tn = t.unicode_len();
    let seps = count_char_occurrences(t, 'x');
    if seps != 1 {
        return Err(ResolutionError::Format);
    }
    proof {
        lemma_count_pos_occurrence(t@, 'x');
    }
    let sep = find_char(t, 'x');
    let left = t.substring_char(0, sep);
    let right = t.substring_char(sep + 1, tn);
    let width = match parse_u32(left) {
        Some(w) => w,
        None => {
            return Err(ResolutionError::Width);
        },
    };
    let height = match parse_u32(right) {
        Some(h) => h,
        None => {
            return Err(ResolutionError::Height);
        },
    };
    Ok((width, height))
}

/// Round trip: a geometry formatted as `<width>x<height>` from its
/// numbers parses back to exactly those numbers.
pub proof fn lemma_resolution_roundtrip(w: u32, h: u32)
    ensures
        ({
            let s = dec_str(w as nat) + "x"@ + dec_str(h as nat);
            &&& res_ok(s)
            &&& seq_val(width_part(s)) == w
            &&& seq_val(height_part(s)) == h
        }),
{
    reveal_strlit("x");
    let a = dec_str(w as nat);
    let b = dec_str(h as nat);
    let x = "x"@;
    let s = a + x + b;
    lemma_dec_str_value(w as nat);
    lemma_dec_str_value(h as nat);
    assert(x.len() == 1 && x[0] == 'x');
    assert forall|i: int| 0 <= i < a.len() implies #[trigger] a[i] != 'x' by {
        assert(is_digit(a[i]));
    }
    assert forall|i: int| 0 <= i < b.len() implies #[trigger] b[i] != 'x' by {
        assert(is_digit(b[i]));
    }
    // the ends of s are digits, so trimming strips nothing
    assert(s[0] == a[0]);
    assert(is_digit(s[0]) && !is_space(s[0]));
    assert(s.last() == b.last());
    assert(is_digit(s.last()) && !is_space(s.last()));
    assert(trimmed(s) == s);
    // digits hold no x, so the one separator is the one occurrence
    lemma_count_concat(a, x, 'x');
    lemma_count_concat(a + x, b, 'x');
    lemma_count_zero(a, 'x');
    lemma_count_zero(b, 'x');
    assert(count_char(x, 'x') == 1) by {
        assert(x.drop_last() =~= Seq::<char>::empty());
        assert(count_char(Seq::<char>::empty(), 'x') == 0);
    }
    assert(count_char(s, 'x') == 1);
    // and it stands right after the width's digits
    assert(s[a.len() as int] == 'x');
    lemma_first_index_unique(s, 'x', a.len() as int);
    assert(width_part(s) =~= a);
    assert(height_part(s) =~= b);
}

/// A directory entry that names a connector: `card*` with a `-` in it.
pub open spec fn is_connector_candidate(name: Seq<char>) -> bool {
    contains_at(name, "card"@, 0) && first_index_of(name, '-') < name.len()
}

/// Does this device-tree entry name look like a display connector
/// (for example `card1-HDMI-A-1`)?
pub fn connector_candidate(name: &str) -> (r: bool)
    ensures
        r == is_connector_candidate(name@),
{
    proof {
        lemma_first_index_props(name@, '-');
    }
    if !str_starts_with(name, "card") {
        return false;
    }
    let dash = find_char(name, '-');
    dash < name.unicode_len()
}

/// The first advertised mode line, with a trailing carriage return dropped.
pub open spec fn mode_line(modes: Seq<char>) -> Seq<char> {
    let l = first_line_spec(modes);
    if l.len() > 0 && l.last() == '\r' {
        l.drop_last()
    } else {
        l
    }
}

/// Is this connector entry a selectable output, and if so which one?
///
/// Returns `Some` exactly when the entry's name looks like a connector,
/// its status reads `connected`, and the first line of its advertised
/// mode list parses as a resolution; the preferred-mode heuristic takes
/// that first line as the output's native resolution.  A malformed entry
/// yields `None` and is skipped, never an error.
pub fn connector_display(name: &str, path: &str, status: &str, modes: &str) -> (r: Option<
    DisplayInfo,
>)
    ensures
        r is Some <==> is_connector_candidate(name@) && trimmed(status@) == "connected"@ && res_ok(
            mode_line(modes@),
        ),
        r is Some ==> {
            let d = r->0;
            &&& d.connector_name@ == name@
            &&& d.connector_path@ == path@
            &&& d.resolution@ == mode_line(modes@)
            &&& d.width == seq_val(width_part(mode_line(modes@)))
            &&& d.height == seq_val(height_part(mode_line(modes@)))
        },
{
    if !connector_candidate(name) {
        return None;
    }
    let st = trim(status);
    if !crate::text::str_eq(st, "connected") {
        return None;
    }
    let line_raw = crate::text::first_line(modes);
    let ln = line_raw.unicode_len();
    let line = if ln > 0 && line_raw.get_char(ln - 1) == '\r' {
        line_raw.substring_char(0, ln - 1)
    } else {
        line_raw
    };
    assert(line@ == mode_line(modes@));
    match parse_resolution(line) {
        Ok((width, height)) => Some(
            DisplayInfo {
                connector_name: String::from_str(name),
                connector_path: String::from_str(path),
                resolution: String::from_str(line),
                width,
                height,
            },
        ),
        Err(_) => None,
    }
}

} // verus!
