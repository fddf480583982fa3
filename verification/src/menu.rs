//! Non-interactive selection helpers: the option lines handed to an
//! external launcher menu, the parsing of its answer back into an
//! output, and the numbered-menu choice rule.

use vstd::prelude::*;
use vstd::string::*;
use crate::display::DisplayInfo;
use crate::text::{contains_seq, find_substring, first_occurrence, str_eq};

verus! {

/// The launcher menu line for one output: `<name> - <resolution>`.
pub open spec fn spec_launcher_label(d: DisplayInfo) -> Seq<char> {
    d.connector_name@ + " - "@ + d.resolution@
}

/// Format one output's launcher menu line.
pub fn launcher_label(d: &DisplayInfo) -> (r: String)
    ensures
        r@ == spec_launcher_label(*d),
{
    let mut s = String::from_str(d.connector_name.as_str());
    s.append(" - ");
    s.append(d.resolution.as_str());
    s
}

/// The labels of all outputs, in order.
pub open spec fn spec_menu_lines(ds: Seq<DisplayInfo>) -> Seq<Seq<char>> {
    Seq::new(ds.len(), |i: int| spec_launcher_label(ds[i]))
}

/// Lines joined with single newlines, no trailing newline.
pub open spec fn spec_join_lines(items: Seq<Seq<char>>) -> Seq<char>
    decreases items.len(),
{
    if items.len() == 0 {
        Seq::empty()
    } else if items.len() == 1 {
        items[0]
    } else {
        spec_join_lines(items.drop_last()) + "\n"@ + items.last()
    }
}

/// The text written to an external launcher menu: one labelled line per
/// output, in catalog order.
pub fn launcher_menu(displays: &Vec<DisplayInfo>) -> (r: String)
    ensures
        r@ == spec_join_lines(spec_menu_lines(displays@)),
{
    let ghost lines = spec_menu_lines(displays@);
    let mut s = String::new();
    let mut i: usize = 0;
    while i < displays.len()
        invariant
            0 <= i <= displays@.len(),
            s@ == spec_join_lines(lines.subrange(0, i as int)),
        decreases displays@.len() - i,
    {
        if i > 0 {
            s.append("\n");
        }
        let lab = launcher_label(&displays[i]);
        s.append(lab.as_str());
        proof {
            let pre = lines.subrange(0, i + 1);
            assert(pre.drop_last() =~= lines.subrange(0, i as int));
            assert(pre.last() == spec_launcher_label(displays@[i as int]));
            assert(s@ =~= spec_join_lines(pre));
        }
        i += 1;
    }
    proof {
        assert(lines.subrange(0, displays@.len() as int) =~= lines);
    }
    s
}

/// What an external launcher's answer names: the part before the first
/// ` - ` separator, or the whole answer if it has none.
pub open spec fn spec_selection_name(t: Seq<char>) -> Seq<char> {
    if contains_seq(t, " - "@) {
        t.subrange(0, first_occurrence(t, " - "@))
    } else {
        t
    }
}

/// Find the output an external launcher's answer names: the first one
/// whose connector name equals the answer's part before ` - `.
pub fn match_selection(displays: &Vec<DisplayInfo>, selection: &str) -> (r: Option<usize>)
    ensures
        r is Some ==> r->0 < displays@.len() && displays@[r->0 as int].connector_name@
            == spec_selection_name(selection@) && forall|j: int|
            0 <= j < r->0 ==> #[trigger] displays@[j].connector_name@ != spec_selection_name(
                selection@,
            ),
        r is None ==> forall|j: int|
            0 <= j < displays@.len() ==> #[trigger] displays@[j].connector_name@
                != spec_selection_name(selection@),
{
    proof {
        reveal_strlit(" - ");
    }
    let name = match find_substring(selection, " - ") {
        Some(i) => selection.substring_char(0, i),
        None => selection,
    };
    assert(name@ == spec_selection_name(selection@));
    let mut i: usize = 0;
    while i < displays.len()
        invariant
            0 <= i <= displays@.len(),
            forall|j: int|
                0 <= j < i ==> #[trigger] displays@[j].connector_name@ != spec_selection_name(
                    selection@,
                ),
        decreases displays@.len() - i,
    {
        if str_eq(displays[i].connector_name.as_str(), name) {
            return Some(i);
        }
        i += 1;
    }
    None
}

/// The numbered-menu rule: a 1-based choice within range selects that
/// entry; anything out of range falls back to the first entry.
pub fn menu_index(choice: usize, len: usize) -> (r: usize)
    requires
        len >= 1,
    ensures
        r == if 1 <= choice <= len {
            choice - 1
        } else {
            0int
        },
        r < len,
{
    if choice >= 1 && choice <= len {
        choice - 1
    } else {
        0
    }
}

} // verus!
