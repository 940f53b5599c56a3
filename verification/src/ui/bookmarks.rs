//! Layout of the bookmark bar: which bookmark buttons fit in the width
//! the bar has, the others going to its overflow menu.
use vstd::prelude::*;

verus! {

/// The space kept between two bookmark buttons.
pub const BUTTON_SPACING: i32 = 8;

/// Which buttons of widths `widths` are shown when `used` of `available`
/// is taken: buttons are placed in order while they fit, each taking its
/// width and the spacing; a button not laid out yet (width 0 or less) is
/// shown and takes nothing.
pub open spec fn layout(widths: Seq<i32>, available: int, used: int) -> Seq<bool>
    decreases widths.len(),
{
    if widths.len() == 0 {
        Seq::empty()
    } else {
        let w = widths[0] as int;
        if w <= 0 {
            seq![true] + layout(widths.drop_first(), available, used)
        } else if used + w + BUTTON_SPACING <= available {
            seq![true] + layout(widths.drop_first(), available, used + w + BUTTON_SPACING)
        } else {
            seq![false] + layout(widths.drop_first(), available, used)
        }
    }
}

/// The width taken by the buttons that `layout` shows.
pub open spec fn shown_width(widths: Seq<i32>, available: int, used: int) -> int
    decreases widths.len(),
{
    if widths.len() == 0 {
        used
    } else {
        let w = widths[0] as int;
        if w > 0 && used + w + BUTTON_SPACING <= available {
            shown_width(widths.drop_first(), available, used + w + BUTTON_SPACING)
        } else {
            shown_width(widths.drop_first(), available, used)
        }
    }
}

/// Which bookmark buttons, of widths `widths`, are shown in a bar
/// `available` wide; nothing is decided while the bar has no width yet.
pub fn overflow_visibility(available: i32, widths: &Vec<i32>) -> (r: Option<Vec<bool>>)
    ensures
        available <= 0 ==> r is None,
        available > 0 ==> (r matches Some(v) && v@ == layout(widths@, available as int, 0)),
{
    if available <= 0 {
        return None;
    }
    let avail = available as i64;
    let mut visible: Vec<bool> = Vec::new();
    let mut used: i64 = 0;
    let mut i: usize = 0;
    assert(widths@.skip(0) =~= widths@);
    while i < widths.len()
        invariant
            i <= widths.len(),
            avail == available,
            0 <= used <= avail,
            visible@ + layout(widths@.skip(i as int), avail as int, used as int) == layout(
                widths@,
                avail as int,
                0,
            ),
        decreases widths.len() - i,
    {
        let w = widths[i] as i64;
        let ghost rest = widths@.skip(i as int);
        assert(rest.drop_first() =~= widths@.skip(i + 1));
        let ghost before = visible@;
        if w <= 0 {
            visible.push(true);
            assert(before + layout(rest, avail as int, used as int) =~= visible@ + layout(
                widths@.skip(i + 1),
                avail as int,
                used as int,
            ));
        } else if used + w + 8 <= avail {
            visible.push(true);
            assert(before + layout(rest, avail as int, used as int) =~= visible@ + layout(
                widths@.skip(i + 1),
                avail as int,
                used + w + 8,
            ));
            used = used + w + 8;
        } else {
            visible.push(false);
            assert(before + layout(rest, avail as int, used as int) =~= visible@ + layout(
                widths@.skip(i + 1),
                avail as int,
                used as int,
            ));
        }
        i = i + 1;
    }
    assert(visible@ + layout(widths@.skip(i as int), avail as int, used as int) =~= visible@);
    Some(visible)
}

/// The buttons that are shown fit in the bar: what they take never
/// exceeds the width available.
pub proof fn law_shown_buttons_fit(widths: Seq<i32>, available: int, used: int)
    requires
        0 <= used <= available,
    ensures
        used <= shown_width(widths, available, used) <= available,
    decreases widths.len(),
{
    if widths.len() > 0 {
        let w = widths[0] as int;
        if w > 0 && used + w + BUTTON_SPACING <= available {
            law_shown_buttons_fit(widths.drop_first(), available, used + w + BUTTON_SPACING);
        } else {
            law_shown_buttons_fit(widths.drop_first(), available, used);
        }
    }
}

} // verus!
