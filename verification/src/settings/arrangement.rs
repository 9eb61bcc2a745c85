//! The picture of how the displays are arranged: what it says of them, and how
//! they are dragged about in it.

use crate::settings::displays::{DisplayConfig, HdrAppearance};
use crate::text::{dec_int, decimal_int, same};
use vstd::prelude::*;

verus! {

/// The display stands upright.
pub open spec fn is_upright(d: DisplayConfig) -> bool {
    d.transform@ == "Rotate90"@ || d.transform@ == "Rotate270"@
}

/// The size of a display as it stands.
pub open spec fn shown_size(d: DisplayConfig) -> (i32, i32) {
    if is_upright(d) {
        (d.mode_height, d.mode_width)
    } else {
        (d.mode_width, d.mode_height)
    }
}

/// The width and the height that a display is shown with, before its scale.
pub fn preview_size(d: &DisplayConfig) -> (r: (i32, i32))
    ensures
        r == shown_size(*d),
        r == if is_upright(*d) {
            (d.mode_height, d.mode_width)
        } else {
            (d.mode_width, d.mode_height)
        },
{
    if same(d.transform.as_str(), "Rotate90") || same(d.transform.as_str(), "Rotate270") {
        (d.mode_height, d.mode_width)
    } else {
        (d.mode_width, d.mode_height)
    }
}

/// What stands below the name of a display.
pub fn preview_caption(d: &DisplayConfig) -> (r: String)
    ensures
        r@ == dec_int(d.mode_width as int) + "×"@ + dec_int(d.mode_height as int) + " @ "@
            + dec_int(d.refresh_mhz as int) + "Hz"@,
{
    let mut out = decimal_int(d.mode_width as i64);
    out.append("×");
    out.append(decimal_int(d.mode_height as i64).as_str());
    out.append(" @ ");
    out.append(decimal_int(d.refresh_mhz as i64).as_str());
    out.append("Hz");
    out
}

/// A display that is being dragged, and where it was.
#[derive(Debug, Clone, Copy, PartialEq, Eq, Structural)]
pub struct Drag {
    pub selected: Option<usize>,
    pub start_x: i32,
    pub start_y: i32,
}

/// The first display that is hit.
pub open spec fn first_hit(hits: Seq<bool>, from: int) -> Option<int>
    decreases hits.len() - from,
{
    if from < 0 || from >= hits.len() {
        None
    } else if hits[from] {
        Some(from)
    } else {
        first_hit(hits, from + 1)
    }
}

/// A display moved to another place.
pub open spec fn moved(d: DisplayConfig, x: int, y: int) -> DisplayConfig {
    DisplayConfig { logical_x: x as i32, logical_y: y as i32, ..d }
}

/// The displays while one is dragged, so far from where it stood.
pub open spec fn dragged(drag: Drag, displays: Seq<DisplayConfig>, dx: int, dy: int) -> Seq<
    DisplayConfig,
> {
    match drag.selected {
        Some(i) => displays.update(
            i as int,
            moved(displays[i as int], drag.start_x + dx, drag.start_y + dy),
        ),
        None => displays,
    }
}

impl Drag {
    /// A drag begins: `hits[i]` says that the `i`-th display is under the
    /// pointer. Where none is, the place that was remembered stays.
    pub fn on_begin(&mut self, displays: &Vec<DisplayConfig>, hits: &Vec<bool>)
        requires
            hits.len() == displays.len(),
        ensures
            match first_hit(hits@, 0) {
                Some(i) => *final(self) == (Drag {
                    selected: Some(i as usize),
                    start_x: displays@[i].logical_x,
                    start_y: displays@[i].logical_y,
                }),
                None => *final(self) == (Drag { selected: None, ..*old(self) }),
            },
    {
        self.selected = None;
        let mut i: usize = 0;
        while i < hits.len()
            invariant
                i <= hits.len(),
                hits.len() == displays.len(),
                first_hit(hits@, 0) == first_hit(hits@, i as int),
                *self == (Drag { selected: None, ..*old(self) }),
            decreases hits.len() - i,
        {
            if hits[i] {
                self.selected = Some(i);
                self.start_x = displays[i].logical_x;
                self.start_y = displays[i].logical_y;
                return;
            }
            i += 1;
        }
    }

    /// The pointer moved by so many units of the desktop since the drag began.
    pub fn on_update(&self, displays: &mut Vec<DisplayConfig>, dx: i32, dy: i32)
        requires
            self.selected is Some ==> {
                &&& self.selected->Some_0 < old(displays).len()
                &&& i32::MIN <= self.start_x + dx <= i32::MAX
                &&& i32::MIN <= self.start_y + dy <= i32::MAX
            },
        ensures
            final(displays)@ == dragged(*self, old(displays)@, dx as int, dy as int),
            final(displays)@ == match self.selected {
                Some(i) => old(displays)@.update(
                    i as int,
                    moved(old(displays)@[i as int], self.start_x + dx, self.start_y + dy),
                ),
                None => old(displays)@,
            },
    {
        if let Some(i) = self.selected {
            displays[i].logical_x = self.start_x + dx;
            displays[i].logical_y = self.start_y + dy;
        }
    }

    /// The drag ends.
    pub fn on_end(&mut self)
        ensures
            *final(self) == (Drag { selected: None, ..*old(self) }),
    {
        self.selected = None;
    }
}

proof fn lemma_first_hit(hits: Seq<bool>, from: int)
    requires
        0 <= from <= hits.len(),
        first_hit(hits, from) is Some,
    ensures
        from <= first_hit(hits, from)->Some_0 < hits.len(),
        hits[first_hit(hits, from)->Some_0],
    decreases hits.len() - from,
{
    if from < hits.len() && !hits[from] {
        lemma_first_hit(hits, from + 1);
    }
}

/// What is dragged was under the pointer, and a drag that comes back to where it
/// began leaves every display where it was.
pub proof fn law_drag_and_back(displays: Seq<DisplayConfig>, hits: Seq<bool>, dx: int, dy: int)
    requires
        hits.len() == displays.len(),
        first_hit(hits, 0) is Some,
    ensures
        ({
            let i = first_hit(hits, 0)->Some_0;
            let (x, y) = (displays[i].logical_x, displays[i].logical_y);
            let away = displays.update(i, moved(displays[i], x + dx, y + dy));
            &&& 0 <= i < displays.len() && hits[i]
            &&& away.update(i, moved(away[i], x + 0, y + 0)) == displays
        }),
{
    lemma_first_hit(hits, 0);
    let i = first_hit(hits, 0)->Some_0;
    let (x, y) = (displays[i].logical_x, displays[i].logical_y);
    let away = displays.update(i, moved(displays[i], x + dx, y + dy));
    assert(moved(away[i], x + 0, y + 0) == displays[i]);
    assert(away.update(i, moved(away[i], x + 0, y + 0)) =~= displays);
}

/// The displays as they were saved, with a neutral appearance in place of each
/// that is not valid.
pub open spec fn with_valid_appearances(
    displays: Seq<DisplayConfig>,
    valid: Seq<bool>,
    neutral: HdrAppearance,
) -> Seq<DisplayConfig> {
    Seq::new(
        displays.len(),
        |i: int|
            if valid[i] {
                displays[i]
            } else {
                DisplayConfig { hdr_appearance: neutral, ..displays[i] }
            },
    )
}

/// The displays as they were saved: `valid[i]` says that the appearance of the
/// `i`-th display is valid.
pub fn repair_appearances(
    displays: &mut Vec<DisplayConfig>,
    valid: &Vec<bool>,
    neutral: HdrAppearance,
)
    requires
        valid.len() == old(displays).len(),
    ensures
        final(displays)@ == with_valid_appearances(old(displays)@, valid@, neutral),
{
    let ghost all = with_valid_appearances(displays@, valid@, neutral);
    let ghost before = displays@;
    let mut i: usize = 0;
    while i < valid.len()
        invariant
            i <= valid.len(),
            valid.len() == displays.len(),
            before.len() == displays.len(),
            all == with_valid_appearances(before, valid@, neutral),
            forall|k: int| 0 <= k < i ==> #[trigger] displays@[k] == all[k],
            forall|k: int| i <= k < before.len() ==> #[trigger] displays@[k] == before[k],
        decreases valid.len() - i,
    {
        if !valid[i] {
            displays[i].hdr_appearance = neutral;
        }
        i += 1;
    }
    assert(displays@ =~= all);
}

/// A drag is told from where it began: of two reports the later one alone
/// counts, it moves the display across and down by what it says, and no other
/// display moves.
pub proof fn law_drag(
    drag: Drag,
    displays: Seq<DisplayConfig>,
    dx: int,
    dy: int,
    ex: int,
    ey: int,
    j: int,
)
    requires
        drag.selected is Some,
        drag.selected->Some_0 < displays.len(),
        0 <= j < displays.len(),
        i32::MIN <= drag.start_x + dx <= i32::MAX,
        i32::MIN <= drag.start_y + dy <= i32::MAX,
    ensures
        dragged(drag, dragged(drag, displays, ex, ey), dx, dy) == dragged(drag, displays, dx, dy),
        ({
            let after = dragged(drag, displays, dx, dy);
            &&& j != drag.selected->Some_0 ==> after[j] == displays[j]
            &&& j == drag.selected->Some_0 ==> after[j].logical_x == drag.start_x + dx
                && after[j].logical_y == drag.start_y + dy && after[j].mode_width
                == displays[j].mode_width && after[j].mode_height == displays[j].mode_height
        }),
{
    let once = dragged(drag, displays, ex, ey);
    assert(dragged(drag, once, dx, dy) =~= dragged(drag, displays, dx, dy));
}

/// What is dragged is the first display under the pointer.
pub proof fn law_first_hit(hits: Seq<bool>, k: int)
    requires
        0 <= k < hits.len(),
        hits[k],
        forall|j: int| 0 <= j < k ==> !hits[j],
    ensures
        first_hit(hits, 0) == Some(k),
{
    lemma_none_hit_before(hits, 0, k);
}

proof fn lemma_none_hit_before(hits: Seq<bool>, from: int, k: int)
    requires
        0 <= from <= k < hits.len(),
        hits[k],
        forall|j: int| from <= j < k ==> !hits[j],
    ensures
        first_hit(hits, from) == Some(k),
    decreases k - from,
{
    if from < k {
        lemma_none_hit_before(hits, from + 1, k);
    }
}

/// A display that stands on its side is as wide as its mode is high; a quarter
/// turn more or less makes no difference.
pub proof fn law_shown_size(d: DisplayConfig)
    ensures
        d.transform@ == "Rotate90"@ || d.transform@ == "Rotate270"@ ==> shown_size(d).0
            == d.mode_height && shown_size(d).1 == d.mode_width,
        d.transform@ != "Rotate90"@ && d.transform@ != "Rotate270"@ ==> shown_size(d).0
            == d.mode_width && shown_size(d).1 == d.mode_height,
{
}

/// An appearance that is not valid is replaced, and nothing else is.
pub proof fn law_repaired(
    displays: Seq<DisplayConfig>,
    valid: Seq<bool>,
    neutral: HdrAppearance,
    i: int,
)
    requires
        0 <= i < displays.len(),
        valid.len() == displays.len(),
    ensures
        with_valid_appearances(displays, valid, neutral).len() == displays.len(),
        valid[i] ==> with_valid_appearances(displays, valid, neutral)[i] == displays[i],
        !valid[i] ==> with_valid_appearances(displays, valid, neutral)[i].hdr_appearance
            == neutral,
        with_valid_appearances(displays, valid, neutral)[i].name == displays[i].name,
        with_valid_appearances(displays, valid, neutral)[i].hdr_requested
            == displays[i].hdr_requested,
{
}

} // verus!
