//! The pane auto-sizer: it keeps the pane just tall enough for the rows,
//! until the user drags the divider.
//!
//! The sizer is in one of two modes. In `Auto` it sets the pane height
//! from the number of rows. It turns to `Manual` when the pane is found
//! at a height other than the one the sizer last chose, which can only
//! be the user's doing; from then on it never sets a height again.

use vstd::prelude::*;

verus! {

/// Whether the sizer still adjusts the pane.
#[derive(Clone, Copy, Debug, PartialEq, Eq, Structural)]
pub enum PaneMode {
    /// The sizer sets the pane height.
    Auto,
    /// The user has resized the pane; the sizer leaves it alone.
    Manual,
}

/// What the sizer knows about the pane.
#[derive(Clone, Copy, Debug, PartialEq, Eq, Structural)]
pub struct PaneState {
    /// The height the pane never goes below: its height at start.
    pub min_height: usize,
    /// The height taken by everything in the pane that is not a row.
    pub chrome_offset: usize,
    /// The height of one row; zero until a row has been measured.
    pub row_height: usize,
    /// Whether the user has resized the pane. Once set, it stays set.
    pub manually_resized: bool,
}

/// The mathematical value of a [`PaneState`].
pub struct PaneView {
    pub min_height: nat,
    pub chrome_offset: nat,
    pub row_height: nat,
    pub manually_resized: bool,
}

impl View for PaneState {
    type V = PaneView;

    open spec fn view(&self) -> PaneView {
        PaneView {
            min_height: self.min_height as nat,
            chrome_offset: self.chrome_offset as nat,
            row_height: self.row_height as nat,
            manually_resized: self.manually_resized,
        }
    }
}

/// What the toolkit shows when an event is handled.
#[derive(Clone, Copy, Debug, PartialEq, Eq, Structural)]
pub struct Layout {
    /// The height of the pane as it is now.
    pub pane_height: usize,
    /// The number of rows in the list as it is now.
    pub row_count: usize,
    /// The rendered height of the first row, where there is a row and its
    /// height can be asked for.
    pub first_row_height: Option<usize>,
}

/// The mathematical value of a [`Layout`].
pub struct LayoutView {
    pub pane_height: nat,
    pub row_count: nat,
    pub first_row_height: Option<nat>,
}

impl View for Layout {
    type V = LayoutView;

    open spec fn view(&self) -> LayoutView {
        LayoutView {
            pane_height: self.pane_height as nat,
            row_count: self.row_count as nat,
            first_row_height: match self.first_row_height {
                Some(height) => Some(height as nat),
                None => None,
            },
        }
    }
}

/// The height that `rows` rows need: the rows and the chrome around them.
pub open spec fn required_height(pane: PaneView, rows: nat) -> nat {
    pane.row_height * rows + pane.chrome_offset
}

/// The height the sizer chooses for `rows` rows: what they need, but not
/// less than the minimum.
pub open spec fn target_height(pane: PaneView, rows: nat) -> nat {
    if required_height(pane, rows) > pane.min_height {
        required_height(pane, rows)
    } else {
        pane.min_height
    }
}

/// The pane once a row has been looked at: the first height measured is
/// kept, and used for all rows from then on.
pub open spec fn measured(pane: PaneView, first_row_height: Option<nat>) -> PaneView {
    match first_row_height {
        Some(height) if pane.row_height == 0 => PaneView { row_height: height, ..pane },
        _ => pane,
    }
}

/// Whether the pane was found at a height other than the one chosen for
/// `rows` rows, which means that the user has dragged the divider. The
/// height chosen is the one for the row height as it is stored, not as
/// the layout shows it: that is what the sizer last set.
pub open spec fn dragged(pane: PaneView, layout: LayoutView, rows: nat) -> bool {
    layout.pane_height != target_height(pane, rows)
}

/// The pane once it has been looked at, before anything is set.
///
/// The row height is taken from the layout whenever it was still unknown
/// and a row can be measured, whatever the mode. The pane counts as
/// resized by the user from then on if it was found dragged, and stays
/// so if it counted as such before.
pub open spec fn observed(pane: PaneView, layout: LayoutView, rows: nat) -> PaneView {
    PaneView {
        manually_resized: pane.manually_resized || dragged(pane, layout, rows),
        ..measured(pane, layout.first_row_height)
    }
}

/// The height to set for `rows` rows, if the sizer is to set one.
pub open spec fn chosen_height(pane: PaneView, rows: nat) -> Option<nat> {
    if pane.manually_resized {
        None
    } else {
        Some(target_height(pane, rows))
    }
}

/// One step of the sizer, as the number of rows goes from `prev_rows` to
/// `new_rows`: the state it ends in and the height it sets, if any.
///
/// Once the user has resized the pane, a step does nothing at all.
/// Before that, it looks at the pane first and then chooses the height:
/// none on the step that finds the pane dragged.
pub open spec fn pane_step(pane: PaneView, layout: LayoutView, prev_rows: nat, new_rows: nat) -> (
    PaneView,
    Option<nat>,
) {
    if pane.manually_resized {
        (pane, None)
    } else {
        let next = observed(pane, layout, prev_rows);
        (next, chosen_height(next, new_rows))
    }
}

/// The state after a run of steps, each given by the layout found and
/// the number of rows before and after.
pub open spec fn pane_after(pane: PaneView, steps: Seq<(LayoutView, nat, nat)>) -> PaneView
    decreases steps.len(),
{
    if steps.len() == 0 {
        pane
    } else {
        let (layout, prev_rows, new_rows) = steps.last();
        pane_step(pane_after(pane, steps.drop_last()), layout, prev_rows, new_rows).0
    }
}

/// The heights set in a run of steps, step by step.
pub open spec fn heights_set(pane: PaneView, steps: Seq<(LayoutView, nat, nat)>) -> Seq<
    Option<nat>,
>
    decreases steps.len(),
{
    if steps.len() == 0 {
        Seq::empty()
    } else {
        let (layout, prev_rows, new_rows) = steps.last();
        heights_set(pane, steps.drop_last()).push(
            pane_step(pane_after(pane, steps.drop_last()), layout, prev_rows, new_rows).1,
        )
    }
}

/// The latch: once the user has resized the pane, no run of steps sets a
/// height or changes the state, whatever the layouts and row counts are.
pub proof fn lemma_manual_is_final(pane: PaneView, steps: Seq<(LayoutView, nat, nat)>)
    requires
        pane.manually_resized,
    ensures
        pane_after(pane, steps) == pane,
        heights_set(pane, steps).len() == steps.len(),
        forall|k: int| 0 <= k < steps.len() ==> heights_set(pane, steps)[k] is None,
    decreases steps.len(),
{
    if steps.len() > 0 {
        lemma_manual_is_final(pane, steps.drop_last());
    }
}

/// A step never takes the sizer back from `Manual` to `Auto`.
pub proof fn lemma_latch_is_one_way(
    pane: PaneView,
    layout: LayoutView,
    prev_rows: nat,
    new_rows: nat,
)
    ensures
        pane.manually_resized ==> pane_step(pane, layout, prev_rows, new_rows).0.manually_resized,
{
}

proof fn lemma_product_fits(a: usize, b: usize)
    ensures
        a * b <= 0xffff_ffff_ffff_ffff * 0xffff_ffff_ffff_ffff,
{
    assert(a <= 0xffff_ffff_ffff_ffff && b <= 0xffff_ffff_ffff_ffff);
    assert(a * b <= 0xffff_ffff_ffff_ffff * 0xffff_ffff_ffff_ffff) by (nonlinear_arith)
        requires
            0 <= a <= 0xffff_ffff_ffff_ffff,
            0 <= b <= 0xffff_ffff_ffff_ffff,
    ;
}

impl PaneState {
    /// The state at start: the pane's height as the minimum, no row
    /// measured yet, the sizer in `Auto`.
    pub fn new(min_height: usize, chrome_offset: usize) -> (pane: Self)
        ensures
            pane == (PaneState { min_height, chrome_offset, row_height: 0, manually_resized: false }),
    {
        PaneState { min_height, chrome_offset, row_height: 0, manually_resized: false }
    }

    /// The state at start, from what the toolkit measured: the pane's
    /// position, and the heights of the box that holds the list and of
    /// the scrolled window in it. What the box is taller than the window
    /// is chrome.
    pub fn init_pane_state(position: usize, box_height: usize, scroll_height: usize) -> (pane:
        Self)
        requires
            scroll_height <= box_height,
        ensures
            pane == (PaneState {
                min_height: position,
                chrome_offset: (box_height - scroll_height) as usize,
                row_height: 0,
                manually_resized: false,
            }),
    {
        PaneState::new(position, box_height - scroll_height)
    }

    /// Whether the sizer still adjusts the pane.
    pub fn mode(&self) -> (mode: PaneMode)
        ensures
            mode == if self.manually_resized {
                PaneMode::Manual
            } else {
                PaneMode::Auto
            },
    {
        if self.manually_resized {
            PaneMode::Manual
        } else {
            PaneMode::Auto
        }
    }

    /// The height that `rows` rows need.
    pub fn required_height(&self, rows: usize) -> (height: u128)
        ensures
            height == required_height(self@, rows as nat),
    {
        proof {
            lemma_product_fits(self.row_height, rows);
        }
        (self.row_height as u128) * (rows as u128) + (self.chrome_offset as u128)
    }

    /// The height the sizer chooses for `rows` rows.
    pub fn target_height(&self, rows: usize) -> (height: u128)
        ensures
            height == target_height(self@, rows as nat),
    {
        let required = self.required_height(rows);
        if required > self.min_height as u128 {
            required
        } else {
            self.min_height as u128
        }
    }

    /// Looks at the pane before anything is set: finds out whether the
    /// user has dragged the divider since the height for `rows` rows was
    /// chosen, and takes the row height from the layout if it was still
    /// unknown. The height is taken in every case; the comparison is made
    /// with the row height as it was before.
    pub fn update_pane_was_dragged(&mut self, layout: &Layout, rows: usize)
        ensures
            final(self)@ == observed(old(self)@, layout@, rows as nat),
            final(self).min_height == old(self).min_height,
            final(self).chrome_offset == old(self).chrome_offset,
            final(self).row_height == (if old(self).row_height == 0 {
                match layout.first_row_height {
                    Some(height) => height,
                    None => 0,
                }
            } else {
                old(self).row_height
            }),
            final(self).manually_resized == (old(self).manually_resized
                || layout.pane_height != target_height(old(self)@, rows as nat)),
    {
        if layout.pane_height as u128 != self.target_height(rows) {
            self.manually_resized = true;
        }
        if self.row_height == 0 {
            match layout.first_row_height {
                Some(height) => {
                    self.row_height = height;
                },
                None => {},
            }
        }
    }

    /// The height to set for `n_buffers` rows: none once the user has
    /// resized the pane.
    pub fn update_pane_position(&self, n_buffers: usize) -> (height: Option<u128>)
        ensures
            match chosen_height(self@, n_buffers as nat) {
                Some(chosen) => height == Some(chosen as u128) && chosen <= u128::MAX,
                None => height is None,
            },
    {
        if self.manually_resized {
            None
        } else {
            Some(self.target_height(n_buffers))
        }
    }

    /// One step of the sizer, as the number of rows goes from `prev_rows`
    /// to `new_rows`: looks at the pane first, then chooses the height.
    /// Once the user has resized the pane, it does nothing at all.
    pub fn resize(&mut self, layout: &Layout, prev_rows: usize, new_rows: usize) -> (height:
        Option<u128>)
        ensures
            final(self)@ == pane_step(old(self)@, layout@, prev_rows as nat, new_rows as nat).0,
            match pane_step(old(self)@, layout@, prev_rows as nat, new_rows as nat).1 {
                Some(chosen) => height == Some(chosen as u128) && chosen <= u128::MAX,
                None => height is None,
            },
            old(self).manually_resized ==> *final(self) == *old(self) && height is None,
    {
        if self.manually_resized {
            return None;
        }
        self.update_pane_was_dragged(layout, prev_rows);
        self.update_pane_position(new_rows)
    }
}

} // verus!
