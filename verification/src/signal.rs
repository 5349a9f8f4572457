//! The update that the command path hands to the renderer, and the single
//! slot it travels through: a later update replaces one that was not taken.

use crate::grid::{Coordinate, Coordinates};
use vstd::prelude::*;

verus! {

/// What the renderer is asked to do.
#[derive(Clone, Copy, Debug, PartialEq, Eq)]
pub enum ScreenSignal {
    /// Draw the filled slots of this batch.
    Coordinate(Coordinates),
    /// Wipe the screen.
    Clear,
}

/// What an update says: the view of a [`ScreenSignal`].
pub enum ScreenUpdate {
    /// Draw the filled slots of this batch.
    Replace(Seq<Option<Coordinate>>),
    /// Wipe the screen.
    Clear,
}

impl View for ScreenSignal {
    type V = ScreenUpdate;

    open spec fn view(&self) -> ScreenUpdate {
        match *self {
            ScreenSignal::Coordinate(batch) => ScreenUpdate::Replace(batch@),
            ScreenSignal::Clear => ScreenUpdate::Clear,
        }
    }
}

/// The view of an update that may be absent.
pub open spec fn update_view(update: Option<ScreenSignal>) -> Option<ScreenUpdate> {
    match update {
        Some(signal) => Some(signal@),
        None => None,
    }
}

/// The slot after an update was sent into it: it holds that update,
/// whatever it held before.
pub open spec fn after_signal(
    slot: Option<ScreenSignal>,
    update: ScreenSignal,
) -> Option<ScreenSignal> {
    Some(update)
}

/// What taking from the slot hands out, and what the slot holds afterwards:
/// the pending update, if any, leaves the slot.
pub open spec fn after_take(slot: Option<ScreenSignal>) -> (Option<ScreenSignal>, Option<
    ScreenSignal,
>) {
    (slot, None)
}

/// A slot for one pending update. It is no queue: sending overwrites, and
/// an update is taken at most once. Its view is the pending update.
pub struct UpdateSignal {
    slot: Option<ScreenSignal>,
}

impl View for UpdateSignal {
    type V = Option<ScreenSignal>;

    closed spec fn view(&self) -> Option<ScreenSignal> {
        self.slot
    }
}

impl UpdateSignal {
    /// An empty slot.
    pub fn new() -> (r: Self)
        ensures
            r@ is None,
    {
        Self { slot: None }
    }

    /// Puts `update` into the slot, in place of whatever is pending.
    pub fn signal(&mut self, update: ScreenSignal)
        ensures
            final(self)@ == after_signal(old(self)@, update),
    {
        self.slot = Some(update);
    }

    /// Whether an update is pending.
    pub fn signaled(&self) -> (r: bool)
        ensures
            r == self@.is_some(),
    {
        self.slot.is_some()
    }

    /// Takes the pending update out of the slot, if there is one.
    pub fn try_take(&mut self) -> (r: Option<ScreenSignal>)
        ensures
            (r, final(self)@) == after_take(old(self)@),
    {
        self.slot.take()
    }

    /// Empties the slot.
    pub fn reset(&mut self)
        ensures
            final(self)@ is None,
    {
        self.slot = None;
    }
}

impl Default for UpdateSignal {
    fn default() -> (r: Self)
        ensures
            r@ is None,
    {
        Self::new()
    }
}

/// Of two updates sent before the consumer takes one, the consumer sees
/// only the second, and after it nothing.
pub proof fn lemma_last_signal_wins(
    slot: Option<ScreenSignal>,
    first: ScreenSignal,
    second: ScreenSignal,
)
    ensures
        after_take(after_signal(after_signal(slot, first), second)).0 == Some(second),
        after_take(after_take(after_signal(after_signal(slot, first), second)).1).0 is None,
{
}

} // verus!
