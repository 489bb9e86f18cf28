//! Helpers that several systems share.

use crate::components::{marked, ContactEvent, Level, LevelEntity, Marker};
use vstd::prelude::*;

verus! {

/// `amount` divided by `by`, rounded towards zero.
pub open spec fn towards_zero(amount: int, by: int) -> int {
    if amount >= 0 {
        amount / by
    } else {
        -((-amount) / by)
    }
}

/// The two handles in the order of the two markers: first the one whose
/// entity carries `first`, then the one whose entity carries `second`. As
/// given, where that fits; else swapped, where that fits; else nothing.
pub open spec fn ordered_by_type(
    entities: Seq<Option<LevelEntity>>,
    handles: (usize, usize),
    first: Marker,
    second: Marker,
) -> Option<(usize, usize)> {
    if marked(entities, handles.0 as int, first) && marked(entities, handles.1 as int, second) {
        Some((handles.0, handles.1))
    } else if marked(entities, handles.1 as int, first) && marked(
        entities,
        handles.0 as int,
        second,
    ) {
        Some((handles.1, handles.0))
    } else {
        None
    }
}

/// Sorts two handles by what their entities are: see [`ordered_by_type`].
pub fn entities_ordered_by_type(
    level: &Level,
    handles: (usize, usize),
    first: Marker,
    second: Marker,
) -> (ordered: Option<(usize, usize)>)
    ensures
        ordered == ordered_by_type(level@, handles, first, second),
{
    if level.is_marked(handles.0, first) && level.is_marked(handles.1, second) {
        Some((handles.0, handles.1))
    } else if level.is_marked(handles.1, first) && level.is_marked(handles.0, second) {
        Some((handles.1, handles.0))
    } else {
        None
    }
}

/// Whether `event` says that an entity with `first` and one with `second`
/// have begun to touch.
pub open spec fn is_touch(
    entities: Seq<Option<LevelEntity>>,
    event: ContactEvent,
    first: Marker,
    second: Marker,
) -> bool {
    event matches ContactEvent::Started(a, b) && ordered_by_type(entities, (a, b), first, second)
        is Some
}

/// Whether one of `events` says that an entity with `first` and one with
/// `second` have begun to touch.
pub open spec fn touches(
    entities: Seq<Option<LevelEntity>>,
    events: Seq<ContactEvent>,
    first: Marker,
    second: Marker,
) -> bool {
    exists|i: int| 0 <= i < events.len() && is_touch(entities, #[trigger] events[i], first, second)
}

/// Whether one of `events` says that an entity with `first` and one with
/// `second` have begun to touch.
pub fn any_touch(events: &Vec<ContactEvent>, level: &Level, first: Marker, second: Marker) -> (touch:
    bool)
    ensures
        touch == touches(level@, events@, first, second),
{
    let mut i: usize = 0;
    while i < events.len()
        invariant
            i <= events.len(),
            forall|j: int| 0 <= j < i ==> !is_touch(level@, #[trigger] events[j], first, second),
        decreases events.len() - i,
    {
        match events[i] {
            ContactEvent::Started(handle1, handle2) => {
                if entities_ordered_by_type(level, (handle1, handle2), first, second).is_some() {
                    return true;
                }
            },
            ContactEvent::Stopped(_, _) => {},
        }
        i = i + 1;
    }
    false
}

/// The nanoseconds in a millisecond.
pub const NANOS_PER_MILLI: u32 = 1000000;

/// The whole milliseconds in `nanos` nanoseconds, as far as a tick can hold
/// them.
pub open spec fn whole_millis(nanos: int) -> int {
    if nanos / (NANOS_PER_MILLI as int) > u32::MAX {
        u32::MAX as int
    } else {
        nanos / (NANOS_PER_MILLI as int)
    }
}

/// What is left of `nanos` nanoseconds below a whole millisecond. Of a time
/// too long for a tick nothing is left.
pub open spec fn left_over(nanos: int) -> int {
    if nanos / (NANOS_PER_MILLI as int) > u32::MAX {
        0
    } else {
        nanos % (NANOS_PER_MILLI as int)
    }
}

/// Turns the time of each frame into the whole milliseconds of a tick, and
/// carries what is left of a frame over to the next, so that no time is lost
/// in the long run.
pub struct FrameClock {
    carry: u32,
}

impl FrameClock {
    #[verifier::type_invariant]
    spec fn carries_less_than_a_millisecond(self) -> bool {
        self.carry < NANOS_PER_MILLI
    }

    /// The nanoseconds carried over from the frames so far.
    pub closed spec fn carried(&self) -> int {
        self.carry as int
    }

    /// A clock that carries nothing.
    pub fn new() -> (clock: FrameClock)
        ensures
            clock.carried() == 0,
    {
        FrameClock { carry: 0 }
    }

    /// The nanoseconds carried over from the frames so far, less than a
    /// millisecond.
    pub fn carry(&self) -> (carry: u32)
        ensures
            carry == self.carried(),
            carry < NANOS_PER_MILLI,
    {
        proof {
            use_type_invariant(self);
        }
        self.carry
    }

    /// Takes a frame of `delta_nanos` nanoseconds, and returns the whole
    /// milliseconds in it and in what was carried over.
    pub fn tick(&mut self, delta_nanos: u128) -> (millis: u32)
        ensures
            millis == whole_millis(old(self).carried() + delta_nanos),
            final(self).carried() == left_over(old(self).carried() + delta_nanos),
    {
        proof {
            use_type_invariant(&*self);
        }
        if delta_nanos >= 0x1_0000_0000 * (NANOS_PER_MILLI as u128) {
            self.carry = 0;
            return u32::MAX;
        }
        let total: u128 = self.carry as u128 + delta_nanos;
        let whole: u128 = total / (NANOS_PER_MILLI as u128);
        if whole > u32::MAX as u128 {
            self.carry = 0;
            u32::MAX
        } else {
            self.carry = (total % (NANOS_PER_MILLI as u128)) as u32;
            whole as u32
        }
    }
}

} // verus!
