use vstd::prelude::*;

verus! {

/// The monotonic clock as one owner has read it: `floor` is the latest
/// reading taken through it (0 before the first). Only `read` changes it,
/// so it is always a value that the clock returned earlier, or 0.
pub struct Clock {
    floor: u64,
}

/// Reads the monotonic clock (`embassy_time::Instant::now`) as a tick count.
/// embassy-time's driver guarantees that `now()` never returns less than an
/// earlier call returned, so the reading is at least `clock.floor()`, which
/// is an earlier reading or 0. Nothing more is promised of its value.
#[verifier::external_body]
fn now_ticks(clock: &Clock) -> (ticks: u64)
    ensures
        ticks >= clock.floor(),
{
    embassy_time::Instant::now().as_ticks()
}

impl Clock {
    /// The latest reading taken through this clock, or 0.
    pub closed spec fn floor(&self) -> u64 {
        self.floor
    }

    /// A clock that has not been read yet.
    pub fn new() -> (c: Self)
        ensures
            c.floor() == 0,
    {
        Clock { floor: 0 }
    }

    /// Reads the clock: never earlier than the readings before, and
    /// remembered as the new floor.
    pub fn read(&mut self) -> (t: u64)
        ensures
            t >= old(self).floor(),
            final(self).floor() == t,
    {
        let t = now_ticks(self);
        self.floor = t;
        t
    }

    /// Reads the clock without remembering the reading.
    pub fn peek(&self) -> (t: u64)
        ensures
            t >= self.floor(),
    {
        now_ticks(self)
    }
}

} // verus!
