//! An injectable clock.
//!
//! Ledger and settlement code never read the system clock: they take `now`, in Unix
//! seconds. A [`Clock`] supplies it. A real one reads wall-clock time, a manual one
//! returns whatever its holder last set, and clones of a manual one share its value.

use std::sync::atomic::{AtomicI64, Ordering};
use std::sync::Arc;

use vstd::prelude::*;

verus! {

/// A source of "now" in Unix seconds, shared across the station's tasks.
#[derive(Clone)]
pub struct Clock(Inner);

#[derive(Clone)]
enum Inner {
    System,
    Manual(Arc<AtomicI64>),
}

/// Calls `std::time::SystemTime::elapsed` on the Unix epoch: the whole seconds since
/// then and the nanoseconds beyond them, which are less than a second, or nothing where
/// the host clock stands before the epoch. Nothing else is promised of the time.
#[verifier::external_body]
fn host_time() -> (r: Option<(u64, u32)>)
    ensures
        r matches Some(t) ==> t.1 < 1_000_000_000,
{
    std::time::UNIX_EPOCH.elapsed().ok().map(|d| (d.as_secs(), d.subsec_nanos()))
}

/// Whether a reading of the host clock can give a time since the epoch.
pub closed spec fn host_read(since_epoch: Option<(u64, u32)>) -> bool {
    call_ensures(host_time, (), since_epoch)
}

/// Reads the host clock: the seconds since the epoch and the nanoseconds beyond them.
pub(crate) fn read_host() -> (r: Option<(u64, u32)>)
    ensures
        host_read(r),
        r matches Some(t) ==> t.1 < 1_000_000_000,
{
    host_time()
}

/// The whole seconds of a time since the epoch.
pub open spec fn whole_seconds(since_epoch: Option<(u64, u32)>) -> Option<u64> {
    match since_epoch {
        Some(t) => Some(t.0),
        None => None,
    }
}

/// The whole seconds since the epoch, on the host clock.
pub(crate) fn host_seconds() -> (r: Option<u64>)
    ensures
        exists|t: Option<(u64, u32)>| #[trigger] host_read(t) && r == whole_seconds(t),
{
    match read_host() {
        Some(t) => Some(t.0),
        None => None,
    }
}

/// What a system clock shows: the seconds since the epoch, and zero where the host
/// clock stands before it.
pub open spec fn wall_time(since_epoch: Option<u64>) -> i64 {
    match since_epoch {
        Some(s) => s as i64,
        None => 0,
    }
}

/// The time that a count of seconds since the epoch stands for.
pub fn wall_seconds(since_epoch: Option<u64>) -> (r: i64)
    ensures
        r == wall_time(since_epoch),
{
    match since_epoch {
        Some(s) => s as i64,
        None => 0,
    }
}

/// The sum of a time and the seconds it is moved on by, turned over at the ends of
/// the range.
pub open spec fn moved_to(before: i64, secs: i64) -> int {
    if before + secs > i64::MAX {
        before + secs - 0x1_0000_0000_0000_0000
    } else if before + secs < i64::MIN {
        before + secs + 0x1_0000_0000_0000_0000
    } else {
        before + secs
    }
}

/// Where a manual clock stands after it was moved on; it turns over at the ends of
/// its range.
pub fn moved_on(before: i64, secs: i64) -> (r: i64)
    ensures
        r == moved_to(before, secs),
{
    before.wrapping_add(secs)
}

impl Clock {
    /// Whether the clock is moved by hand.
    pub closed spec fn is_manual(&self) -> bool {
        self.0 is Manual
    }

    /// Whether `t` is a time that the clock can show: one that the host clock gives,
    /// or one that can be read from the shared value.
    pub closed spec fn can_show(&self, t: i64) -> bool {
        match self.0 {
            Inner::System => exists|s: Option<u64>| #[trigger]
                call_ensures(host_seconds, (), s) && t == wall_time(s),
            Inner::Manual(v) => call_ensures(AtomicI64::load, (&*v, Ordering::SeqCst), t),
        }
    }

    /// Whether the clock's value was made to hold `start` at first.
    pub closed spec fn started_at(&self, start: i64) -> bool {
        self.0 matches Inner::Manual(v) && call_ensures(AtomicI64::new, (start,), *v)
    }

    /// Whether `value` was stored in the clock's value.
    pub closed spec fn was_set(&self, value: i64) -> bool {
        self.0 matches Inner::Manual(v) && call_ensures(
            AtomicI64::store,
            (&*v, value, Ordering::SeqCst),
            (),
        )
    }

    /// Whether adding `secs` to the shared value can find `before` in it.
    pub closed spec fn can_move(&self, secs: i64, before: i64) -> bool {
        self.0 matches Inner::Manual(v) && call_ensures(
            AtomicI64::fetch_add,
            (&*v, secs, Ordering::SeqCst),
            before,
        )
    }

    /// A clock backed by the real system time.
    pub fn system() -> (r: Self)
        ensures
            !r.is_manual(),
    {
        Clock(Inner::System)
    }

    /// A manually-controlled clock starting at `start` Unix seconds. Clones share the
    /// same underlying value, so advancing one advances all. The value lives in shared
    /// memory: what it is given is stated, what it holds later is not.
    pub fn manual(start: i64) -> (r: Self)
        ensures
            r.is_manual(),
            r.started_at(start),
    {
        Clock(Inner::Manual(Arc::new(AtomicI64::new(start))))
    }

    /// The current time, in Unix seconds: the host's, or the value last set. It is
    /// what the host clock, or the shared value, gave when it was read. Which time
    /// that is lies outside the program's own state and is not stated.
    pub fn now(&self) -> (r: i64)
        ensures
            self.can_show(r),
    {
        match &self.0 {
            Inner::System => wall_seconds(host_seconds()),
            Inner::Manual(v) => v.load(Ordering::SeqCst),
        }
    }

    /// Advances a manual clock by `secs` seconds and returns the new value.
    ///
    /// On a system clock this is a no-op (you cannot move wall-clock time); it
    /// returns the current time. What the shared value held before is not stated.
    pub fn advance(&self, secs: i64) -> (r: i64)
        ensures
            !self.is_manual() ==> self.can_show(r),
            self.is_manual() ==> exists|before: i64| #[trigger]
                self.can_move(secs, before) && r == moved_to(before, secs),
    {
        match &self.0 {
            Inner::System => self.now(),
            Inner::Manual(v) => {
                let before: i64 = v.fetch_add(secs, Ordering::SeqCst);
                assert(self.can_move(secs, before));
                moved_on(before, secs)
            },
        }
    }

    /// Sets a manual clock to an absolute `value`. No-op on a system clock.
    pub fn set(&self, value: i64)
        ensures
            self.is_manual() ==> self.was_set(value),
    {
        match &self.0 {
            Inner::System => {},
            Inner::Manual(v) => {
                v.store(value, Ordering::SeqCst);
            },
        }
    }
}

impl Default for Clock {
    fn default() -> (r: Self)
        ensures
            !r.is_manual(),
    {
        Clock::system()
    }
}

/// The seconds since the epoch are the time, and a clock that stands before it shows zero.
pub proof fn law_the_wall_shows_its_seconds(since_epoch: Option<u64>, r: i64)
    requires
        call_ensures(wall_seconds, (since_epoch,), r),
    ensures
        since_epoch matches Some(s) ==> (s <= i64::MAX ==> r == s),
        since_epoch is None ==> r == 0,
{
}

/// A clock that is moved on by some seconds is that much later, as long as the time fits;
/// past either end it turns over to the other.
pub proof fn law_a_moved_clock_is_that_much_later(before: i64, secs: i64, r: i64)
    requires
        call_ensures(moved_on, (before, secs), r),
    ensures
        i64::MIN <= before + secs <= i64::MAX ==> r == before + secs,
        before + secs > i64::MAX ==> r < before,
        before + secs < i64::MIN ==> r > before,
{
}

} // verus!
