//! Display sleep prevention while browsers are connected: a count of
//! connected sessions; the system hold is taken when the first session
//! arrives and dropped when the last one leaves.

use vstd::prelude::*;

verus! {

/// Session count of the power hold.
pub struct PowerHold {
    count: u32,
}

/// Change of the system hold that a count change calls for.
#[derive(Debug, Clone, Copy, PartialEq, Eq, Structural)]
pub enum HoldChange {
    /// Take the hold (and wake the display).
    Acquire,
    /// Drop the hold.
    Release,
    /// Nothing to do.
    Keep,
}

impl View for PowerHold {
    type V = u32;

    closed spec fn view(&self) -> u32 {
        self.count
    }
}

impl PowerHold {
    /// No session.
    pub fn new() -> (h: PowerHold)
        ensures
            h@ == 0,
    {
        PowerHold { count: 0 }
    }

    /// Number of sessions counted.
    pub fn count(&self) -> (r: u32)
        ensures
            r == self@,
    {
        self.count
    }

    /// A session starts (`enable`) or ends (`!enable`). The hold is taken
    /// on the first session and dropped when the last one ends; ending a
    /// session when none is counted changes nothing.
    pub fn keep_awake(&mut self, enable: bool) -> (c: HoldChange)
        ensures
            enable ==> final(self)@ == old(self)@.wrapping_add(1) && c == (if old(self)@ == 0 {
                HoldChange::Acquire
            } else {
                HoldChange::Keep
            }),
            !enable ==> final(self)@ == (if old(self)@ == 0 {
                0
            } else {
                (old(self)@ - 1) as u32
            }) && c == (if old(self)@ == 1 {
                HoldChange::Release
            } else {
                HoldChange::Keep
            }),
    {
        if enable {
            let prev = self.count;
            self.count = self.count.wrapping_add(1);
            if prev == 0 {
                HoldChange::Acquire
            } else {
                HoldChange::Keep
            }
        } else {
            let cur = self.count;
            if cur == 0 {
                return HoldChange::Keep;
            }
            self.count = cur - 1;
            if cur == 1 {
                HoldChange::Release
            } else {
                HoldChange::Keep
            }
        }
    }
}

/// Balanced sessions: a session that starts and ends leaves the count as it
/// was; the hold is taken and dropped exactly when the count moves between
/// zero and one.
pub proof fn lemma_session_balanced(n: u32)
    requires
        n < u32::MAX,
    ensures
        ({
            let up = n.wrapping_add(1);
            let down = if up == 0 { 0u32 } else { (up - 1) as u32 };
            &&& down == n
            &&& (n == 0 <==> up == 1)
        }),
{
}

/// Whether creating the macOS power assertion succeeded: status 0 and a
/// non-zero assertion id.
pub fn assertion_created(status: i32, id: u32) -> (r: bool)
    ensures
        r == (status == 0 && id != 0),
{
    status == 0 && id != 0
}

} // verus!
