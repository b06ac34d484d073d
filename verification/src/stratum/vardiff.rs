//! When a worker's difficulty is reconsidered.

use vstd::prelude::*;

verus! {

/// The least time, in seconds, between two reconsiderations.
pub const VARDIFF_RETARGET_SECS: u64 = 60;

/// The shares of a worker since its difficulty was last reconsidered.
#[derive(Debug)]
pub struct Vardiff {
    pub shares_since_retarget: u64,
}

/// The count after a share, and the shares to reconsider the difficulty by, where
/// the time is up.
pub open spec fn after_share(count: nat, elapsed_secs: u64) -> (nat, Option<nat>) {
    if elapsed_secs < VARDIFF_RETARGET_SECS {
        (count + 1, None)
    } else {
        (0, Some(count + 1))
    }
}

/// The count after several shares, each some seconds after the difficulty was last
/// reconsidered.
pub open spec fn after_shares(count: nat, elapsed: Seq<u64>) -> nat
    decreases elapsed.len(),
{
    if elapsed.len() == 0 {
        count
    } else {
        after_share(after_shares(count, elapsed.drop_last()), elapsed.last()).0
    }
}

/// The difficulty is reconsidered by exactly the shares that came since it last
/// was, the one that comes when the time is up among them; the count then starts
/// at zero.
pub proof fn law_every_share_counts_once(elapsed: Seq<u64>, last: u64)
    requires
        forall|i: int| 0 <= i < elapsed.len() ==> #[trigger] elapsed[i] < VARDIFF_RETARGET_SECS,
        last >= VARDIFF_RETARGET_SECS,
    ensures
        after_share(after_shares(0, elapsed), last) == (0nat, Some(elapsed.len() + 1)),
    decreases elapsed.len(),
{
    if elapsed.len() > 0 {
        let before = elapsed.drop_last();
        assert forall|i: int| 0 <= i < before.len() implies #[trigger] before[i]
            < VARDIFF_RETARGET_SECS by {
            assert(before[i] == elapsed[i]);
        }
        law_every_share_counts_once(before, last);
        assert(elapsed[elapsed.len() - 1] < VARDIFF_RETARGET_SECS);
    }
}

impl Vardiff {
    /// A count without shares.
    pub fn new() -> (r: Self)
        ensures
            r.shares_since_retarget == 0,
    {
        Vardiff { shares_since_retarget: 0 }
    }

    /// Counts a share that comes some whole seconds after the difficulty was last
    /// reconsidered. Where that time is up, the shares since then come back and
    /// the count starts anew.
    pub fn on_share(&mut self, elapsed_secs: u64) -> (r: Option<u64>)
        requires
            old(self).shares_since_retarget < u64::MAX,
        ensures
            ({
                let (count, shares) = after_share(
                    old(self).shares_since_retarget as nat,
                    elapsed_secs,
                );
                &&& final(self).shares_since_retarget == count
                &&& match r {
                    Some(n) => shares == Some(n as nat),
                    None => shares is None,
                }
            }),
    {
        self.shares_since_retarget = self.shares_since_retarget + 1;
        if elapsed_secs < VARDIFF_RETARGET_SECS {
            return None;
        }
        let shares: u64 = self.shares_since_retarget;
        self.shares_since_retarget = 0;
        Some(shares)
    }
}

}
