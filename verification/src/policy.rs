//! Config-driven, auditable copy-limit policy: a hard cap on the number of
//! concurrent redundant copies of one agent.

use vstd::prelude::*;
use crate::error::Error;
use crate::text::{decimal, decimal_string, join3};

verus! {

/// A hard cap on concurrent redundant copies of one agent.
#[derive(Debug)]
pub struct CopyLimitPolicy {
    max_copies: usize,
    live: usize,
}

/// The message of a refused copy: `copy-limit reached: {live}/{max} ...`.
pub open spec fn copy_limit_text(live: nat, max: nat) -> Seq<char> {
    "copy-limit reached: "@ + decimal(live) + "/"@ + decimal(max) + " concurrent copies"@
}

impl CopyLimitPolicy {
    pub closed spec fn max_spec(&self) -> usize {
        self.max_copies
    }

    pub closed spec fn live_spec(&self) -> usize {
        self.live
    }

    pub fn new(max_copies: usize) -> (p: Self)
        ensures
            p.max_spec() == max_copies,
            p.live_spec() == 0,
    {
        CopyLimitPolicy { max_copies, live: 0 }
    }

    /// The configured maximum number of concurrent copies.
    pub fn max_copies(&self) -> (n: usize)
        ensures
            n == self.max_spec(),
    {
        self.max_copies
    }

    /// Current number of live copies.
    pub fn live_copies(&self) -> (n: usize)
        ensures
            n == self.live_spec(),
    {
        self.live
    }

    /// Attempt to authorize one more copy: refused iff the cap is reached.
    pub fn authorize_copy(&mut self) -> (r: Result<(), Error>)
        ensures
            final(self).max_spec() == old(self).max_spec(),
            r is Ok <==> old(self).live_spec() < old(self).max_spec(),
            r is Ok ==> final(self).live_spec() == old(self).live_spec() + 1,
            r matches Err(e) ==> final(self).live_spec() == old(self).live_spec() && (e matches Error::Replication(m)
                && m@ == copy_limit_text(old(self).live_spec() as nat, old(self).max_spec() as nat)),
            old(self).live_spec() <= old(self).max_spec() ==> final(self).live_spec() <= final(self).max_spec(),
    {
        let cur = self.live;
        if cur >= self.max_copies {
            let a = decimal_string(cur as u64);
            let b = decimal_string(self.max_copies as u64);
            let m = join3("copy-limit reached: ", a.as_str(), "/");
            let m = join3(m.as_str(), b.as_str(), " concurrent copies");
            return Err(Error::Replication(m));
        }
        self.live = cur + 1;
        Ok(())
    }

    /// Record that a copy has been retired. The counter wraps below zero, as
    /// an atomic decrement does.
    pub fn retire_copy(&mut self)
        ensures
            final(self).max_spec() == old(self).max_spec(),
            final(self).live_spec() == (if old(self).live_spec() == 0 {
                usize::MAX
            } else {
                (old(self).live_spec() - 1) as usize
            }),
    {
        self.live = self.live.wrapping_sub(1);
    }
}

} // verus!
