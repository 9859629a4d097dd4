//! The System pallet: the low-level state every chain needs — the current
//! block number and a per-account extrinsic counter (nonce).

use vstd::prelude::*;

use crate::store;

verus! {

/// The nonce an account holds in a nonce ledger: zero when absent.
pub open spec fn nonce_from(nonces: Map<Seq<char>, u32>, who: Seq<char>) -> u32 {
    if nonces.contains_key(who) {
        nonces[who]
    } else {
        0
    }
}

/// The System pallet: the current block number and the nonce ledger.
#[derive(Debug)]
pub struct Pallet {
    block_number: u32,
    nonce: Vec<(String, u32)>,
}

impl Pallet {
    /// The nonce ledger never stores an account twice.
    pub closed spec fn wf(self) -> bool {
        store::keys_distinct(self.nonce@)
    }

    /// The current block number.
    pub closed spec fn spec_block_number(self) -> u32 {
        self.block_number
    }

    /// The nonce ledger as a map from account names to counters.
    pub closed spec fn nonces(self) -> Map<Seq<char>, u32> {
        store::map_of(self.nonce@)
    }

    /// Create a new instance of the System pallet: block number zero, no
    /// nonces recorded.
    pub fn new() -> (p: Pallet)
        ensures
            p.wf(),
            p.spec_block_number() == 0,
            p.nonces() == Map::<Seq<char>, u32>::empty(),
    {
        Pallet { block_number: 0, nonce: Vec::new() }
    }

    /// Get the current block number.
    pub fn block_number(&self) -> (r: u32)
        ensures
            r == self.spec_block_number(),
    {
        self.block_number
    }

    /// Increase the block number by one.
    pub fn inc_block_number(&mut self)
        requires
            old(self).wf(),
            old(self).spec_block_number() < u32::MAX,
        ensures
            final(self).wf(),
            final(self).spec_block_number() == old(self).spec_block_number() + 1,
            final(self).nonces() == old(self).nonces(),
    {
        self.block_number = self.block_number + 1;
    }

    /// Record one more extrinsic from `who`: the account's nonce, zero when
    /// absent, goes up by exactly one.
    pub fn inc_nonce(&mut self, who: &String)
        requires
            old(self).wf(),
            nonce_from(old(self).nonces(), who@) < u32::MAX,
        ensures
            final(self).wf(),
            final(self).spec_block_number() == old(self).spec_block_number(),
            final(self).nonces() == old(self).nonces().insert(
                who@,
                (nonce_from(old(self).nonces(), who@) + 1) as u32,
            ),
    {
        let nonce: u32 = match store::lookup(&self.nonce, who) {
            Some(n) => *n,
            None => 0,
        };
        let new_nonce = nonce + 1;
        store::upsert(&mut self.nonce, who.clone(), new_nonce);
    }

    /// The nonce recorded for `who`: `None` when the account has sent nothing.
    pub fn nonce(&self, who: &String) -> (r: Option<&u32>)
        requires
            self.wf(),
        ensures
            match r {
                Some(n) => self.nonces().contains_key(who@) && *n == self.nonces()[who@],
                None => !self.nonces().contains_key(who@),
            },
    {
        store::lookup(&self.nonce, who)
    }
}

} // verus!
