//! The runtime: one instance of every pallet, the dispatcher that routes a
//! call to the pallet owning it, and the block executor that enforces block
//! sequencing, advances nonces, and applies extrinsics with isolated
//! failure handling.

use vstd::prelude::*;

use crate::balances;
use crate::proof_of_existence;
use crate::support::{DispatchError, DispatchResult, ExtrinsicFailure};
use crate::system;

verus! {

/// One instruction for the runtime, tagged with the pallet that owns it.
pub enum RuntimeCall {
    Balances(balances::Call),
    ProofOfExistence(proof_of_existence::Call),
}

/// The view of a runtime call.
pub enum RuntimeCallView {
    Balances(balances::CallView),
    ProofOfExistence(proof_of_existence::CallView),
}

impl View for RuntimeCall {
    type V = RuntimeCallView;

    open spec fn view(&self) -> RuntimeCallView {
        match self {
            RuntimeCall::Balances(call) => RuntimeCallView::Balances(call@),
            RuntimeCall::ProofOfExistence(call) => RuntimeCallView::ProofOfExistence(call@),
        }
    }
}

/// One caller-attributed instruction, consumed exactly once by the executor.
pub struct Extrinsic {
    pub caller: String,
    pub call: RuntimeCall,
}

/// The view of an extrinsic.
pub struct ExtrinsicView {
    pub caller: Seq<char>,
    pub call: RuntimeCallView,
}

impl View for Extrinsic {
    type V = ExtrinsicView;

    open spec fn view(&self) -> ExtrinsicView {
        ExtrinsicView { caller: self.caller@, call: self.call@ }
    }
}

/// A block header: for this runtime, only the block's number.
pub struct Header {
    pub block_number: u32,
}

/// An ordered block of extrinsics, built externally and passed by value to
/// `execute_block`.
pub struct Block {
    pub header: Header,
    pub extrinsics: Vec<Extrinsic>,
}

/// The views of a block's extrinsics, in order.
pub open spec fn extrinsic_views(extrinsics: Seq<Extrinsic>) -> Seq<ExtrinsicView> {
    extrinsics.map_values(|e: Extrinsic| e@)
}

/// The whole runtime state as mathematical values: the current block number
/// and the three pallet ledgers.
#[verifier::ext_equal]
pub struct StateView {
    pub block_number: u32,
    pub nonces: Map<Seq<char>, u32>,
    pub balances: Map<Seq<char>, u128>,
    pub claims: Map<Seq<char>, Seq<char>>,
}

/// The runtime: one instance of every pallet, exclusively owned.
#[derive(Debug)]
pub struct Runtime {
    pub system: system::Pallet,
    pub balances: balances::Pallet,
    pub proof_of_existence: proof_of_existence::Pallet,
}

impl View for Runtime {
    type V = StateView;

    open spec fn view(&self) -> StateView {
        StateView {
            block_number: self.system.spec_block_number(),
            nonces: self.system.nonces(),
            balances: self.balances.balances_map(),
            claims: self.proof_of_existence.claims_map(),
        }
    }
}

/// What dispatching one call does to the runtime state. A transfer is
/// funded by the extrinsic-level caller, while a claim call names its own
/// caller inside the call: that asymmetry is part of the contract.
pub open spec fn dispatch_spec(s: StateView, caller: Seq<char>, call: RuntimeCallView) -> (
    StateView,
    DispatchResult,
) {
    match call {
        RuntimeCallView::Balances(call) => {
            let outcome = balances::dispatch_spec(s.balances, caller, call);
            (
                StateView {
                    block_number: s.block_number,
                    nonces: s.nonces,
                    balances: outcome.0,
                    claims: s.claims,
                },
                outcome.1,
            )
        },
        RuntimeCallView::ProofOfExistence(call) => {
            let outcome = proof_of_existence::dispatch_spec(s.claims, call);
            (
                StateView {
                    block_number: s.block_number,
                    nonces: s.nonces,
                    balances: s.balances,
                    claims: outcome.0,
                },
                outcome.1,
            )
        },
    }
}

/// One extrinsic's effect: the caller's nonce goes up by one whatever the
/// call's outcome, then the call is dispatched.
pub open spec fn step(s: StateView, e: ExtrinsicView) -> (StateView, DispatchResult) {
    let bumped = StateView {
        block_number: s.block_number,
        nonces: s.nonces.insert(e.caller, (system::nonce_from(s.nonces, e.caller) + 1) as u32),
        balances: s.balances,
        claims: s.claims,
    };
    dispatch_spec(bumped, e.caller, e.call)
}

/// The state after applying the extrinsics in order; a failed call leaves
/// everything but its caller's nonce untouched and the rest go on.
pub open spec fn run(s: StateView, exts: Seq<ExtrinsicView>) -> StateView
    decreases exts.len(),
{
    if exts.len() == 0 {
        s
    } else {
        run(step(s, exts[0]).0, exts.drop_first())
    }
}

/// The failure reports the executor emits for the extrinsics, whose
/// positions in the block count from `index`.
pub open spec fn failures(
    s: StateView,
    exts: Seq<ExtrinsicView>,
    block_number: u32,
    index: int,
) -> Seq<ExtrinsicFailure>
    decreases exts.len(),
{
    if exts.len() == 0 {
        Seq::empty()
    } else {
        let outcome = step(s, exts[0]);
        let rest = failures(outcome.0, exts.drop_first(), block_number, index + 1);
        match outcome.1 {
            Ok(()) => rest,
            Err(e) => seq![
                ExtrinsicFailure { block_number, index: index as usize, error: e },
            ] + rest,
        }
    }
}

/// How many of the extrinsics name `who` as their caller.
pub open spec fn count_from(exts: Seq<ExtrinsicView>, who: Seq<char>) -> nat
    decreases exts.len(),
{
    if exts.len() == 0 {
        0
    } else {
        (if exts[0].caller == who {
            1nat
        } else {
            0nat
        }) + count_from(exts.drop_first(), who)
    }
}

/// No account is named as caller more often than there are extrinsics:
/// with it a caller of `execute_block` can bound every nonce at once.
pub proof fn lemma_count_from_le_len(exts: Seq<ExtrinsicView>, who: Seq<char>)
    ensures
        count_from(exts, who) <= exts.len(),
    decreases exts.len(),
{
    if exts.len() > 0 {
        lemma_count_from_le_len(exts.drop_first(), who);
    }
}

/// Nonce bookkeeping: running a block's extrinsics raises each account's
/// nonce by exactly the number of extrinsics that name it as caller,
/// however many of those calls failed.
pub proof fn lemma_run_counts_nonces(s: StateView, exts: Seq<ExtrinsicView>, who: Seq<char>)
    requires
        system::nonce_from(s.nonces, who) + count_from(exts, who) <= u32::MAX,
    ensures
        system::nonce_from(run(s, exts).nonces, who) == system::nonce_from(s.nonces, who)
            + count_from(exts, who),
    decreases exts.len(),
{
    if exts.len() > 0 {
        lemma_run_counts_nonces(step(s, exts[0]).0, exts.drop_first(), who);
    }
}

/// Every read of a fresh runtime returns the zero or absent value: no
/// balance, no nonce, no claim.
pub proof fn lemma_fresh_state_reads_zero(who: Seq<char>, claim: Seq<char>)
    ensures
        balances::balance_from(Map::<Seq<char>, u128>::empty(), who) == 0,
        system::nonce_from(Map::<Seq<char>, u32>::empty(), who) == 0,
        !Map::<Seq<char>, Seq<char>>::empty().contains_key(claim),
{
}

impl Runtime {
    /// Every pallet's store is well formed.
    pub open spec fn wf(self) -> bool {
        self.system.wf() && self.balances.wf() && self.proof_of_existence.wf()
    }

    /// Create a new instance of the runtime, with every pallet fresh.
    pub fn new() -> (r: Runtime)
        ensures
            r.wf(),
            r@.block_number == 0,
            r@.nonces == Map::<Seq<char>, u32>::empty(),
            r@.balances == Map::<Seq<char>, u128>::empty(),
            r@.claims == Map::<Seq<char>, Seq<char>>::empty(),
    {
        Runtime {
            system: system::Pallet::new(),
            balances: balances::Pallet::new(),
            proof_of_existence: proof_of_existence::Pallet::new(),
        }
    }

    /// Dispatch a call on behalf of `caller` to the pallet that owns it,
    /// and surface the pallet's verdict unchanged. Routing validates
    /// nothing itself; all checks live in the pallet methods.
    pub fn dispatch(&mut self, caller: String, runtime_call: RuntimeCall) -> (r: DispatchResult)
        requires
            old(self).wf(),
        ensures
            final(self).wf(),
            ({
                let outcome = dispatch_spec(old(self)@, caller@, runtime_call@);
                final(self)@ == outcome.0 && r == outcome.1
            }),
    {
        let ghost pre = *old(self);
        let ghost caller_view = caller@;
        let ghost call_view = runtime_call@;
        match runtime_call {
            RuntimeCall::Balances(balances::Call::Transfer { to, amount }) => {
                let r = self.balances.transfer(caller, to, amount);
                proof {
                    let outcome = dispatch_spec(pre@, caller_view, call_view);
                    assert(self@ =~= outcome.0);
                    assert(r == outcome.1);
                }
                r
            },
            RuntimeCall::ProofOfExistence(
                proof_of_existence::Call::CreateClaim { caller, claim },
            ) => {
                let r = self.proof_of_existence.create_claim(caller, claim);
                proof {
                    let outcome = dispatch_spec(pre@, caller_view, call_view);
                    assert(self@ =~= outcome.0);
                    if r is Ok {
                        assert(outcome.1 is Ok);
                        assert(r == outcome.1);
                    } else {
                        assert(r == outcome.1);
                    }
                }
                r
            },
            RuntimeCall::ProofOfExistence(
                proof_of_existence::Call::RevokeClaim { caller, claim },
            ) => {
                let r = self.proof_of_existence.revoke_claim(caller, claim);
                proof {
                    let outcome = dispatch_spec(pre@, caller_view, call_view);
                    assert(self@ =~= outcome.0);
                    assert(r == outcome.1);
                }
                r
            },
        }
    }

    /// Execute a block. The block number advances unconditionally; a block
    /// whose header does not carry exactly the next number is rejected
    /// whole with `BlockNumberMismatch`, no extrinsic processed. Otherwise
    /// each extrinsic in order bumps its caller's nonce and is dispatched;
    /// a failed dispatch is appended to `reports` and never aborts the
    /// rest of the block.
    pub fn execute_block(&mut self, block: Block, reports: &mut Vec<ExtrinsicFailure>) -> (r:
        DispatchResult)
        requires
            old(self).wf(),
            old(self)@.block_number < u32::MAX,
            forall|who: Seq<char>|
                system::nonce_from(old(self)@.nonces, who) + count_from(
                    extrinsic_views(block.extrinsics@),
                    who,
                ) <= u32::MAX,
        ensures
            final(self).wf(),
            final(self)@.block_number == old(self)@.block_number + 1,
            ({
                let entry = (StateView {
                    block_number: (old(self)@.block_number + 1) as u32,
                    nonces: old(self)@.nonces,
                    balances: old(self)@.balances,
                    claims: old(self)@.claims,
                });
                if block.header.block_number != old(self)@.block_number + 1 {
                    &&& r == Err::<(), DispatchError>(DispatchError::BlockNumberMismatch)
                    &&& final(self)@ == entry
                    &&& final(reports)@ == old(reports)@
                } else {
                    &&& r is Ok
                    &&& final(self)@ == run(entry, extrinsic_views(block.extrinsics@))
                    &&& final(reports)@ == old(reports)@ + failures(
                        entry,
                        extrinsic_views(block.extrinsics@),
                        block.header.block_number,
                        0,
                    )
                    &&& forall|who: Seq<char>|
                        system::nonce_from(final(self)@.nonces, who) == system::nonce_from(
                            old(self)@.nonces,
                            who,
                        ) + count_from(extrinsic_views(block.extrinsics@), who)
                }
            }),
    {
        self.system.inc_block_number();
        let expected = self.system.block_number();
        if block.header.block_number != expected {
            proof {
                assert(self@ =~= (StateView {
                    block_number: (old(self)@.block_number + 1) as u32,
                    nonces: old(self)@.nonces,
                    balances: old(self)@.balances,
                    claims: old(self)@.claims,
                }));
            }
            return Err(DispatchError::BlockNumberMismatch);
        }
        let ghost entry = self@;
        let ghost exts0 = extrinsic_views(block.extrinsics@);
        let ghost reports0 = reports@;
        let bn = block.header.block_number;
        let mut extrinsics = block.extrinsics;
        let n = extrinsics.len();
        let mut i: usize = 0;
        proof {
            assert(exts0.skip(0) =~= exts0);
        }
        while extrinsics.len() > 0
            invariant
                self.wf(),
                exts0.len() == n,
                0 <= i <= n,
                extrinsics@.len() == n - i,
                extrinsic_views(extrinsics@) == exts0.skip(i as int),
                run(entry, exts0) == run(self@, exts0.skip(i as int)),
                reports@ + failures(self@, exts0.skip(i as int), bn, i as int) == reports0
                    + failures(entry, exts0, bn, 0),
                forall|who: Seq<char>|
                    system::nonce_from(self@.nonces, who) + count_from(exts0.skip(i as int), who)
                        <= u32::MAX,
                self@.block_number == entry.block_number,
            decreases extrinsics@.len(),
        {
            let ghost pre = self@;
            let ghost remaining = exts0.skip(i as int);
            let ghost entries_pre = extrinsics@;
            let ext = extrinsics.remove(0);
            proof {
                assert(remaining[0] == ext@);
                assert(count_from(remaining, ext@.caller) >= 1) by {
                    assert(remaining[0].caller == ext@.caller);
                }
                assert(system::nonce_from(pre.nonces, ext@.caller) + count_from(
                    remaining,
                    ext@.caller,
                ) <= u32::MAX);
            }
            self.system.inc_nonce(&ext.caller);
            let ghost bumped = self@;
            let res = self.dispatch(ext.caller, ext.call);
            let ghost post = self@;
            let ghost reports_pre = reports@;
            match res {
                Ok(()) => (),
                Err(e) => {
                    reports.push(ExtrinsicFailure { block_number: bn, index: i, error: e });
                },
            }
            proof {
                assert(bumped =~= (StateView {
                    block_number: pre.block_number,
                    nonces: pre.nonces.insert(
                        ext@.caller,
                        (system::nonce_from(pre.nonces, ext@.caller) + 1) as u32,
                    ),
                    balances: pre.balances,
                    claims: pre.claims,
                }));
                assert(post == step(pre, remaining[0]).0);
                assert(res == step(pre, remaining[0]).1);
                assert(0 <= i + 1 <= exts0.len());
                assert(remaining.len() == exts0.len() - i);
                assert forall|j: int|
                    0 <= j < remaining.drop_first().len() implies remaining.drop_first()[j]
                    == exts0.skip(i + 1)[j] by {
                    assert(remaining.drop_first()[j] == remaining[j + 1]);
                    assert(remaining[j + 1] == exts0[i + 1 + j]);
                    assert(exts0.skip(i + 1)[j] == exts0[i + 1 + j]);
                }
                assert(remaining.drop_first() =~= exts0.skip(i + 1));
                assert forall|j: int|
                    0 <= j < extrinsics@.len() implies extrinsic_views(extrinsics@)[j] == exts0.skip(
                    i + 1,
                )[j] by {
                    assert(extrinsics@[j] == entries_pre[j + 1]);
                }
                assert(extrinsic_views(extrinsics@) =~= exts0.skip(i + 1));
                assert(run(pre, remaining) == run(post, exts0.skip(i + 1)));
                let rest = failures(post, exts0.skip(i + 1), bn, i + 1);
                if res is Err {
                    let failure = (ExtrinsicFailure {
                        block_number: bn,
                        index: i as usize,
                        error: res->Err_0,
                    });
                    assert(failures(pre, remaining, bn, i as int) == seq![failure] + rest);
                    assert(reports@ =~= reports_pre.push(failure));
                    assert(reports_pre + (seq![failure] + rest) =~= reports_pre.push(failure)
                        + rest);
                } else {
                    assert(failures(pre, remaining, bn, i as int) == rest);
                }
                assert forall|who: Seq<char>|
                    system::nonce_from(post.nonces, who) + count_from(exts0.skip(i + 1), who)
                        <= u32::MAX by {
                    assert(system::nonce_from(pre.nonces, who) + count_from(remaining, who)
                        <= u32::MAX);
                }
            }
            i = i + 1;
        }
        proof {
            assert(exts0.skip(i as int) =~= Seq::<ExtrinsicView>::empty());
            assert(reports@ + Seq::<ExtrinsicFailure>::empty() =~= reports@);
            assert forall|who: Seq<char>|
                system::nonce_from(self@.nonces, who) == system::nonce_from(entry.nonces, who)
                    + count_from(exts0, who) by {
                lemma_run_counts_nonces(entry, exts0, who);
            }
        }
        Ok(())
    }
}

} // verus!
