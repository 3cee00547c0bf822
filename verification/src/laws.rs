//! The global laws of the bet lifecycle, proved from the transition
//! functions alone: solvency along any operation sequence, exactly-once
//! settlement, binding of the canonical oracle message to one bet, and the
//! refund timeout boundary.

use vstd::prelude::*;
use crate::codec::lemma_message_bytes_injective;
use crate::engine::{
    GameView, GameOp, BetRecord, DiceError, Settlement, REFUND_TIMEOUT, has_bet, bet_of,
    remove_bet, find_bet_index, is_bet_key, lemma_find_bet_index, place_bet_spec,
    resolve_bet_spec, refund_bet_spec,
};

verus! {

/// The state after one operation: each operation either performs exactly
/// the change its transition function describes, or leaves the state as it
/// was.
pub open spec fn apply_op(pre: GameView, op: GameOp) -> GameView {
    match op {
        GameOp::Place { player, seed, roll, amount, now } => place_bet_spec(
            pre,
            player,
            seed,
            roll,
            amount,
            now,
        ).0,
        GameOp::Resolve { player, seed, sig } => resolve_bet_spec(pre, player, seed, sig).0,
        GameOp::Refund { player, seed, now } => refund_bet_spec(pre, player, seed, now).0,
    }
}

/// Funds an operation pays out of the vault: a winning payout, a refunded
/// wager, and nothing otherwise.
pub open spec fn op_outflow(pre: GameView, op: GameOp) -> int {
    match op {
        GameOp::Place { .. } => 0,
        GameOp::Resolve { player, seed, sig } => match resolve_bet_spec(pre, player, seed, sig).1 {
            Ok(s) => s.payout as int,
            Err(_) => 0,
        },
        GameOp::Refund { player, seed, now } => match refund_bet_spec(pre, player, seed, now).1 {
            Ok(a) => a as int,
            Err(_) => 0,
        },
    }
}

/// Funds an operation moves into the vault: the escrowed wager of a
/// successful creation, and nothing otherwise.
pub open spec fn op_inflow(pre: GameView, op: GameOp) -> int {
    match op {
        GameOp::Place { player, seed, roll, amount, now } => match place_bet_spec(
            pre,
            player,
            seed,
            roll,
            amount,
            now,
        ).1 {
            Ok(_) => amount as int,
            Err(_) => 0,
        },
        GameOp::Resolve { .. } => 0,
        GameOp::Refund { .. } => 0,
    }
}

/// The state after a sequence of operations.
pub open spec fn run_steps(g0: GameView, ops: Seq<GameOp>) -> GameView
    decreases ops.len(),
{
    if ops.len() == 0 {
        g0
    } else {
        run_steps(apply_op(g0, ops[0]), ops.skip(1))
    }
}

/// After removing the open bet of `player` under `seed`, no open bet of
/// that player under that seed remains: well-formedness admits only one.
proof fn lemma_no_bet_after_remove(g: GameView, player: Seq<u8>, seed: u64)
    requires
        g.wf(),
        has_bet(g.bets, player, seed),
    ensures
        !has_bet(remove_bet(g.bets, player, seed), player, seed),
{
    let s = g.bets;
    let i = find_bet_index(s, player, seed);
    lemma_find_bet_index(s, player, seed);
    let post = remove_bet(s, player, seed);
    assert forall|k: int| 0 <= k < post.len() implies !is_bet_key(
        #[trigger] post[k],
        player,
        seed,
    ) by {
        let k0: int = if k < i { k } else { k + 1 };
        assert(post[k] == s[k0]);
        if k0 != i && is_bet_key(s[k0], player, seed) {
            if k0 < i {
                assert(is_bet_key(s[i], s[k0].player@, s[k0].seed));
            } else {
                assert(is_bet_key(s[k0], s[i].player@, s[i].seed));
            }
        }
    }
    lemma_find_bet_index(post, player, seed);
}

/// One step of the solvency invariant: from a well-formed state, any
/// operation leads to a well-formed state, pays out no more than the vault
/// holds, and leaves the vault with exactly the old balance minus the
/// outflow plus the inflow.
pub proof fn lemma_step_solvency(pre: GameView, op: GameOp)
    requires
        pre.wf(),
    ensures
        apply_op(pre, op).wf(),
        0 <= op_outflow(pre, op) <= pre.vault,
        apply_op(pre, op).vault == pre.vault - op_outflow(pre, op) + op_inflow(pre, op),
{
    match op {
        GameOp::Place { player, seed, roll, amount, now } => {
            let (post, r) = place_bet_spec(pre, player, seed, roll, amount, now);
            if r is Ok {
                lemma_find_bet_index(pre.bets, player@, seed);
                assert forall|k: int, l: int|
                    #![trigger post.bets[k], post.bets[l]]
                    0 <= k < l < post.bets.len() implies !is_bet_key(
                    post.bets[l],
                    post.bets[k].player@,
                    post.bets[k].seed,
                ) by {
                    if l < post.bets.len() - 1 {
                        assert(post.bets[k] == pre.bets[k]);
                        assert(post.bets[l] == pre.bets[l]);
                    } else {
                        assert(post.bets[k] == pre.bets[k]);
                    }
                }
            }
        },
        GameOp::Resolve { player, seed, sig } => {
            let (post, r) = resolve_bet_spec(pre, player, seed, sig);
            if r is Ok {
                let i = find_bet_index(pre.bets, player@, seed);
                lemma_find_bet_index(pre.bets, player@, seed);
                lemma_wf_remove_steps(pre, i);
            }
        },
        GameOp::Refund { player, seed, now } => {
            let (post, r) = refund_bet_spec(pre, player, seed, now);
            if r is Ok {
                let i = find_bet_index(pre.bets, player@, seed);
                lemma_find_bet_index(pre.bets, player@, seed);
                lemma_wf_remove_steps(pre, i);
            }
        },
    }
}

/// Removing one record keeps the open-bet set well-formed, whatever the
/// vault balance becomes.
proof fn lemma_wf_remove_steps(pre: GameView, i: int)
    requires
        pre.wf(),
        0 <= i < pre.bets.len(),
    ensures
        forall|v: u64| (GameView { vault: v, bets: pre.bets.remove(i), ..pre }).wf(),
{
    assert forall|v: u64| (GameView { vault: v, bets: pre.bets.remove(i), ..pre }).wf() by {
        let post = GameView { vault: v, bets: pre.bets.remove(i), ..pre };
        assert forall|k: int| 0 <= k < post.bets.len() implies (#[trigger] post.bets[k]).wf(
            post.config,
        ) by {
            let k0: int = if k < i { k } else { k + 1 };
            assert(post.bets[k] == pre.bets[k0]);
        }
        assert forall|k: int, l: int|
            #![trigger post.bets[k], post.bets[l]]
            0 <= k < l < post.bets.len() implies !is_bet_key(
            post.bets[l],
            post.bets[k].player@,
            post.bets[k].seed,
        ) by {
            let k0: int = if k < i { k } else { k + 1 };
            let l0: int = if l < i { l } else { l + 1 };
            assert(post.bets[k] == pre.bets[k0]);
            assert(post.bets[l] == pre.bets[l0]);
        }
    }
}

/// Solvency invariant: along any sequence of create/resolve/refund
/// operations from a well-formed state, every intermediate state is
/// well-formed and every payout issued at a step is at most the vault
/// balance available at that step. The vault balance is an unsigned
/// 64-bit quantity throughout, so it never goes negative.
pub proof fn lemma_solvency(g0: GameView, ops: Seq<GameOp>)
    requires
        g0.wf(),
    ensures
        run_steps(g0, ops).wf(),
        forall|k: int| 0 <= k <= ops.len() ==> run_steps(g0, #[trigger] ops.take(k)).wf(),
        forall|k: int|
            0 <= k < ops.len() ==> op_outflow(run_steps(g0, ops.take(k)), #[trigger] ops[k])
                <= run_steps(g0, ops.take(k)).vault,
    decreases ops.len(),
{
    if ops.len() == 0 {
        assert forall|k: int| 0 <= k <= ops.len() implies run_steps(
            g0,
            #[trigger] ops.take(k),
        ).wf() by {
            assert(ops.take(k) =~= ops);
        }
    } else {
        let g1 = apply_op(g0, ops[0]);
        lemma_step_solvency(g0, ops[0]);
        lemma_solvency(g1, ops.skip(1));
        assert forall|k: int| 0 <= k <= ops.len() implies run_steps(
            g0,
            #[trigger] ops.take(k),
        ).wf() by {
            if k == 0 {
                assert(ops.take(0) =~= Seq::<GameOp>::empty());
            } else {
                let rest = ops.skip(1);
                assert(ops.take(k)[0] == ops[0]);
                assert(ops.take(k).skip(1) =~= rest.take(k - 1));
                assert(run_steps(g0, ops.take(k)) == run_steps(g1, rest.take(k - 1)));
            }
        }
        assert forall|k: int|
            0 <= k < ops.len() implies op_outflow(run_steps(g0, ops.take(k)), #[trigger] ops[k])
            <= run_steps(g0, ops.take(k)).vault by {
            if k == 0 {
                assert(ops.take(0) =~= Seq::<GameOp>::empty());
            } else {
                let rest = ops.skip(1);
                assert(ops.take(k)[0] == ops[0]);
                assert(ops.take(k).skip(1) =~= rest.take(k - 1));
                assert(run_steps(g0, ops.take(k)) == run_steps(g1, rest.take(k - 1)));
                assert(ops[k] == rest[k - 1]);
            }
        }
        assert(ops.take(ops.len() as int) =~= ops);
    }
}

/// Exactly-once settlement, first half: once a bet resolves, any further
/// resolve or refund of the same player and seed fails with `BetNotFound`
/// and changes nothing.
pub proof fn lemma_resolve_is_final(
    g: GameView,
    player: [u8; 32],
    seed: u64,
    sig: Seq<u8>,
    sig2: Seq<u8>,
    now: u64,
)
    requires
        g.wf(),
        resolve_bet_spec(g, player, seed, sig).1 is Ok,
    ensures
        resolve_bet_spec(resolve_bet_spec(g, player, seed, sig).0, player, seed, sig2)
            == (resolve_bet_spec(g, player, seed, sig).0, Err::<Settlement, DiceError>(
            DiceError::BetNotFound,
        )),
        refund_bet_spec(resolve_bet_spec(g, player, seed, sig).0, player, seed, now)
            == (resolve_bet_spec(g, player, seed, sig).0, Err::<u64, DiceError>(
            DiceError::BetNotFound,
        )),
{
    lemma_no_bet_after_remove(g, player@, seed);
}

/// Exactly-once settlement, second half: once a bet is refunded, any
/// further resolve or refund of the same player and seed fails with
/// `BetNotFound` and changes nothing.
pub proof fn lemma_refund_is_final(
    g: GameView,
    player: [u8; 32],
    seed: u64,
    now: u64,
    sig: Seq<u8>,
    now2: u64,
)
    requires
        g.wf(),
        refund_bet_spec(g, player, seed, now).1 is Ok,
    ensures
        resolve_bet_spec(refund_bet_spec(g, player, seed, now).0, player, seed, sig)
            == (refund_bet_spec(g, player, seed, now).0, Err::<Settlement, DiceError>(
            DiceError::BetNotFound,
        )),
        refund_bet_spec(refund_bet_spec(g, player, seed, now).0, player, seed, now2)
            == (refund_bet_spec(g, player, seed, now).0, Err::<u64, DiceError>(
            DiceError::BetNotFound,
        )),
{
    lemma_no_bet_after_remove(g, player@, seed);
}

/// Signature binding: two bets that differ in player, seed, roll or amount
/// have distinct canonical oracle messages. A resolution accepts a
/// signature only when it verifies over the resolved bet's own canonical
/// message, so a signature the oracle issued for one bet is never checked
/// against a message it could also satisfy for another: rejecting it then
/// rests only on the oracle signing nothing but canonical messages.
pub proof fn lemma_message_binding(b1: BetRecord, b2: BetRecord)
    requires
        b1.player@ != b2.player@ || b1.seed != b2.seed || b1.roll != b2.roll || b1.amount
            != b2.amount,
    ensures
        b1.oracle_message() != b2.oracle_message(),
{
    if b1.oracle_message() == b2.oracle_message() {
        lemma_message_bytes_injective(
            b1.player@,
            b1.seed,
            b1.roll,
            b1.amount,
            crate::crypto::address_of(b1.player@, b1.seed),
            b2.player@,
            b2.seed,
            b2.roll,
            b2.amount,
            crate::crypto::address_of(b2.player@, b2.seed),
        );
    }
}

/// Deterministic outcome: a settlement is a pure function of the signature
/// bytes, the bet record's own fields and the configured house edge. Two
/// successful resolutions of equal bet records under equal configurations —
/// whatever else the two states hold — produce bit-for-bit equal outcomes,
/// win/loss decisions and payouts.
pub proof fn lemma_deterministic_outcome(
    g1: GameView,
    g2: GameView,
    player: [u8; 32],
    seed: u64,
    sig: Seq<u8>,
)
    requires
        bet_of(g1.bets, player@, seed) == bet_of(g2.bets, player@, seed),
        g1.config == g2.config,
        resolve_bet_spec(g1, player, seed, sig).1 is Ok,
        resolve_bet_spec(g2, player, seed, sig).1 is Ok,
    ensures
        resolve_bet_spec(g1, player, seed, sig).1 == resolve_bet_spec(g2, player, seed, sig).1,
{
}

/// Refund timeout boundary: one clock unit before the timeout elapses a
/// refund is rejected as not yet eligible; at exactly the timeout it is
/// granted (whenever the vault covers the wager, which solvent operation
/// guarantees).
pub proof fn lemma_refund_boundary(g: GameView, player: [u8; 32], seed: u64, now: u64)
    requires
        g.wf(),
        has_bet(g.bets, player@, seed),
    ensures
        now == bet_of(g.bets, player@, seed).created_at + REFUND_TIMEOUT - 1
            ==> refund_bet_spec(g, player, seed, now).1 == Err::<u64, DiceError>(
            DiceError::RefundNotYetEligible,
        ),
        now == bet_of(g.bets, player@, seed).created_at + REFUND_TIMEOUT && bet_of(
            g.bets,
            player@,
            seed,
        ).amount <= g.vault ==> refund_bet_spec(g, player, seed, now).1 == Ok::<u64, DiceError>(
            bet_of(g.bets, player@, seed).amount,
        ),
{
}

} // verus!
