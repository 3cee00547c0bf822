//! The escrow / settlement engine: the configuration record, bet records,
//! the vault, and the four operations of the bet lifecycle. Every operation
//! is all-or-nothing: it either performs exactly the state change its
//! transition function describes, or returns an error and changes nothing.

use vstd::prelude::*;
use crate::codec::{message_bytes, outcome_of, encode_message, derive_outcome, bytes32_eq};
use crate::crypto::{ed25519_valid, address_of, ed25519_verify, derive_bet_address};

verus! {

/// Minimum time that must elapse after a bet's creation before the bet
/// becomes refundable, in the host clock's units.
pub const REFUND_TIMEOUT: u64 = 86400;

/// The errors an operation can return. No error leaves the engine or the
/// vault partially updated.
#[derive(Clone, Copy, Debug, PartialEq, Eq, Structural)]
pub enum DiceError {
    /// The engine was already initialized.
    AlreadyInitialized,
    /// The roll threshold is outside 1..=99.
    InvalidRoll,
    /// The wager is zero or exceeds the configured maximum.
    InvalidAmount,
    /// The player already has an open bet under this seed.
    DuplicateOpenBet,
    /// The vault could not cover this bet's maximum payout at creation.
    InsufficientVaultReserve,
    /// A payout or balance would not fit in 64 bits.
    ArithmeticOverflow,
    /// No open bet exists for this player and seed.
    BetNotFound,
    /// The signature does not verify over this bet's canonical message
    /// under the configured oracle key.
    InvalidSignature,
    /// The vault cannot cover the transfer; the operation is aborted with
    /// funds untouched.
    VaultUnderfunded,
    /// The refund timeout has not yet elapsed.
    RefundNotYetEligible,
}

/// The program-wide configuration record, created once and read by every
/// operation.
#[derive(Clone, Copy, Debug)]
pub struct Config {
    /// The trusted oracle's Ed25519 verification key.
    pub oracle_pubkey: [u8; 32],
    /// Basis-point fee retained by the vault on a winning resolution.
    pub house_edge_bps: u16,
    /// Largest wager a single bet may carry.
    pub max_bet: u64,
    /// The administrator that created the configuration.
    pub authority: [u8; 32],
    /// Derivation metadata of the vault's address.
    pub vault_bump: u8,
}

impl Config {
    /// A well-formed configuration: the house edge is a proper fraction in
    /// basis points and at least some wager is allowed.
    pub open spec fn wf(self) -> bool {
        &&& self.house_edge_bps < 10000
        &&& self.max_bet >= 1
    }
}

/// One open wager: created by `place_bet`, consumed by exactly one of
/// `resolve_bet` and `refund_bet`.
#[derive(Clone, Copy, Debug)]
pub struct BetRecord {
    /// The bettor: sole beneficiary of any payout or refund.
    pub player: [u8; 32],
    /// Player-chosen nonce; one player has at most one open bet per seed.
    pub seed: u64,
    /// The chosen threshold: the bet wins when the outcome is below it.
    pub roll: u8,
    /// The escrowed wager.
    pub amount: u64,
    /// Creation time, for refund eligibility.
    pub created_at: u64,
}

/// The payout owed on a winning bet: `amount * (100 / roll)` scaled down by
/// the house edge, with floor division. A smaller `roll` means a lower win
/// probability and a higher multiplier.
pub open spec fn payout_amount(amount: u64, roll: u8, house_edge_bps: u16) -> int
    recommends
        1 <= roll <= 99,
        house_edge_bps < 10000,
{
    (amount as int) * 100 * (10000 - house_edge_bps as int) / ((roll as int) * 10000)
}

impl BetRecord {
    /// Whether this record could have been created under `config`: the
    /// fields are in range and the winning payout fits in 64 bits.
    pub open spec fn wf(self, config: Config) -> bool {
        &&& 1 <= self.roll <= 99
        &&& 1 <= self.amount <= config.max_bet
        &&& payout_amount(self.amount, self.roll, config.house_edge_bps) <= u64::MAX
    }

    /// The canonical message the oracle must sign to resolve this bet.
    pub open spec fn oracle_message(self) -> Seq<u8> {
        message_bytes(
            self.player@,
            self.seed,
            self.roll,
            self.amount,
            address_of(self.player@, self.seed),
        )
    }
}

/// Whether `b` is the open bet of `player` under `seed`.
pub open spec fn is_bet_key(b: BetRecord, player: Seq<u8>, seed: u64) -> bool {
    b.player@ == player && b.seed == seed
}

/// Index of the first open bet of `player` under `seed`, or -1 if none.
pub open spec fn find_bet_index(s: Seq<BetRecord>, player: Seq<u8>, seed: u64) -> int
    decreases s.len(),
{
    if s.len() == 0 {
        -1
    } else if is_bet_key(s[0], player, seed) {
        0
    } else if find_bet_index(s.skip(1), player, seed) == -1 {
        -1
    } else {
        1 + find_bet_index(s.skip(1), player, seed)
    }
}

/// Whether `player` has an open bet under `seed`.
pub open spec fn has_bet(s: Seq<BetRecord>, player: Seq<u8>, seed: u64) -> bool {
    find_bet_index(s, player, seed) >= 0
}

/// The open bet of `player` under `seed`.
pub open spec fn bet_of(s: Seq<BetRecord>, player: Seq<u8>, seed: u64) -> BetRecord
    recommends
        has_bet(s, player, seed),
{
    s[find_bet_index(s, player, seed)]
}

/// The open bets with the bet of `player` under `seed` removed (unchanged
/// if there is none).
pub open spec fn remove_bet(s: Seq<BetRecord>, player: Seq<u8>, seed: u64) -> Seq<BetRecord> {
    if has_bet(s, player, seed) {
        s.remove(find_bet_index(s, player, seed))
    } else {
        s
    }
}

/// `find_bet_index` points at the first matching record, and is -1 exactly
/// when no record matches.
pub proof fn lemma_find_bet_index(s: Seq<BetRecord>, player: Seq<u8>, seed: u64)
    ensures
        -1 <= find_bet_index(s, player, seed) < s.len(),
        has_bet(s, player, seed) ==> is_bet_key(s[find_bet_index(s, player, seed)], player, seed),
        forall|j: int|
            0 <= j < find_bet_index(s, player, seed) ==> !is_bet_key(#[trigger] s[j], player, seed),
        !has_bet(s, player, seed) ==> forall|j: int|
            0 <= j < s.len() ==> !is_bet_key(#[trigger] s[j], player, seed),
    decreases s.len(),
{
    if s.len() > 0 && !is_bet_key(s[0], player, seed) {
        lemma_find_bet_index(s.skip(1), player, seed);
        assert(forall|j: int| 1 <= j < s.len() ==> #[trigger] s[j] == s.skip(1)[j - 1]);
    }
}

/// A position that matches while everything before it does not is exactly
/// where `find_bet_index` points.
pub proof fn lemma_find_bet_index_unique(s: Seq<BetRecord>, player: Seq<u8>, seed: u64, i: int)
    requires
        0 <= i < s.len(),
        is_bet_key(s[i], player, seed),
        forall|j: int| 0 <= j < i ==> !is_bet_key(#[trigger] s[j], player, seed),
    ensures
        find_bet_index(s, player, seed) == i,
{
    lemma_find_bet_index(s, player, seed);
}

/// The mathematical state of the engine: the configuration, the vault
/// balance, and the sequence of open bet records.
#[verifier::ext_equal]
pub ghost struct GameView {
    pub config: Config,
    pub vault: u64,
    pub bets: Seq<BetRecord>,
}

impl GameView {
    /// Well-formedness: the configuration is valid, every open bet was
    /// validly created under it, and no player has two open bets with the
    /// same seed.
    pub open spec fn wf(self) -> bool {
        &&& self.config.wf()
        &&& forall|i: int| 0 <= i < self.bets.len() ==> (#[trigger] self.bets[i]).wf(self.config)
        &&& forall|i: int, j: int|
            #![trigger self.bets[i], self.bets[j]]
            0 <= i < j < self.bets.len() ==> !is_bet_key(
                self.bets[j],
                self.bets[i].player@,
                self.bets[i].seed,
            )
    }
}

/// One operation of the lifecycle, as a mathematical value: used to state
/// laws over arbitrary operation sequences (see [`crate::laws`]).
pub ghost enum GameOp {
    Place { player: [u8; 32], seed: u64, roll: u8, amount: u64, now: u64 },
    Resolve { player: [u8; 32], seed: u64, sig: Seq<u8> },
    Refund { player: [u8; 32], seed: u64, now: u64 },
}

/// The result of a settlement: the derived outcome, whether the bet won,
/// and the amount paid from the vault to the player (zero on a loss).
#[derive(Clone, Copy, Debug, PartialEq, Eq, Structural)]
pub struct Settlement {
    pub result: u8,
    pub won: bool,
    pub payout: u64,
}

/// What `place_bet` does: validates the roll and the amount, rejects a
/// duplicate open bet, moves the wager into the vault, and refuses creation
/// unless the vault, after receiving the wager, covers this bet's maximum
/// payout.
pub open spec fn place_bet_spec(
    pre: GameView,
    player: [u8; 32],
    seed: u64,
    roll: u8,
    amount: u64,
    now: u64,
) -> (GameView, Result<(), DiceError>) {
    if !(1 <= roll <= 99) {
        (pre, Err(DiceError::InvalidRoll))
    } else if !(1 <= amount <= pre.config.max_bet) {
        (pre, Err(DiceError::InvalidAmount))
    } else if has_bet(pre.bets, player@, seed) {
        (pre, Err(DiceError::DuplicateOpenBet))
    } else if pre.vault + amount > u64::MAX {
        (pre, Err(DiceError::ArithmeticOverflow))
    } else if payout_amount(amount, roll, pre.config.house_edge_bps) > u64::MAX {
        (pre, Err(DiceError::ArithmeticOverflow))
    } else if payout_amount(amount, roll, pre.config.house_edge_bps) > pre.vault + amount {
        (pre, Err(DiceError::InsufficientVaultReserve))
    } else {
        (
            GameView {
                vault: (pre.vault + amount) as u64,
                bets: pre.bets.push(
                    BetRecord { player, seed, roll, amount, created_at: now },
                ),
                ..pre
            },
            Ok(()),
        )
    }
}

/// What `resolve_bet` does: finds the open bet, demands a valid oracle
/// signature over the bet's canonical message, derives the outcome from the
/// signature bytes, and on a win pays the payout from the vault. Either
/// way the record is closed; on any error nothing changes.
pub open spec fn resolve_bet_spec(
    pre: GameView,
    player: [u8; 32],
    seed: u64,
    sig: Seq<u8>,
) -> (GameView, Result<Settlement, DiceError>) {
    if !has_bet(pre.bets, player@, seed) {
        (pre, Err(DiceError::BetNotFound))
    } else {
        let bet = bet_of(pre.bets, player@, seed);
        if !ed25519_valid(pre.config.oracle_pubkey@, bet.oracle_message(), sig) {
            (pre, Err(DiceError::InvalidSignature))
        } else {
            let result = outcome_of(sig);
            if result < bet.roll {
                let payout = payout_amount(bet.amount, bet.roll, pre.config.house_edge_bps);
                if payout > pre.vault {
                    (pre, Err(DiceError::VaultUnderfunded))
                } else {
                    (
                        GameView {
                            vault: (pre.vault - payout) as u64,
                            bets: remove_bet(pre.bets, player@, seed),
                            ..pre
                        },
                        Ok(
                            Settlement {
                                result: result as u8,
                                won: true,
                                payout: payout as u64,
                            },
                        ),
                    )
                }
            } else {
                (
                    GameView { bets: remove_bet(pre.bets, player@, seed), ..pre },
                    Ok((Settlement { result: result as u8, won: false, payout: 0u64 })),
                )
            }
        }
    }
}

/// What `refund_bet` does: finds the open bet and, once the refund timeout
/// has elapsed since creation, returns the escrowed wager from the vault
/// and closes the record. On any error nothing changes.
pub open spec fn refund_bet_spec(
    pre: GameView,
    player: [u8; 32],
    seed: u64,
    now: u64,
) -> (GameView, Result<u64, DiceError>) {
    if !has_bet(pre.bets, player@, seed) {
        (pre, Err(DiceError::BetNotFound))
    } else {
        let bet = bet_of(pre.bets, player@, seed);
        if now < bet.created_at + REFUND_TIMEOUT {
            (pre, Err(DiceError::RefundNotYetEligible))
        } else if bet.amount > pre.vault {
            (pre, Err(DiceError::VaultUnderfunded))
        } else {
            (
                GameView {
                    vault: (pre.vault - bet.amount) as u64,
                    bets: remove_bet(pre.bets, player@, seed),
                    ..pre
                },
                Ok(bet.amount),
            )
        }
    }
}

/// The escrow / settlement engine: configuration, vault balance, and the
/// open bet records.
pub struct DiceGame {
    pub config: Config,
    pub vault_balance: u64,
    pub bets: Vec<BetRecord>,
}

impl View for DiceGame {
    type V = GameView;

    open spec fn view(&self) -> GameView {
        GameView { config: self.config, vault: self.vault_balance, bets: self.bets@ }
    }
}

/// Computes the winning payout, or `None` when it does not fit in 64 bits.
pub fn compute_payout(amount: u64, roll: u8, house_edge_bps: u16) -> (r: Option<u64>)
    requires
        1 <= roll <= 99,
        house_edge_bps < 10000,
    ensures
        match r {
            Some(p) => p == payout_amount(amount, roll, house_edge_bps) && payout_amount(
                amount,
                roll,
                house_edge_bps,
            ) <= u64::MAX,
            None => payout_amount(amount, roll, house_edge_bps) > u64::MAX,
        },
{
    let scaled: u128 = (amount as u128) * 100;
    let edge_factor: u128 = (10000 - house_edge_bps) as u128;
    assert(scaled * edge_factor <= 0xffffffffffffffff * 100 * 10000) by (nonlinear_arith)
        requires
            scaled <= 0xffffffffffffffff * 100,
            edge_factor <= 10000,
    ;
    let numerator: u128 = scaled * edge_factor;
    let denominator: u128 = (roll as u128) * 10000;
    let q: u128 = numerator / denominator;
    if q > u64::MAX as u128 {
        None
    } else {
        Some(q as u64)
    }
}

impl DiceGame {
    /// Well-formedness of the engine state.
    pub open spec fn wf(&self) -> bool {
        self@.wf()
    }

    /// Finds the index of the open bet of `player` under `seed`.
    fn find_bet(&self, player: &[u8; 32], seed: u64) -> (r: Option<usize>)
        ensures
            match r {
                Some(i) => i < self.bets@.len() && i as int == find_bet_index(
                    self.bets@,
                    player@,
                    seed,
                ),
                None => !has_bet(self.bets@, player@, seed),
            },
    {
        let n = self.bets.len();
        let mut i: usize = 0;
        while i < n
            invariant
                i <= n,
                n == self.bets@.len(),
                forall|j: int| 0 <= j < i ==> !is_bet_key(#[trigger] self.bets@[j], player@, seed),
            decreases n - i,
        {
            let candidate = &self.bets[i];
            if bytes32_eq(&candidate.player, player) && candidate.seed == seed {
                proof {
                    lemma_find_bet_index_unique(self.bets@, player@, seed, i as int);
                }
                return Some(i);
            }
            i = i + 1;
        }
        proof {
            lemma_find_bet_index(self.bets@, player@, seed);
        }
        None
    }
}

/// Creates the configuration record and the vault, seeding the vault with
/// an initial reserve of `amount`. Fails if the engine already exists.
pub fn initialize(slot: &mut Option<DiceGame>, config: Config, amount: u64) -> (r: Result<
    (),
    DiceError,
>)
    requires
        config.wf(),
    ensures
        (*old(slot)) is Some ==> r == Err::<(), DiceError>(DiceError::AlreadyInitialized)
            && *final(slot) == *old(slot),
        (*old(slot)) is None ==> {
            &&& r == Ok::<(), DiceError>(())
            &&& (*final(slot)) is Some
            &&& (*final(slot)).unwrap()@ == (GameView {
                config,
                vault: amount,
                bets: Seq::<BetRecord>::empty(),
            })
            &&& (*final(slot)).unwrap().wf()
        },
{
    if slot.is_some() {
        return Err(DiceError::AlreadyInitialized);
    }
    let game = DiceGame { config, vault_balance: amount, bets: Vec::new() };
    proof {
        assert(game@ =~= (GameView { config, vault: amount, bets: Seq::<BetRecord>::empty() }));
    }
    *slot = Some(game);
    Ok(())
}

impl DiceGame {
    /// Creates a bet: escrows `amount` into the vault and records the
    /// wager, provided the inputs are valid, the seed is fresh for this
    /// player, and the vault can cover the bet's maximum payout.
    pub fn place_bet(
        &mut self,
        player: [u8; 32],
        seed: u64,
        roll: u8,
        amount: u64,
        now: u64,
    ) -> (r: Result<(), DiceError>)
        requires
            old(self).wf(),
        ensures
            final(self).wf(),
            final(self)@ == place_bet_spec(old(self)@, player, seed, roll, amount, now).0,
            r == place_bet_spec(old(self)@, player, seed, roll, amount, now).1,
    {
        if roll < 1 || roll > 99 {
            return Err(DiceError::InvalidRoll);
        }
        if amount < 1 || amount > self.config.max_bet {
            return Err(DiceError::InvalidAmount);
        }
        if self.find_bet(&player, seed).is_some() {
            return Err(DiceError::DuplicateOpenBet);
        }
        let new_vault = match self.vault_balance.checked_add(amount) {
            Some(v) => v,
            None => {
                return Err(DiceError::ArithmeticOverflow);
            },
        };
        let payout = match compute_payout(amount, roll, self.config.house_edge_bps) {
            Some(p) => p,
            None => {
                return Err(DiceError::ArithmeticOverflow);
            },
        };
        if payout > new_vault {
            return Err(DiceError::InsufficientVaultReserve);
        }
        let bet = BetRecord { player, seed, roll, amount, created_at: now };
        self.bets.push(bet);
        self.vault_balance = new_vault;
        proof {
            lemma_find_bet_index(old(self).bets@, player@, seed);
            assert(self@ =~= place_bet_spec(old(self)@, player, seed, roll, amount, now).0);
        }
        Ok(())
    }
}

/// Removing one record keeps a well-formed set of open bets well-formed.
proof fn lemma_wf_after_remove(pre: GameView, post: GameView, i: int)
    requires
        pre.wf(),
        0 <= i < pre.bets.len(),
        post.bets == pre.bets.remove(i),
        post.config == pre.config,
    ensures
        post.wf(),
{
    assert forall|k: int| 0 <= k < post.bets.len() implies (#[trigger] post.bets[k]).wf(
        post.config,
    ) by {
        if k < i {
            assert(post.bets[k] == pre.bets[k]);
        } else {
            assert(post.bets[k] == pre.bets[k + 1]);
        }
    }
    assert forall|k: int, l: int|
        #![trigger post.bets[k], post.bets[l]]
        0 <= k < l < post.bets.len() implies !is_bet_key(
        post.bets[l],
        post.bets[k].player@,
        post.bets[k].seed,
    ) by {
        let k0: int = if k < i { k } else { k + 1 };
        let l0: int = if l < i { l } else { l + 1 };
        assert(post.bets[k] == pre.bets[k0]);
        assert(post.bets[l] == pre.bets[l0]);
    }
}

impl DiceGame {
    /// Settles an open bet against an oracle signature: verifies the
    /// signature over the bet's canonical message, derives the outcome from
    /// the signature bytes, pays the payout from the vault on a win, and
    /// closes the record.
    pub fn resolve_bet(&mut self, player: [u8; 32], seed: u64, sig: &[u8]) -> (r: Result<
        Settlement,
        DiceError,
    >)
        requires
            old(self).wf(),
        ensures
            final(self).wf(),
            final(self)@ == resolve_bet_spec(old(self)@, player, seed, sig@).0,
            r == resolve_bet_spec(old(self)@, player, seed, sig@).1,
    {
        let idx = match self.find_bet(&player, seed) {
            Some(i) => i,
            None => {
                return Err(DiceError::BetNotFound);
            },
        };
        proof {
            lemma_find_bet_index(self.bets@, player@, seed);
        }
        let bet = self.bets[idx];
        let address = derive_bet_address(&bet.player, bet.seed);
        let message = encode_message(&bet.player, bet.seed, bet.roll, bet.amount, &address);
        let valid = ed25519_verify(&self.config.oracle_pubkey, message.as_slice(), sig);
        if !valid {
            return Err(DiceError::InvalidSignature);
        }
        let result = derive_outcome(sig);
        if result < bet.roll {
            let payout = match compute_payout(bet.amount, bet.roll, self.config.house_edge_bps) {
                Some(p) => p,
                None => {
                    // Unreachable: the creation-time check admits only bets
                    // whose winning payout fits in 64 bits.
                    proof {
                        assert(false);
                    }
                    return Err(DiceError::ArithmeticOverflow);
                },
            };
            if payout > self.vault_balance {
                return Err(DiceError::VaultUnderfunded);
            }
            self.bets.remove(idx);
            self.vault_balance = self.vault_balance - payout;
            proof {
                lemma_wf_after_remove(old(self)@, self@, idx as int);
                assert(self@ =~= resolve_bet_spec(old(self)@, player, seed, sig@).0);
            }
            Ok(Settlement { result, won: true, payout })
        } else {
            self.bets.remove(idx);
            proof {
                lemma_wf_after_remove(old(self)@, self@, idx as int);
                assert(self@ =~= resolve_bet_spec(old(self)@, player, seed, sig@).0);
            }
            Ok(Settlement { result, won: false, payout: 0 })
        }
    }

    /// Refunds an open bet whose refund timeout has elapsed: returns the
    /// escrowed wager from the vault and closes the record. Needs no
    /// signature, so an unresponsive oracle can never trap funds.
    pub fn refund_bet(&mut self, player: [u8; 32], seed: u64, now: u64) -> (r: Result<
        u64,
        DiceError,
    >)
        requires
            old(self).wf(),
        ensures
            final(self).wf(),
            final(self)@ == refund_bet_spec(old(self)@, player, seed, now).0,
            r == refund_bet_spec(old(self)@, player, seed, now).1,
    {
        let idx = match self.find_bet(&player, seed) {
            Some(i) => i,
            None => {
                return Err(DiceError::BetNotFound);
            },
        };
        proof {
            lemma_find_bet_index(self.bets@, player@, seed);
        }
        let bet = self.bets[idx];
        if now < bet.created_at || now - bet.created_at < REFUND_TIMEOUT {
            return Err(DiceError::RefundNotYetEligible);
        }
        if bet.amount > self.vault_balance {
            return Err(DiceError::VaultUnderfunded);
        }
        self.bets.remove(idx);
        self.vault_balance = self.vault_balance - bet.amount;
        proof {
            lemma_wf_after_remove(old(self)@, self@, idx as int);
            assert(self@ =~= refund_bet_spec(old(self)@, player, seed, now).0);
        }
        Ok(bet.amount)
    }
}

} // verus!
