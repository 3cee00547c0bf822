//! Validation, error-path and signature-binding tests.

use dice_game::codec::{bytes32_eq, derive_outcome, encode_message};
use dice_game::crypto::derive_bet_address;
use dice_game::engine::{initialize, Config, DiceError, DiceGame};
use ed25519_dalek::{Signer, SigningKey};
use sha2::Digest;

fn oracle_key() -> SigningKey {
    SigningKey::from_bytes(&[7u8; 32])
}

fn test_config(house_edge_bps: u16, max_bet: u64) -> Config {
    Config {
        oracle_pubkey: oracle_key().verifying_key().to_bytes(),
        house_edge_bps,
        max_bet,
        authority: [9u8; 32],
        vault_bump: 254,
    }
}

fn new_game(vault: u64, house_edge_bps: u16, max_bet: u64) -> DiceGame {
    let mut slot: Option<DiceGame> = None;
    let r = initialize(&mut slot, test_config(house_edge_bps, max_bet), vault);
    assert_eq!(r, Ok(()));
    slot.unwrap()
}

fn sign_bet(player: &[u8; 32], seed: u64, roll: u8, amount: u64) -> Vec<u8> {
    let address = derive_bet_address(player, seed);
    let message = encode_message(player, seed, roll, amount, &address);
    oracle_key().sign(&message).to_bytes().to_vec()
}

#[test]
fn initialize_only_once() {
    let mut slot: Option<DiceGame> = None;
    assert_eq!(initialize(&mut slot, test_config(0, 1000), 500), Ok(()));
    assert_eq!(
        initialize(&mut slot, test_config(0, 1000), 500),
        Err(DiceError::AlreadyInitialized)
    );
    assert_eq!(slot.unwrap().vault_balance, 500);
}

#[test]
fn invalid_rolls_rejected_before_any_transfer() {
    let mut game = new_game(1_000_000, 0, 1_000_000);
    assert_eq!(
        game.place_bet([1u8; 32], 2, 0, 1000, 0),
        Err(DiceError::InvalidRoll)
    );
    assert_eq!(
        game.place_bet([1u8; 32], 3, 100, 1000, 0),
        Err(DiceError::InvalidRoll)
    );
    assert_eq!(game.vault_balance, 1_000_000);
    assert_eq!(game.bets.len(), 0);
}

#[test]
fn invalid_amounts_rejected() {
    let mut game = new_game(1_000_000, 0, 5_000);
    assert_eq!(
        game.place_bet([1u8; 32], 1, 50, 0, 0),
        Err(DiceError::InvalidAmount)
    );
    assert_eq!(
        game.place_bet([1u8; 32], 1, 50, 5_001, 0),
        Err(DiceError::InvalidAmount)
    );
    assert_eq!(game.vault_balance, 1_000_000);
}

#[test]
fn duplicate_open_bet_rejected() {
    let mut game = new_game(1_000_000, 0, 1_000_000);
    assert_eq!(game.place_bet([1u8; 32], 1, 50, 1000, 0), Ok(()));
    assert_eq!(
        game.place_bet([1u8; 32], 1, 60, 2000, 0),
        Err(DiceError::DuplicateOpenBet)
    );
    // Another player, or another seed, is fine.
    assert_eq!(game.place_bet([1u8; 32], 2, 50, 1000, 0), Ok(()));
    assert_eq!(game.place_bet([2u8; 32], 1, 50, 1000, 0), Ok(()));
}

#[test]
fn creation_solvency_check_rejects_uncoverable_bets() {
    // After the deposit the vault holds 1000 + 500, but a win at roll 10
    // would owe 500 * 100 * 10000 / (10 * 10000) = 5000.
    let mut game = new_game(1000, 0, 1_000_000);
    assert_eq!(
        game.place_bet([1u8; 32], 1, 10, 500, 0),
        Err(DiceError::InsufficientVaultReserve)
    );
    assert_eq!(game.vault_balance, 1000);
}

#[test]
fn arithmetic_overflow_rejected_at_creation() {
    // Vault balance would exceed 64 bits.
    let mut game = new_game(u64::MAX, 0, u64::MAX);
    assert_eq!(
        game.place_bet([1u8; 32], 1, 99, 1000, 0),
        Err(DiceError::ArithmeticOverflow)
    );
    // Payout would exceed 64 bits: amount * 100 at roll 1.
    let mut game2 = new_game(0, 0, u64::MAX);
    assert_eq!(
        game2.place_bet([1u8; 32], 1, 1, u64::MAX / 2, 0),
        Err(DiceError::ArithmeticOverflow)
    );
}

#[test]
fn resolve_requires_an_open_bet() {
    let mut game = new_game(1000, 0, 1_000_000);
    let sig = sign_bet(&[1u8; 32], 1, 50, 100);
    assert_eq!(
        game.resolve_bet([1u8; 32], 1, &sig),
        Err(DiceError::BetNotFound)
    );
    assert_eq!(
        game.refund_bet([1u8; 32], 1, u64::MAX),
        Err(DiceError::BetNotFound)
    );
}

#[test]
fn signature_must_come_from_the_oracle() {
    let player = [1u8; 32];
    let mut game = new_game(100_000, 0, 1_000_000);
    assert_eq!(game.place_bet(player, 1, 50, 1000, 0), Ok(()));
    // Same message, wrong key.
    let address = derive_bet_address(&player, 1);
    let message = encode_message(&player, 1, 50, 1000, &address);
    let rogue = SigningKey::from_bytes(&[8u8; 32]);
    let rogue_sig = rogue.sign(&message).to_bytes().to_vec();
    assert_eq!(
        game.resolve_bet(player, 1, &rogue_sig),
        Err(DiceError::InvalidSignature)
    );
    // Tampered signature bytes.
    let mut sig = sign_bet(&player, 1, 50, 1000);
    sig[0] ^= 1;
    assert_eq!(
        game.resolve_bet(player, 1, &sig),
        Err(DiceError::InvalidSignature)
    );
    // Malformed length.
    assert_eq!(
        game.resolve_bet(player, 1, &sig[..63]),
        Err(DiceError::InvalidSignature)
    );
    // The failed attempts left the bet open: the genuine signature settles.
    let good = sign_bet(&player, 1, 50, 1000);
    assert!(game.resolve_bet(player, 1, &good).is_ok());
}

#[test]
fn signature_for_one_bet_is_rejected_for_another() {
    let player = [1u8; 32];
    let mut game = new_game(100_000, 0, 1_000_000);
    // Two bets differing in seed (and one more in amount).
    assert_eq!(game.place_bet(player, 1, 50, 1000, 0), Ok(()));
    assert_eq!(game.place_bet(player, 2, 50, 1000, 0), Ok(()));
    assert_eq!(game.place_bet(player, 3, 50, 2000, 0), Ok(()));
    let sig_for_bet_1 = sign_bet(&player, 1, 50, 1000);
    assert_eq!(
        game.resolve_bet(player, 2, &sig_for_bet_1),
        Err(DiceError::InvalidSignature)
    );
    assert_eq!(
        game.resolve_bet(player, 3, &sig_for_bet_1),
        Err(DiceError::InvalidSignature)
    );
    assert!(game.resolve_bet(player, 1, &sig_for_bet_1).is_ok());
}

#[test]
fn vault_underfunded_resolution_aborts_with_funds_untouched() {
    // Three bets at roll 50 each owe double on a win; two wins drain the
    // vault to zero, so the third settlement cannot be honoured.
    let player = [1u8; 32];
    let mut game = new_game(1000, 0, 1_000_000);
    let mut sigs: Vec<(u64, Vec<u8>)> = Vec::new();
    let mut seed = 0u64;
    while sigs.len() < 3 {
        let sig = sign_bet(&player, seed, 50, 1000);
        if derive_outcome(&sig) < 50 {
            sigs.push((seed, sig));
        }
        seed += 1;
    }
    for (s, _) in &sigs {
        assert_eq!(game.place_bet(player, *s, 50, 1000, 0), Ok(()));
    }
    assert_eq!(game.vault_balance, 4000);
    assert_eq!(game.resolve_bet(player, sigs[0].0, &sigs[0].1).unwrap().payout, 2000);
    assert_eq!(game.resolve_bet(player, sigs[1].0, &sigs[1].1).unwrap().payout, 2000);
    assert_eq!(game.vault_balance, 0);
    assert_eq!(
        game.resolve_bet(player, sigs[2].0, &sigs[2].1),
        Err(DiceError::VaultUnderfunded)
    );
    // The bet stays open, and even a refund cannot draw on an empty vault.
    assert_eq!(
        game.refund_bet(player, sigs[2].0, u64::MAX),
        Err(DiceError::VaultUnderfunded)
    );
    assert_eq!(game.bets.len(), 1);
}

#[test]
fn outcome_is_the_first_sixteen_bytes_little_endian_mod_100() {
    let mut sig = vec![0u8; 64];
    sig[0] = 1;
    assert_eq!(derive_outcome(&sig), 1);
    sig[0] = 250;
    assert_eq!(derive_outcome(&sig), 50);
    sig[0] = 0;
    sig[1] = 1; // 256 % 100 == 56
    assert_eq!(derive_outcome(&sig), 56);
    sig[16] = 77; // bytes beyond the first sixteen do not matter
    assert_eq!(derive_outcome(&sig), 56);
}

#[test]
fn message_layout_is_fixed_width() {
    let player = [0xabu8; 32];
    let address = [0xcdu8; 32];
    let message = encode_message(&player, 0x0102030405060708, 42, 0x1122334455667788, &address);
    let mut expected: Vec<u8> = Vec::new();
    expected.extend_from_slice(&player);
    expected.extend_from_slice(&0x0102030405060708u64.to_le_bytes());
    expected.push(42);
    expected.extend_from_slice(&0x1122334455667788u64.to_le_bytes());
    expected.extend_from_slice(&address);
    assert_eq!(message, expected);
}

#[test]
fn bet_address_is_the_sha256_of_player_and_seed() {
    let player = [5u8; 32];
    let seed = 123456789u64;
    let derived = derive_bet_address(&player, seed);
    let mut preimage: Vec<u8> = Vec::new();
    preimage.extend_from_slice(&player);
    preimage.extend_from_slice(&seed.to_le_bytes());
    let expected: [u8; 32] = sha2::Sha256::digest(&preimage).into();
    assert!(bytes32_eq(&derived, &expected));
    // Distinct seeds derive distinct addresses.
    let other = derive_bet_address(&player, seed + 1);
    assert!(!bytes32_eq(&derived, &other));
}
