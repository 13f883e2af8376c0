use sha2::Digest;
use twentyone::card::{Card, Rank, Suit};
use twentyone::errors::TwentyOneError;
use twentyone::pubkey::{Pubkey, usdc_mint};
use twentyone::session::GameSession;
use twentyone::shoe::{create_standard_shoe, fisher_yates_shuffle, generate_shuffle_seed_hash, shuffled_indices};
use twentyone::table::initialize_table;

fn key(b: u8) -> Pubkey {
    Pubkey::new([b; 32])
}

fn table() -> GameSession {
    initialize_table("shoe-test", key(9), 1000, usdc_mint(), 5, 1_700_000_000, 7, 1).unwrap()
}

fn code(c: &Card) -> u32 {
    let s = match c.suit {
        Suit::Hearts => 0,
        Suit::Diamonds => 1,
        Suit::Clubs => 2,
        Suit::Spades => 3,
    };
    s * 100 + c.default_value() as u32 * 2 + if c.rank == Rank::King || c.rank == Rank::Queen { 1 } else { 0 }
        + if c.rank == Rank::Jack { 500 } else { 0 }
}

#[test]
fn standard_shoe_has_each_card_once_per_deck() {
    let shoe = create_standard_shoe(4);
    assert_eq!(shoe.len(), 208);
    assert_eq!(shoe[0], Card { suit: Suit::Hearts, rank: Rank::Two });
    assert_eq!(shoe[12], Card { suit: Suit::Hearts, rank: Rank::Ace });
    assert_eq!(shoe[13], Card { suit: Suit::Diamonds, rank: Rank::Two });
    assert_eq!(shoe[51], Card { suit: Suit::Spades, rank: Rank::Ace });
    assert_eq!(shoe[52], Card { suit: Suit::Hearts, rank: Rank::Two });
    for c in shoe.iter() {
        assert_eq!(shoe.iter().filter(|d| *d == c).count(), 4);
    }
    assert_eq!(create_standard_shoe(0).len(), 0);
    assert_eq!(create_standard_shoe(1).len(), 52);
}

#[test]
fn shuffle_same_seed_same_order() {
    let mut a = create_standard_shoe(4);
    let mut b = create_standard_shoe(4);
    fisher_yates_shuffle(&mut a, [3u8; 32]);
    fisher_yates_shuffle(&mut b, [3u8; 32]);
    assert_eq!(a, b);
    assert_ne!(a, create_standard_shoe(4));
}

#[test]
fn shuffle_different_seed_different_order() {
    let mut a = create_standard_shoe(4);
    let mut b = create_standard_shoe(4);
    fisher_yates_shuffle(&mut a, [3u8; 32]);
    fisher_yates_shuffle(&mut b, [4u8; 32]);
    assert_ne!(a, b);
}

#[test]
fn shuffle_is_a_permutation() {
    let mut a = create_standard_shoe(4);
    fisher_yates_shuffle(&mut a, [11u8; 32]);
    let mut got: Vec<u32> = a.iter().map(code).collect();
    let mut want: Vec<u32> = create_standard_shoe(4).iter().map(code).collect();
    got.sort();
    want.sort();
    assert_eq!(got, want);
    let order = shuffled_indices(10, [11u8; 32]);
    let mut sorted = order.clone();
    sorted.sort();
    assert_eq!(sorted, (0..10).collect::<Vec<usize>>());
}

#[test]
fn shuffle_of_empty_deck_is_empty() {
    let mut a: Vec<Card> = Vec::new();
    fisher_yates_shuffle(&mut a, [1u8; 32]);
    assert!(a.is_empty());
}

#[test]
fn seed_hash_digests_the_inputs() {
    let dealer = key(2);
    let got = generate_shuffle_seed_hash(10, -5, &dealer, 99);
    let mut bytes: Vec<u8> = Vec::new();
    bytes.extend_from_slice(&10u64.to_le_bytes());
    bytes.extend_from_slice(&(-5i64).to_le_bytes());
    bytes.extend_from_slice(&[2u8; 32]);
    bytes.extend_from_slice(&99u64.to_le_bytes());
    let want: [u8; 32] = sha2::Sha256::digest(&bytes).into();
    assert_eq!(got, want);
    assert_ne!(got, generate_shuffle_seed_hash(10, -5, &dealer, 100));
}

#[test]
fn shuffle_deck_reproducible_from_seed() {
    let mut a = table();
    let mut b = table();
    a.current_deck_index = 40;
    a.shuffle_deck([5u8; 32]);
    b.shuffle_deck([5u8; 32]);
    assert_eq!(a.deck, b.deck);
    assert_eq!(a.current_deck_index, 0);
    assert_eq!(a.seed_elements_hash, [5u8; 32]);
}

#[test]
fn draw_exhaustion() {
    let mut t = table();
    t.current_deck_index = 200;
    let remaining = t.deck.len() - t.current_deck_index as usize;
    for k in 0..remaining {
        let expected = t.deck[200 + k];
        assert_eq!(t.draw_card(), Ok(expected));
    }
    assert_eq!(t.current_deck_index, 208);
    assert_eq!(t.draw_card(), Err(TwentyOneError::DeckEmpty));
    assert_eq!(t.current_deck_index, 208);
}

#[test]
fn table_starts_with_seeded_shoe() {
    let t = table();
    let seed = generate_shuffle_seed_hash(5, 1_700_000_000, &key(9), 7);
    assert_eq!(t.seed_elements_hash, seed);
    let mut deck = create_standard_shoe(4);
    fisher_yates_shuffle(&mut deck, seed);
    assert_eq!(t.deck, deck);
    assert_eq!(t.current_deck_index, 0);
    assert_eq!(t.player_seats.len(), 6);
}
