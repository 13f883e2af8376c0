use twentyone::actions::{
    ForcedAction, force_player_action, player_action_double_down, player_action_hit, player_action_split,
    player_action_stand,
};
use twentyone::card::{Card, Rank, Suit};
use twentyone::errors::TwentyOneError;
use twentyone::hand::HandStatus;
use twentyone::oracle::{PriceAccount, oracle_program_id};
use twentyone::pubkey::{Pubkey, config_admin, usdc_mint};
use twentyone::round::{dealer_play_turn, deal_initial_cards, finalize_round};
use twentyone::session::{GameSession, GameState, TableAuthorityConfig};
use twentyone::settlement::{HandOutcome, PlayerHandResult};
use twentyone::shoe::generate_shuffle_seed_hash;
use twentyone::table::{initialize_authority_config, initialize_table, join_table, place_bet};

const T0: i64 = 1_700_000_000;

fn key(b: u8) -> Pubkey {
    Pubkey::new([b; 32])
}

fn backend() -> Pubkey {
    key(200)
}

fn dealer() -> Pubkey {
    key(201)
}

fn mint() -> Pubkey {
    key(50)
}

fn player(seat: u8) -> Pubkey {
    key(10 + seat)
}

fn feed(price: i64, expo: i32) -> PriceAccount {
    let mut data = vec![0u8; 32];
    data.extend_from_slice(&price.to_le_bytes());
    data.extend_from_slice(&0u64.to_le_bytes());
    data.extend_from_slice(&expo.to_le_bytes());
    data.extend_from_slice(&0i64.to_le_bytes());
    data.extend_from_slice(&[0u8; 28]);
    PriceAccount { owner: oracle_program_id(), data }
}

fn c(rank: Rank) -> Card {
    Card { suit: Suit::Clubs, rank }
}

/// A table with a bet of 100 (worth 100) on each listed seat and the shoe
/// starting with `top`.
fn setup(seats: &[u8], top: &[Card]) -> (GameSession, TableAuthorityConfig) {
    let mut t = initialize_table("round-test", dealer(), 1000, usdc_mint(), 1, T0, 3, 0).unwrap();
    let cfg = initialize_authority_config(config_admin(), backend(), 0).unwrap();
    for s in seats {
        join_table(&mut t, player(*s), *s).unwrap();
        place_bet(&mut t, player(*s), *s, mint(), 100, 100, &feed(100_000_000, -8)).unwrap();
    }
    for (i, card) in top.iter().enumerate() {
        t.deck[i] = *card;
    }
    t.current_deck_index = 0;
    (t, cfg)
}

fn claim(seat: u8, hand: u8, cards: Vec<Card>, score: u8, outcome: HandOutcome, payout: u64) -> PlayerHandResult {
    PlayerHandResult {
        player: player(seat),
        seat_index: seat,
        hand_index: hand,
        hand_cards: cards,
        hand_score: score,
        outcome,
        payout,
    }
}

#[test]
fn blackjack_and_dealer_twenty_one_scenario() {
    let top = [
        c(Rank::Ace), c(Rank::Nine), c(Rank::Six), c(Rank::King), c(Rank::Eight), c(Rank::Ten),
        c(Rank::Five),
    ];
    let (mut t, cfg) = setup(&[0, 1], &top);
    deal_initial_cards(&mut t, &cfg, backend(), 2, T0 + 1).unwrap();
    assert_eq!(t.player_seats[0].hands[0].cards, vec![c(Rank::Ace), c(Rank::King)]);
    assert_eq!(t.player_seats[0].hands[0].status, HandStatus::Blackjack);
    assert_eq!(t.player_seats[1].hands[0].cards, vec![c(Rank::Nine), c(Rank::Eight)]);
    assert_eq!(t.player_seats[1].hands[0].status, HandStatus::Playing);
    assert_eq!(t.dealer_hand.cards, vec![c(Rank::Six), c(Rank::Ten)]);
    assert_eq!(t.game_state, GameState::PlayerTurns);
    assert_eq!((t.current_turn_seat_index, t.current_turn_hand_index), (Some(1), Some(0)));
    assert_eq!(t.current_turn_start_timestamp, Some(T0 + 1));

    player_action_stand(&mut t, player(1), 1, 0, T0 + 2).unwrap();
    assert_eq!(t.game_state, GameState::DealerTurn);
    assert_eq!(t.current_turn_seat_index, None);

    dealer_play_turn(&mut t, &cfg, backend()).unwrap();
    assert_eq!(t.dealer_hand.cards, vec![c(Rank::Six), c(Rank::Ten), c(Rank::Five)]);
    assert_eq!(t.dealer_hand.status, HandStatus::Stood);
    assert_eq!(t.dealer_hand.calculate_score().0, 21);
    assert_eq!(t.game_state, GameState::RoundOver);

    let claims = vec![
        claim(0, 0, vec![c(Rank::Ace), c(Rank::King)], 21, HandOutcome::BlackjackWin, 230),
        claim(1, 0, vec![c(Rank::Nine), c(Rank::Eight)], 17, HandOutcome::Loss, 0),
    ];
    finalize_round(&mut t, &cfg, backend(), &claims).unwrap();
    assert_eq!(t.game_state, GameState::AcceptingBets);
    assert!(t.player_seats.iter().all(|s| !s.is_active_in_round && s.hands.is_empty()));
    assert_eq!(t.player_seats[0].player_pubkey, Some(player(0)));
    assert!(t.dealer_hand.cards.is_empty());
}

#[test]
fn failed_settlement_leaves_table_unchanged() {
    let top = [
        c(Rank::Ace), c(Rank::Nine), c(Rank::Six), c(Rank::King), c(Rank::Eight), c(Rank::Ten),
        c(Rank::Five),
    ];
    let (mut t, cfg) = setup(&[0, 1], &top);
    deal_initial_cards(&mut t, &cfg, backend(), 2, T0 + 1).unwrap();
    player_action_stand(&mut t, player(1), 1, 0, T0 + 2).unwrap();
    dealer_play_turn(&mut t, &cfg, backend()).unwrap();
    let before = format!("{:?}", t);
    let bad_outcome = vec![
        claim(0, 0, vec![c(Rank::Ace), c(Rank::King)], 21, HandOutcome::BlackjackWin, 230),
        claim(1, 0, vec![c(Rank::Nine), c(Rank::Eight)], 17, HandOutcome::Win, 200),
    ];
    assert_eq!(finalize_round(&mut t, &cfg, backend(), &bad_outcome), Err(TwentyOneError::OutcomeMismatch));
    assert_eq!(format!("{:?}", t), before);
    let bad_cards = vec![claim(1, 0, vec![c(Rank::Nine), c(Rank::Nine)], 18, HandOutcome::Loss, 0)];
    assert_eq!(finalize_round(&mut t, &cfg, backend(), &bad_cards), Err(TwentyOneError::HandCardsMismatch));
    let bad_score = vec![claim(1, 0, vec![c(Rank::Nine), c(Rank::Eight)], 18, HandOutcome::Loss, 0)];
    assert_eq!(finalize_round(&mut t, &cfg, backend(), &bad_score), Err(TwentyOneError::HandScoreMismatch));
    let bad_payout = vec![claim(0, 0, vec![c(Rank::Ace), c(Rank::King)], 21, HandOutcome::BlackjackWin, 300)];
    assert_eq!(finalize_round(&mut t, &cfg, backend(), &bad_payout), Err(TwentyOneError::PayoutCalculationMismatch));
    let wrong_player = vec![PlayerHandResult { player: key(99), ..claim(0, 0, vec![c(Rank::Ace), c(Rank::King)], 21, HandOutcome::BlackjackWin, 230) }];
    assert_eq!(finalize_round(&mut t, &cfg, backend(), &wrong_player), Err(TwentyOneError::PlayerMismatch));
    let no_seat = vec![claim(2, 0, vec![], 0, HandOutcome::Loss, 0)];
    assert_eq!(finalize_round(&mut t, &cfg, backend(), &no_seat), Err(TwentyOneError::SeatNotTaken));
    let no_hand = vec![claim(0, 1, vec![], 0, HandOutcome::Loss, 0)];
    assert_eq!(finalize_round(&mut t, &cfg, backend(), &no_hand), Err(TwentyOneError::InvalidHandIndex));
    let out_of_range = vec![claim(9, 0, vec![], 0, HandOutcome::Loss, 0)];
    assert_eq!(finalize_round(&mut t, &cfg, backend(), &out_of_range), Err(TwentyOneError::InvalidSeatIndex));
    assert_eq!(finalize_round(&mut t, &cfg, key(1), &vec![]), Err(TwentyOneError::BackendSignerMismatch));
    assert_eq!(format!("{:?}", t), before);
    // within the slippage tolerance (3% of 230 is 6)
    let near = vec![claim(0, 0, vec![c(Rank::Ace), c(Rank::King)], 21, HandOutcome::BlackjackWin, 236)];
    assert_eq!(finalize_round(&mut t, &cfg, backend(), &near), Ok(()));
}

#[test]
fn finalize_outside_round_over_is_refused() {
    let (mut t, cfg) = setup(&[0], &[]);
    assert_eq!(finalize_round(&mut t, &cfg, backend(), &vec![]), Err(TwentyOneError::NotRoundOverState));
}

#[test]
fn double_down_bust_loses_doubled_stake() {
    let top = [c(Rank::Ten), c(Rank::Seven), c(Rank::Six), c(Rank::Nine), c(Rank::King), c(Rank::Two)];
    let (mut t, cfg) = setup(&[0], &top);
    deal_initial_cards(&mut t, &cfg, backend(), 2, T0).unwrap();
    assert_eq!(player_action_double_down(&mut t, player(0), 0, 0, mint(), 100, T0 + 1), Ok(100));
    let h = &t.player_seats[0].hands[0];
    assert_eq!(h.status, HandStatus::Busted);
    assert_eq!(h.bet_multiplier_x100, 200);
    assert_eq!(h.cards.len(), 3);
    assert_eq!(t.game_state, GameState::DealerTurn);
    dealer_play_turn(&mut t, &cfg, backend()).unwrap();
    assert_eq!(t.dealer_hand.cards.len(), 3);
    let lost = vec![claim(0, 0, vec![c(Rank::Ten), c(Rank::Six), c(Rank::King)], 26, HandOutcome::Loss, 0)];
    let before = format!("{:?}", t);
    let claimed_win = vec![claim(0, 0, vec![c(Rank::Ten), c(Rank::Six), c(Rank::King)], 26, HandOutcome::Win, 400)];
    assert_eq!(finalize_round(&mut t, &cfg, backend(), &claimed_win), Err(TwentyOneError::OutcomeMismatch));
    assert_eq!(format!("{:?}", t), before);
    assert_eq!(finalize_round(&mut t, &cfg, backend(), &lost), Ok(()));
}

#[test]
fn double_down_on_eleven_stands_doubled() {
    let top = [c(Rank::Six), c(Rank::Seven), c(Rank::Five), c(Rank::Nine), c(Rank::King)];
    let (mut t, cfg) = setup(&[0], &top);
    deal_initial_cards(&mut t, &cfg, backend(), 2, T0).unwrap();
    player_action_double_down(&mut t, player(0), 0, 0, mint(), 100, T0 + 1).unwrap();
    let h = &t.player_seats[0].hands[0];
    assert_eq!(h.status, HandStatus::DoubledAndStood);
    assert_eq!(h.calculate_score().0, 21);
    assert_eq!(h.bet_multiplier_x100, 200);
}

#[test]
fn double_down_refusals() {
    let top = [c(Rank::Six), c(Rank::Seven), c(Rank::Five), c(Rank::Nine), c(Rank::Two), c(Rank::Two)];
    let (mut t, cfg) = setup(&[0], &top);
    deal_initial_cards(&mut t, &cfg, backend(), 2, T0).unwrap();
    assert_eq!(player_action_double_down(&mut t, player(0), 0, 0, key(77), 100, T0), Err(TwentyOneError::BetTokenMintMismatch));
    assert_eq!(player_action_double_down(&mut t, player(0), 0, 0, mint(), 99, T0), Err(TwentyOneError::InsufficientFundsForDoubleDown));
    player_action_hit(&mut t, player(0), 0, 0, T0).unwrap();
    assert_eq!(player_action_double_down(&mut t, player(0), 0, 0, mint(), 100, T0), Err(TwentyOneError::CannotDoubleNotTwoCards));
}

#[test]
fn split_aces_each_take_one_card_and_stand() {
    let top = [c(Rank::Ace), c(Rank::Seven), Card { suit: Suit::Hearts, rank: Rank::Ace }, c(Rank::Nine), c(Rank::Two), c(Rank::King)];
    let (mut t, cfg) = setup(&[0], &top);
    deal_initial_cards(&mut t, &cfg, backend(), 2, T0).unwrap();
    assert_eq!(player_action_split(&mut t, player(0), 0, 0, mint(), 100, T0 + 1), Ok(100));
    let hands = &t.player_seats[0].hands;
    assert_eq!(hands.len(), 2);
    assert_eq!(hands[0].cards, vec![c(Rank::Ace), c(Rank::Two)]);
    assert_eq!(hands[1].cards, vec![Card { suit: Suit::Hearts, rank: Rank::Ace }, c(Rank::King)]);
    assert_eq!(hands[0].status, HandStatus::Stood);
    assert_eq!(hands[1].status, HandStatus::Stood);
    assert_eq!(hands[1].original_bet_amount, 100);
    assert_eq!(hands[1].bet_multiplier_x100, 100);
    assert_eq!(t.game_state, GameState::DealerTurn);
}

#[test]
fn split_eights_plays_both_hands() {
    let top = [c(Rank::Eight), c(Rank::Seven), c(Rank::Eight), c(Rank::Nine), c(Rank::Three), c(Rank::Two), c(Rank::Ten)];
    let (mut t, cfg) = setup(&[0], &top);
    deal_initial_cards(&mut t, &cfg, backend(), 2, T0).unwrap();
    assert_eq!(player_action_split(&mut t, player(0), 0, 1, mint(), 100, T0), Err(TwentyOneError::CannotSplitAlreadySplit));
    player_action_split(&mut t, player(0), 0, 0, mint(), 100, T0 + 5).unwrap();
    assert_eq!(t.player_seats[0].hands[0].cards, vec![c(Rank::Eight), c(Rank::Three)]);
    assert_eq!(t.player_seats[0].hands[1].cards, vec![c(Rank::Eight), c(Rank::Two)]);
    assert_eq!((t.current_turn_seat_index, t.current_turn_hand_index), (Some(0), Some(0)));
    assert_eq!(t.current_turn_start_timestamp, Some(T0 + 5));
    assert_eq!(player_action_split(&mut t, player(0), 0, 0, mint(), 100, T0), Err(TwentyOneError::CannotSplitAlreadySplit));
    player_action_hit(&mut t, player(0), 0, 0, T0 + 6).unwrap();
    assert_eq!(t.player_seats[0].hands[0].status, HandStatus::Stood);
    assert_eq!((t.current_turn_seat_index, t.current_turn_hand_index), (Some(0), Some(1)));
    player_action_stand(&mut t, player(0), 0, 1, T0 + 7).unwrap();
    assert_eq!(t.game_state, GameState::DealerTurn);
}

#[test]
fn split_refusals() {
    let top = [c(Rank::Eight), c(Rank::Seven), c(Rank::Nine), c(Rank::Nine)];
    let (mut t, cfg) = setup(&[0], &top);
    deal_initial_cards(&mut t, &cfg, backend(), 2, T0).unwrap();
    assert_eq!(player_action_split(&mut t, player(0), 0, 0, mint(), 100, T0), Err(TwentyOneError::CannotSplitRanksMismatch));
    let top = [c(Rank::Ten), c(Rank::Seven), c(Rank::King), c(Rank::Nine)];
    let (mut t, cfg) = setup(&[0], &top);
    deal_initial_cards(&mut t, &cfg, backend(), 2, T0).unwrap();
    assert_eq!(player_action_split(&mut t, player(0), 0, 0, mint(), 100, T0), Err(TwentyOneError::CannotSplitRanksMismatch));
    let top = [c(Rank::King), c(Rank::Seven), Card { suit: Suit::Hearts, rank: Rank::King }, c(Rank::Nine)];
    let (mut t, cfg) = setup(&[0], &top);
    deal_initial_cards(&mut t, &cfg, backend(), 2, T0).unwrap();
    assert_eq!(player_action_split(&mut t, player(0), 0, 0, key(3), 100, T0), Err(TwentyOneError::BetTokenMintMismatch));
    assert_eq!(player_action_split(&mut t, player(0), 0, 0, mint(), 10, T0), Err(TwentyOneError::InsufficientFundsForSplit));
    t.current_deck_index = 207;
    assert_eq!(player_action_split(&mut t, player(0), 0, 0, mint(), 100, T0), Err(TwentyOneError::DeckEmpty));
}

#[test]
fn turn_passes_over_empty_seats_in_order() {
    let top = [
        c(Rank::Ten), c(Rank::Ten), c(Rank::Ten), c(Rank::Ten), c(Rank::Seven), c(Rank::Seven),
        c(Rank::Seven), c(Rank::Seven),
    ];
    let (mut t, cfg) = setup(&[0, 2, 4], &top);
    deal_initial_cards(&mut t, &cfg, backend(), 2, T0).unwrap();
    assert_eq!(t.current_turn_seat_index, Some(0));
    assert_eq!(player_action_stand(&mut t, player(2), 2, 0, T0), Err(TwentyOneError::WrongSeatForTurn));
    assert_eq!(player_action_stand(&mut t, player(0), 0, 1, T0), Err(TwentyOneError::WrongHandForTurn));
    assert_eq!(player_action_stand(&mut t, player(2), 0, 0, T0), Err(TwentyOneError::PlayerNotAtSeatIndex));
    player_action_stand(&mut t, player(0), 0, 0, T0 + 1).unwrap();
    assert_eq!(t.current_turn_seat_index, Some(2));
    player_action_stand(&mut t, player(2), 2, 0, T0 + 2).unwrap();
    assert_eq!(t.current_turn_seat_index, Some(4));
    assert_eq!(t.current_turn_start_timestamp, Some(T0 + 2));
    player_action_stand(&mut t, player(4), 4, 0, T0 + 3).unwrap();
    assert_eq!(t.game_state, GameState::DealerTurn);
    assert_eq!(player_action_stand(&mut t, player(4), 4, 0, T0), Err(TwentyOneError::NotPlayerTurnsState));
}

#[test]
fn hit_to_twenty_one_stands_and_passes_turn() {
    let top = [
        c(Rank::Five), c(Rank::Ten), c(Rank::Ten), c(Rank::Six), c(Rank::Six), c(Rank::King),
        c(Rank::King), c(Rank::Ten),
    ];
    let (mut t, cfg) = setup(&[0, 1], &top);
    deal_initial_cards(&mut t, &cfg, backend(), 2, T0).unwrap();
    assert_eq!(player_action_hit(&mut t, player(0), 0, 0, T0 + 1), Ok(c(Rank::King)));
    assert_eq!(t.player_seats[0].hands[0].status, HandStatus::Stood);
    assert_eq!(t.current_turn_seat_index, Some(1));
    assert_eq!(player_action_hit(&mut t, player(1), 1, 0, T0 + 2), Ok(c(Rank::Ten)));
    assert_eq!(t.player_seats[1].hands[0].status, HandStatus::Busted);
    assert_eq!(t.game_state, GameState::DealerTurn);
}

#[test]
fn hit_on_empty_shoe_changes_nothing() {
    let top = [c(Rank::Five), c(Rank::Two), c(Rank::Ten), c(Rank::Six)];
    let (mut t, cfg) = setup(&[0], &top);
    deal_initial_cards(&mut t, &cfg, backend(), 2, T0).unwrap();
    t.current_deck_index = 208;
    let before = format!("{:?}", t);
    assert_eq!(player_action_hit(&mut t, player(0), 0, 0, T0), Err(TwentyOneError::DeckEmpty));
    assert_eq!(format!("{:?}", t), before);
}

#[test]
fn all_blackjacks_end_round_at_once() {
    let top = [c(Rank::Ace), c(Rank::Two), c(Rank::Queen), c(Rank::Three)];
    let (mut t, cfg) = setup(&[3], &top);
    deal_initial_cards(&mut t, &cfg, backend(), 2, T0).unwrap();
    assert_eq!(t.player_seats[3].hands[0].status, HandStatus::Blackjack);
    assert_eq!(t.game_state, GameState::RoundOver);
    assert_eq!(t.current_turn_seat_index, None);
}

#[test]
fn deal_refusals() {
    let (mut t, cfg) = setup(&[], &[]);
    assert_eq!(deal_initial_cards(&mut t, &cfg, backend(), 2, T0), Err(TwentyOneError::NotEnoughPlayers));
    assert_eq!(deal_initial_cards(&mut t, &cfg, key(5), 2, T0), Err(TwentyOneError::BackendSignerMismatch));
    let (mut t, cfg) = setup(&[1], &[]);
    deal_initial_cards(&mut t, &cfg, backend(), 2, T0).unwrap();
    assert_eq!(deal_initial_cards(&mut t, &cfg, backend(), 2, T0), Err(TwentyOneError::InvalidGameStateForDeal));
}

#[test]
fn deal_reshuffles_past_threshold() {
    let (mut t, cfg) = setup(&[0, 1], &[]);
    t.current_deck_index = 160;
    deal_initial_cards(&mut t, &cfg, backend(), 77, T0 + 9).unwrap();
    assert_eq!(t.seed_elements_hash, generate_shuffle_seed_hash(77, T0 + 9, &backend(), 160));
    assert_eq!(t.current_deck_index, 6);
    assert_eq!(t.player_seats[0].hands[0].cards, vec![t.deck[0], t.deck[3]]);
    assert_eq!(t.player_seats[1].hands[0].cards, vec![t.deck[1], t.deck[4]]);
    assert_eq!(t.dealer_hand.cards, vec![t.deck[2], t.deck[5]]);
    let (mut u, cfg) = setup(&[0, 1], &[]);
    u.current_deck_index = 155;
    let deck = u.deck.clone();
    deal_initial_cards(&mut u, &cfg, backend(), 77, T0 + 9).unwrap();
    assert_eq!(u.deck, deck);
    assert_eq!(u.current_deck_index, 161);
}

#[test]
fn dealer_hits_soft_seventeen_and_stands_on_hard() {
    let top = [c(Rank::Ten), c(Rank::Ace), c(Rank::Nine), c(Rank::Six), c(Rank::Two)];
    let (mut t, cfg) = setup(&[0], &top);
    deal_initial_cards(&mut t, &cfg, backend(), 2, T0).unwrap();
    assert_eq!(dealer_play_turn(&mut t, &cfg, backend()), Err(TwentyOneError::NotDealerTurnState));
    player_action_stand(&mut t, player(0), 0, 0, T0).unwrap();
    assert_eq!(dealer_play_turn(&mut t, &cfg, key(4)), Err(TwentyOneError::BackendSignerMismatch));
    dealer_play_turn(&mut t, &cfg, backend()).unwrap();
    assert_eq!(t.dealer_hand.cards, vec![c(Rank::Ace), c(Rank::Six), c(Rank::Two)]);
    assert_eq!(t.dealer_hand.calculate_score(), (19, true));
    assert_eq!(t.dealer_hand.status, HandStatus::Stood);

    let top = [c(Rank::Ten), c(Rank::Ten), c(Rank::Nine), c(Rank::Seven), c(Rank::Two)];
    let (mut t, cfg) = setup(&[0], &top);
    deal_initial_cards(&mut t, &cfg, backend(), 2, T0).unwrap();
    player_action_stand(&mut t, player(0), 0, 0, T0).unwrap();
    dealer_play_turn(&mut t, &cfg, backend()).unwrap();
    assert_eq!(t.dealer_hand.cards.len(), 2);
    assert_eq!(t.current_deck_index, 4);
}

#[test]
fn dealer_busts() {
    let top = [c(Rank::Ten), c(Rank::Ten), c(Rank::Nine), c(Rank::Six), c(Rank::Queen)];
    let (mut t, cfg) = setup(&[0], &top);
    deal_initial_cards(&mut t, &cfg, backend(), 2, T0).unwrap();
    player_action_stand(&mut t, player(0), 0, 0, T0).unwrap();
    dealer_play_turn(&mut t, &cfg, backend()).unwrap();
    assert_eq!(t.dealer_hand.status, HandStatus::Busted);
    let win = vec![claim(0, 0, vec![c(Rank::Ten), c(Rank::Nine)], 19, HandOutcome::Win, 200)];
    assert_eq!(finalize_round(&mut t, &cfg, backend(), &win), Ok(()));
}

#[test]
fn dealer_out_of_cards_changes_nothing() {
    let top = [c(Rank::Ten), c(Rank::Two), c(Rank::Nine), c(Rank::Three)];
    let (mut t, cfg) = setup(&[0], &top);
    deal_initial_cards(&mut t, &cfg, backend(), 2, T0).unwrap();
    player_action_stand(&mut t, player(0), 0, 0, T0).unwrap();
    t.current_deck_index = 208;
    let before = format!("{:?}", t);
    assert_eq!(dealer_play_turn(&mut t, &cfg, backend()), Err(TwentyOneError::DeckEmpty));
    assert_eq!(format!("{:?}", t), before);
}

#[test]
fn force_action_after_timeout() {
    let top = [c(Rank::Ten), c(Rank::Ten), c(Rank::Five), c(Rank::Seven), c(Rank::Two), c(Rank::Nine)];
    let (mut t, cfg) = setup(&[0], &top);
    deal_initial_cards(&mut t, &cfg, backend(), 2, T0).unwrap();
    assert_eq!(force_player_action(&mut t, &cfg, key(66), 0, 0, ForcedAction::Stand, T0 + 100), Err(TwentyOneError::UnauthorizedForceAction));
    assert_eq!(force_player_action(&mut t, &cfg, dealer(), 0, 0, ForcedAction::Stand, T0 + 15), Err(TwentyOneError::TurnTimeNotExpired));
    assert_eq!(force_player_action(&mut t, &cfg, dealer(), 1, 0, ForcedAction::Stand, T0 + 100), Err(TwentyOneError::NotThisPlayerTurn));
    force_player_action(&mut t, &cfg, backend(), 0, 0, ForcedAction::Hit, T0 + 16).unwrap();
    assert_eq!(t.player_seats[0].hands[0].cards, vec![c(Rank::Ten), c(Rank::Five), c(Rank::Two)]);
    assert_eq!(t.game_state, GameState::PlayerTurns);
    assert_eq!(t.current_turn_start_timestamp, Some(T0));
    force_player_action(&mut t, &cfg, dealer(), 0, 0, ForcedAction::Split, T0 + 16).unwrap();
    assert_eq!(t.player_seats[0].hands[0].status, HandStatus::Stood);
    assert_eq!(t.game_state, GameState::DealerTurn);
    assert_eq!(force_player_action(&mut t, &cfg, dealer(), 0, 0, ForcedAction::Stand, T0 + 100), Err(TwentyOneError::NotPlayerTurnsState));
}

#[test]
fn force_action_without_timer() {
    let top = [c(Rank::Ten), c(Rank::Ten), c(Rank::Five), c(Rank::Seven)];
    let (mut t, cfg) = setup(&[0], &top);
    deal_initial_cards(&mut t, &cfg, backend(), 2, T0).unwrap();
    t.current_turn_start_timestamp = None;
    assert_eq!(force_player_action(&mut t, &cfg, dealer(), 0, 0, ForcedAction::Stand, T0 + 100), Err(TwentyOneError::TurnTimerNotSet));
    t.current_turn_start_timestamp = Some(i64::MAX - 3);
    assert_eq!(force_player_action(&mut t, &cfg, dealer(), 0, 0, ForcedAction::Stand, T0 + 100), Err(TwentyOneError::ArithmeticOverflow));
}
