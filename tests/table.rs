use twentyone::card::{Card, Rank, Suit};
use twentyone::errors::TwentyOneError;
use twentyone::hand::{Hand, HandStatus};
use twentyone::name::normalize_and_validate_table_name;
use twentyone::oracle::{PriceAccount, check_slippage, oracle_program_id, read_oracle_price, value_usd};
use twentyone::pubkey::{Pubkey, config_admin, usdc_mint};
use twentyone::session::{GameSession, GameState, TokenBalance};
use twentyone::settlement::{
    HandOutcome, PayoutInstruction, PriceValidation, calculate_expected_usd_return, check_price_tolerance,
    execute_payouts,
};
use twentyone::table::{
    dealer_close_table, dealer_withdraw_profit, fee_split, initialize_authority_config, initialize_table,
    join_table, leave_table, place_bet, update_authority_config,
};
use twentyone::round::dealer_prepare_to_close;

fn key(b: u8) -> Pubkey {
    Pubkey::new([b; 32])
}

fn feed(price: i64, expo: i32) -> PriceAccount {
    let mut data = vec![0u8; 32];
    data.extend_from_slice(&price.to_le_bytes());
    data.extend_from_slice(&0u64.to_le_bytes());
    data.extend_from_slice(&expo.to_le_bytes());
    data.extend_from_slice(&0i64.to_le_bytes());
    data.extend_from_slice(&[0u8; 28]);
    PriceAccount { owner: oracle_program_id(), data }
}

fn table() -> GameSession {
    initialize_table("Main-Table", key(1), 5000, usdc_mint(), 1, 100, 2, 0).unwrap()
}

#[test]
fn table_name_is_normalized() {
    assert_eq!(normalize_and_validate_table_name("  My-Table1 "), Ok("my-table1".to_string()));
    assert_eq!(normalize_and_validate_table_name("abc"), Ok("abc".to_string()));
    assert_eq!(normalize_and_validate_table_name("\u{3000}\tAbc\u{a0}\n"), Ok("abc".to_string()));
    assert_eq!(normalize_and_validate_table_name("ABCDEFGHIJKLMNOP"), Ok("abcdefghijklmnop".to_string()));
}

#[test]
fn table_name_refusals() {
    assert_eq!(normalize_and_validate_table_name(" ab "), Err(TwentyOneError::TableNameLengthInvalid));
    assert_eq!(normalize_and_validate_table_name("abcdefghijklmnopq"), Err(TwentyOneError::TableNameLengthInvalid));
    assert_eq!(normalize_and_validate_table_name("ab_c"), Err(TwentyOneError::TableNameInvalidChars));
    assert_eq!(normalize_and_validate_table_name("ab c"), Err(TwentyOneError::TableNameInvalidChars));
    assert_eq!(normalize_and_validate_table_name("-abc"), Err(TwentyOneError::TableNameInvalidHyphenPlacement));
    assert_eq!(normalize_and_validate_table_name("abc-"), Err(TwentyOneError::TableNameInvalidHyphenPlacement));
    assert_eq!(normalize_and_validate_table_name("a--b"), Err(TwentyOneError::TableNameConsecutiveHyphens));
}

#[test]
fn initialize_table_refusals() {
    assert_eq!(initialize_table("x", key(1), 5, usdc_mint(), 1, 1, 1, 0).err(), Some(TwentyOneError::TableNameLengthInvalid));
    assert_eq!(initialize_table("good", key(1), 0, usdc_mint(), 1, 1, 1, 0).err(), Some(TwentyOneError::MinBetIsZero));
    assert_eq!(initialize_table("good", key(1), 5, key(3), 1, 1, 1, 0).err(), Some(TwentyOneError::UsdcMintMismatch));
    let t = table();
    assert_eq!(t.table_name, "main-table");
    assert!(t.dealer_hand.cards.is_empty());
    assert_eq!(t.dealer_hand.status, HandStatus::Playing);
    assert_eq!(t.dealer_hand.bet_multiplier_x100, 0);
    assert_eq!(t.dealer_hand.original_bet_amount, 0);
    assert_eq!(t.dealer_hand.token_mint_for_bet, key(0));
    assert_eq!(t.game_state, GameState::AcceptingBets);
    assert_eq!(t.dealer_locked_usdc_amount, 5000);
    assert!(!t.closing_down);
}

#[test]
fn authority_config_is_admin_only() {
    assert_eq!(initialize_authority_config(key(3), key(4), 0).err(), Some(TwentyOneError::NotConfigAdmin));
    let mut cfg = initialize_authority_config(config_admin(), key(4), 7).unwrap();
    assert_eq!(cfg.backend_authority, key(4));
    assert_eq!(update_authority_config(&mut cfg, key(3), key(5)), Err(TwentyOneError::NotConfigAdmin));
    assert_eq!(cfg.backend_authority, key(4));
    assert_eq!(update_authority_config(&mut cfg, config_admin(), key(5)), Ok(()));
    assert_eq!(cfg.backend_authority, key(5));
}

#[test]
fn join_and_leave() {
    let mut t = table();
    assert_eq!(join_table(&mut t, key(10), 6), Err(TwentyOneError::InvalidSeatIndex));
    join_table(&mut t, key(10), 2).unwrap();
    assert_eq!(join_table(&mut t, key(11), 2), Err(TwentyOneError::SeatTaken));
    assert_eq!(leave_table(&mut t, key(11), 2), Err(TwentyOneError::PlayerNotAtSeatIndex));
    assert_eq!(leave_table(&mut t, key(10), 9), Err(TwentyOneError::InvalidSeatIndex));
    place_bet(&mut t, key(10), 2, key(50), 10, 10, &feed(1, 0)).unwrap();
    assert_eq!(leave_table(&mut t, key(10), 2), Err(TwentyOneError::PlayerHasActiveBet));
    t.player_seats[2].reset_for_new_round();
    leave_table(&mut t, key(10), 2).unwrap();
    assert_eq!(t.player_seats[2].player_pubkey, None);
}

#[test]
fn place_bet_checks() {
    let mut t = table();
    join_table(&mut t, key(10), 0).unwrap();
    assert_eq!(place_bet(&mut t, key(10), 0, key(50), 0, 0, &feed(1, 0)), Err(TwentyOneError::MinBetIsZero));
    assert_eq!(place_bet(&mut t, key(11), 0, key(50), 10, 10, &feed(1, 0)), Err(TwentyOneError::PlayerNotAtSeatIndex));
    let mut foreign = feed(1, 0);
    foreign.owner = key(8);
    assert_eq!(place_bet(&mut t, key(10), 0, key(50), 10, 10, &foreign), Err(TwentyOneError::InvalidPriceFeedOwner));
    let mut short = feed(1, 0);
    short.data.pop();
    assert_eq!(place_bet(&mut t, key(10), 0, key(50), 10, 10, &short), Err(TwentyOneError::PriceFeedStale));
    // 2000 units at 1.50 are worth 3000, within 3% of the claimed 3090
    assert_eq!(place_bet(&mut t, key(10), 0, key(50), 2000, 3090, &feed(150, -2)), Ok(()));
    assert_eq!(place_bet(&mut t, key(10), 0, key(50), 2000, 3000, &feed(150, -2)), Err(TwentyOneError::PlayerHasActiveBet));
    let seat = &t.player_seats[0];
    assert!(seat.is_active_in_round);
    assert_eq!(seat.current_bet_usd_value, 3090);
    assert_eq!(seat.hands.len(), 1);
    assert_eq!(seat.hands[0].original_bet_amount, 2000);
    assert_eq!(seat.hands[0].token_mint_for_bet, key(50));
    join_table(&mut t, key(12), 1).unwrap();
    assert_eq!(place_bet(&mut t, key(12), 1, key(50), 2000, 3200, &feed(150, -2)), Err(TwentyOneError::PayoutCalculationMismatch));
    t.game_state = GameState::RoundOver;
    assert_eq!(place_bet(&mut t, key(12), 1, key(50), 2000, 3000, &feed(150, -2)), Err(TwentyOneError::NotAcceptingBets));
}

#[test]
fn oracle_values() {
    assert_eq!(read_oracle_price(&feed(-7, 3)), Ok((-7, 3)));
    assert_eq!(value_usd(2000, 150, -2), Ok(3000));
    assert_eq!(value_usd(3, 700, 2), Ok(21));
    assert_eq!(value_usd(3, 7, 2), Ok(0));
    assert_eq!(value_usd(5, 333, -2), Ok(16));
    assert_eq!(value_usd(1, 1, 38), Ok(0));
    assert_eq!(value_usd(u64::MAX, i64::MAX, 38), Ok((u64::MAX as u128 * i64::MAX as u128) / 10u128.pow(38)));
    assert_eq!(value_usd(1, 1, 39), Err(TwentyOneError::ArithmeticOverflow));
    assert_eq!(value_usd(1, 1, i32::MIN), Err(TwentyOneError::ArithmeticOverflow));
    assert_eq!(value_usd(2, -1, 0), Err(TwentyOneError::ArithmeticOverflow));
    assert_eq!(value_usd(1, -1, 0), Ok(u128::MAX));
    assert!(check_slippage(1000, 970));
    assert!(check_slippage(1000, 1030));
    assert!(!check_slippage(1000, 969));
    assert!(!check_slippage(1000, 1031));
    assert!(check_slippage(0, 0));
}

#[test]
fn expected_return_per_outcome() {
    let mut h = Hand::new(key(50), 100);
    h.add_card(Card { suit: Suit::Hearts, rank: Rank::Ten });
    h.add_card(Card { suit: Suit::Hearts, rank: Rank::Nine });
    h.status = HandStatus::Stood;
    assert_eq!(calculate_expected_usd_return(&h, 100, 18, false, false), Ok((200, HandOutcome::Win)));
    assert_eq!(calculate_expected_usd_return(&h, 100, 25, true, false), Ok((200, HandOutcome::Win)));
    assert_eq!(calculate_expected_usd_return(&h, 100, 19, false, false), Ok((100, HandOutcome::Push)));
    assert_eq!(calculate_expected_usd_return(&h, 100, 20, false, false), Ok((0, HandOutcome::Loss)));
    h.status = HandStatus::Blackjack;
    assert_eq!(calculate_expected_usd_return(&h, 100, 20, false, false), Ok((230, HandOutcome::BlackjackWin)));
    assert_eq!(calculate_expected_usd_return(&h, 15, 20, false, false), Ok((34, HandOutcome::BlackjackWin)));
    assert_eq!(calculate_expected_usd_return(&h, 100, 21, false, true), Ok((100, HandOutcome::BlackjackPush)));
    h.status = HandStatus::Busted;
    assert_eq!(calculate_expected_usd_return(&h, 100, 25, true, false), Ok((0, HandOutcome::Loss)));
    h.status = HandStatus::Playing;
    assert_eq!(calculate_expected_usd_return(&h, 100, 18, false, false), Err(TwentyOneError::HandActionOnFinalizedHand));
    h.status = HandStatus::DoubledAndStood;
    assert_eq!(calculate_expected_usd_return(&h, u128::MAX, 18, false, false), Err(TwentyOneError::ArithmeticOverflow));
}

#[test]
fn withdrawal_fee_split() {
    assert_eq!(fee_split(1000), Ok((220, 780)));
    assert_eq!(fee_split(9), Ok((1, 8)));
    assert_eq!(fee_split(4), Ok((0, 4)));
    assert_eq!(fee_split(u64::MAX), Err(TwentyOneError::ArithmeticOverflow));
}

#[test]
fn withdraw_profit_checks_bank_value() {
    let t = table();
    let feeds = vec![feed(2, 0), feed(1, 0)];
    let enough = vec![
        TokenBalance { mint: key(50), amount: 2000, value_usd: 4000, pyth_feed_index: 0 },
        TokenBalance { mint: key(51), amount: 1000, value_usd: 1000, pyth_feed_index: 1 },
    ];
    assert_eq!(dealer_withdraw_profit(&t, key(1), 1000, &enough, &feeds), Ok((220, 780)));
    assert_eq!(dealer_withdraw_profit(&t, key(2), 1000, &enough, &feeds), Err(TwentyOneError::DealerNotSigner));
    let short = vec![TokenBalance { mint: key(50), amount: 2000, value_usd: 4000, pyth_feed_index: 0 }];
    assert_eq!(dealer_withdraw_profit(&t, key(1), 1000, &short, &feeds), Err(TwentyOneError::InsufficientBankValue));
    let mispriced = vec![TokenBalance { mint: key(50), amount: 2000, value_usd: 5000, pyth_feed_index: 0 }];
    assert_eq!(dealer_withdraw_profit(&t, key(1), 1000, &mispriced, &feeds), Err(TwentyOneError::PayoutCalculationMismatch));
}

#[test]
fn close_table_checks() {
    let mut t = table();
    assert_eq!(dealer_close_table(&t, key(2), &vec![]), Err(TwentyOneError::DealerNotSigner));
    assert_eq!(dealer_close_table(&t, key(1), &vec![0, 0]), Ok(()));
    assert_eq!(dealer_close_table(&t, key(1), &vec![0, 5]), Err(TwentyOneError::TableHasActiveEscrow));
    join_table(&mut t, key(10), 0).unwrap();
    place_bet(&mut t, key(10), 0, key(50), 10, 10, &feed(1, 0)).unwrap();
    assert_eq!(dealer_close_table(&t, key(1), &vec![]), Err(TwentyOneError::CannotCloseTableActiveGame));
    t.game_state = GameState::DealerTurn;
    assert_eq!(dealer_close_table(&t, key(1), &vec![]), Err(TwentyOneError::CannotCloseTableActiveGame));
    assert_eq!(dealer_prepare_to_close(&mut t, key(2)), Err(TwentyOneError::DealerNotSigner));
    assert_eq!(dealer_prepare_to_close(&mut t, key(1)), Ok(()));
    assert!(t.closing_down);
}

#[test]
fn payouts_after_price_checks() {
    let feeds = vec![feed(10000, -2), feed(500, -2)];
    let payouts = vec![
        PayoutInstruction { amount: 5, escrow_account_index: 2, player_account_index: 3 },
        PayoutInstruction { amount: 0, escrow_account_index: 4, player_account_index: 5 },
        PayoutInstruction { amount: 7, escrow_account_index: 6, player_account_index: 7 },
    ];
    let ok = vec![
        PriceValidation { pyth_feed_index: 0, expected_price: 10100 },
        PriceValidation { pyth_feed_index: 1, expected_price: 500 },
    ];
    let transfers = execute_payouts(&payouts, &ok, &feeds).unwrap();
    assert_eq!(transfers.len(), 2);
    assert_eq!((transfers[0].amount, transfers[1].amount), (5, 7));
    assert_eq!(transfers[1].escrow_account_index, 6);
    let off = vec![PriceValidation { pyth_feed_index: 1, expected_price: 600 }];
    assert_eq!(execute_payouts(&payouts, &off, &feeds).err(), Some(TwentyOneError::PayoutCalculationMismatch));
    let mut foreign = feeds;
    foreign[1].owner = key(9);
    assert_eq!(execute_payouts(&payouts, &ok, &foreign).err(), Some(TwentyOneError::InvalidPriceFeedOwner));
    assert!(check_price_tolerance(103, 100));
    assert!(!check_price_tolerance(104, 100));
    assert!(!check_price_tolerance(-5, -100));
}

#[test]
fn dealer_profit_tracker() {
    let mut t = table();
    assert_eq!(t.reduce_dealer_profit(key(50), 5), Err(TwentyOneError::TokenMintNotInProfitTracker));
    assert_eq!(t.add_dealer_profit(key(50), 0), Ok(()));
    assert!(t.dealer_profit_tracker.is_empty());
    t.add_dealer_profit(key(50), 10).unwrap();
    t.add_dealer_profit(key(51), 3).unwrap();
    t.add_dealer_profit(key(50), 5).unwrap();
    assert_eq!(t.dealer_profit_tracker.len(), 2);
    assert_eq!(t.dealer_profit_tracker[0].amount, 15);
    assert_eq!(t.reduce_dealer_profit(key(50), 16), Err(TwentyOneError::ArithmeticOverflow));
    t.reduce_dealer_profit(key(50), 15).unwrap();
    assert_eq!(t.dealer_profit_tracker[0].amount, 0);
    assert_eq!(t.add_dealer_profit(key(51), u64::MAX), Err(TwentyOneError::ArithmeticOverflow));
    assert_eq!(t.find_player_seat(&key(10)).err(), Some(TwentyOneError::CannotFindPlayerSeat));
    join_table(&mut t, key(10), 4).unwrap();
    let (index, seat) = t.find_player_seat(&key(10)).unwrap();
    assert_eq!(index, 4);
    assert_eq!(seat.player_pubkey, Some(key(10)));
    assert!(!t.has_active_players_with_bets());
    {
        let (index, seat) = t.find_player_seat_mut(&key(10)).unwrap();
        assert_eq!(index, 4);
        seat.current_bet_usd_value = 77;
    }
    assert_eq!(t.player_seats[4].current_bet_usd_value, 77);
    assert_eq!(t.find_player_seat_mut(&key(11)).err(), Some(TwentyOneError::CannotFindPlayerSeat));
}
