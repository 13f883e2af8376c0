use vstd::prelude::*;
use crate::constants::{BASIS_POINTS_DIVISOR, MAX_PLAYERS_LIMIT, NUM_DECKS, OWNER_FEE_BPS};
use crate::errors::TwentyOneError;
use crate::hand::Hand;
use crate::name::{normalize_and_validate_table_name, spec_normalize_table_name};
use crate::oracle::{PriceAccount, spec_verify_claimed_value, verify_claimed_value};
use crate::pubkey::{Pubkey, config_admin, spec_config_admin, spec_usdc_mint, usdc_mint};
use crate::seat::PlayerSeat;
use crate::session::{GameSession, GameState, TableAuthorityConfig, TokenBalance, fresh_shoe};
use crate::shoe::{
    create_standard_shoe, fisher_yates_shuffle, generate_shuffle_seed_hash, seed_material, sha256_of,
};
use crate::turn::{spec_player_at_seat, verify_dealer_signer, verify_player_at_seat};

verus! {

/// `new` differs from `old` at most in seat `s`.
pub open spec fn only_seat_changed(new: GameSession, old: GameSession, s: int) -> bool {
    &&& new == (GameSession { player_seats: new.player_seats, ..old })
    &&& new.player_seats@.len() == old.player_seats@.len()
    &&& forall|j: int| 0 <= j < old.player_seats@.len() && j != s ==> #[trigger] new.player_seats@[j] == old.player_seats@[j]
}

/// Creates the configuration naming the trusted backend; only the fixed
/// administrator may do so.
pub fn initialize_authority_config(admin: Pubkey, backend_authority_pubkey: Pubkey, bump: u8) -> (r: Result<TableAuthorityConfig, TwentyOneError>)
    ensures
        match r {
            Ok(c) => admin == spec_config_admin() && c.backend_authority == backend_authority_pubkey
                && c.bump == bump,
            Err(e) => admin != spec_config_admin() && e == TwentyOneError::NotConfigAdmin,
        },
{
    if admin != config_admin() {
        return Err(TwentyOneError::NotConfigAdmin);
    }
    Ok(TableAuthorityConfig { backend_authority: backend_authority_pubkey, bump })
}

/// Replaces the trusted backend; only the fixed administrator may do so.
pub fn update_authority_config(config: &mut TableAuthorityConfig, admin: Pubkey, new_backend_authority: Pubkey) -> (r: Result<(), TwentyOneError>)
    ensures
        r is Ok <==> admin == spec_config_admin(),
        r is Ok ==> *final(config) == (TableAuthorityConfig { backend_authority: new_backend_authority, ..*old(config) }),
        r is Err ==> r == Err::<(), TwentyOneError>(TwentyOneError::NotConfigAdmin) && *final(config) == *old(config),
{
    if admin != config_admin() {
        return Err(TwentyOneError::NotConfigAdmin);
    }
    config.backend_authority = new_backend_authority;
    Ok(())
}

/// Verdict on opening a table.
pub open spec fn spec_initialize_table(name: Seq<char>, collateral: u64, dealer_token_mint: Pubkey) -> Result<(), TwentyOneError> {
    match spec_normalize_table_name(name) {
        Err(e) => Err(e),
        Ok(_) => if collateral == 0 {
            Err(TwentyOneError::MinBetIsZero)
        } else if dealer_token_mint != spec_usdc_mint() {
            Err(TwentyOneError::UsdcMintMismatch)
        } else {
            Ok(())
        },
    }
}

/// Opens a table: checks the name and the collateral, and builds a shoe
/// shuffled with a seed drawn from the slot, the time, the dealer and a nonce.
/// The collateral itself is moved by the caller once this succeeds.
pub fn initialize_table(
    table_name_input: &str,
    dealer: Pubkey,
    dealer_collateral_usd: u64,
    dealer_token_mint: Pubkey,
    slot: u64,
    timestamp: i64,
    shuffle_seed_nonce: u64,
    bump: u8,
) -> (r: Result<GameSession, TwentyOneError>)
    ensures
        match r {
            Ok(s) => {
                &&& spec_initialize_table(table_name_input@, dealer_collateral_usd, dealer_token_mint) is Ok
                &&& spec_normalize_table_name(table_name_input@) == Ok::<Seq<char>, TwentyOneError>(s.table_name@)
                &&& s.wf()
                &&& s.dealer == dealer
                &&& s.dealer_locked_usdc_amount == dealer_collateral_usd
                &&& s.game_state == GameState::AcceptingBets
                &&& s.seed_elements_hash@ == sha256_of(seed_material(slot, timestamp, dealer, shuffle_seed_nonce))
                &&& s.deck@ == fresh_shoe(s.seed_elements_hash@)
                &&& s.current_deck_index == 0
                &&& s.dealer_hand.is_unstaked_empty()
                &&& forall|i: int| 0 <= i < s.player_seats@.len() ==> (#[trigger] s.player_seats@[i]).player_pubkey is None && s.player_seats@[i].is_reset()
                &&& s.dealer_profit_tracker@.len() == 0
                &&& !s.closing_down
                &&& s.bump == bump
            },
            Err(e) => spec_initialize_table(table_name_input@, dealer_collateral_usd, dealer_token_mint) == Err::<(), TwentyOneError>(e),
        },
{
    let normalized = match normalize_and_validate_table_name(table_name_input) {
        Ok(n) => n,
        Err(e) => {
            return Err(e);
        },
    };
    if dealer_collateral_usd == 0 {
        return Err(TwentyOneError::MinBetIsZero);
    }
    if dealer_token_mint != usdc_mint() {
        return Err(TwentyOneError::UsdcMintMismatch);
    }
    let seed_hash = generate_shuffle_seed_hash(slot, timestamp, &dealer, shuffle_seed_nonce);
    let mut deck = create_standard_shoe(NUM_DECKS);
    fisher_yates_shuffle(&mut deck, seed_hash);
    let mut seats: Vec<PlayerSeat> = Vec::new();
    let mut i: u8 = 0;
    while i < MAX_PLAYERS_LIMIT
        invariant
            i <= MAX_PLAYERS_LIMIT,
            seats@.len() == i,
            forall|j: int| 0 <= j < i ==> (#[trigger] seats@[j]).player_pubkey is None && seats@[j].is_reset() && seats@[j].wf(),
        decreases MAX_PLAYERS_LIMIT - i,
    {
        seats.push(PlayerSeat::empty());
        i = i + 1;
    }
    Ok(GameSession {
        table_name: normalized,
        dealer,
        dealer_locked_usdc_amount: dealer_collateral_usd,
        game_state: GameState::AcceptingBets,
        deck,
        current_deck_index: 0,
        dealer_hand: Hand::empty(),
        player_seats: seats,
        dealer_profit_tracker: Vec::new(),
        seed_elements_hash: seed_hash,
        current_turn_seat_index: None,
        current_turn_hand_index: None,
        current_turn_start_timestamp: None,
        closing_down: false,
        bump,
    })
}

/// Verdict on taking a seat.
pub open spec fn spec_join(s: GameSession, seat_index: u8) -> Result<(), TwentyOneError> {
    if seat_index as int >= s.player_seats@.len() {
        Err(TwentyOneError::InvalidSeatIndex)
    } else if s.player_seats@[seat_index as int].player_pubkey is Some {
        Err(TwentyOneError::SeatTaken)
    } else {
        Ok(())
    }
}

/// Seats `player` at a free seat, with no bet.
pub fn join_table(game_session: &mut GameSession, player: Pubkey, seat_index: u8) -> (r: Result<(), TwentyOneError>)
    requires
        old(game_session).wf(),
    ensures
        r == spec_join(*old(game_session), seat_index),
        r is Err ==> *final(game_session) == *old(game_session),
        r is Ok ==> {
            &&& only_seat_changed(*final(game_session), *old(game_session), seat_index as int)
            &&& final(game_session).player_seats@[seat_index as int].player_pubkey == Some(player)
            &&& final(game_session).player_seats@[seat_index as int].is_reset()
        },
        final(game_session).wf(),
{
    let seat_idx = seat_index as usize;
    if seat_idx >= game_session.player_seats.len() {
        return Err(TwentyOneError::InvalidSeatIndex);
    }
    if game_session.player_seats[seat_idx].player_pubkey.is_some() {
        return Err(TwentyOneError::SeatTaken);
    }
    assert(old(game_session).player_seats@[seat_idx as int].wf());
    game_session.player_seats[seat_idx].player_pubkey = Some(player);
    game_session.player_seats[seat_idx].reset_for_new_round();
    Ok(())
}

/// Verdict on leaving a seat.
pub open spec fn spec_leave(s: GameSession, player: Pubkey, seat_index: u8) -> Result<(), TwentyOneError> {
    if spec_player_at_seat(s, player, seat_index) is Err {
        spec_player_at_seat(s, player, seat_index)
    } else if s.player_seats@[seat_index as int].is_active_in_round {
        Err(TwentyOneError::PlayerHasActiveBet)
    } else if s.game_state != GameState::AcceptingBets && s.game_state != GameState::RoundOver
        && s.player_seats@[seat_index as int].hands@.len() > 0 {
        Err(TwentyOneError::PlayerHasActiveBet)
    } else {
        Ok(())
    }
}

/// Frees the seat of `player`, who must have no bet in play.
pub fn leave_table(game_session: &mut GameSession, player: Pubkey, seat_index: u8) -> (r: Result<(), TwentyOneError>)
    requires
        old(game_session).wf(),
    ensures
        r == spec_leave(*old(game_session), player, seat_index),
        r is Err ==> *final(game_session) == *old(game_session),
        r is Ok ==> {
            &&& only_seat_changed(*final(game_session), *old(game_session), seat_index as int)
            &&& final(game_session).player_seats@[seat_index as int].player_pubkey is None
            &&& final(game_session).player_seats@[seat_index as int].is_reset()
        },
        final(game_session).wf(),
{
    match verify_player_at_seat(game_session, &player, seat_index) {
        Ok(()) => {},
        Err(e) => {
            return Err(e);
        },
    }
    let seat_idx = seat_index as usize;
    if game_session.player_seats[seat_idx].is_active_in_round {
        return Err(TwentyOneError::PlayerHasActiveBet);
    }
    if game_session.game_state != GameState::AcceptingBets && game_session.game_state
        != GameState::RoundOver && game_session.player_seats[seat_idx].hands.len() > 0 {
        return Err(TwentyOneError::PlayerHasActiveBet);
    }
    game_session.player_seats[seat_idx].player_pubkey = None;
    game_session.player_seats[seat_idx].reset_for_new_round();
    Ok(())
}

/// Verdict on a bet: bets must be open, the player seated and without a bet,
/// the stake non-zero, and its claimed value confirmed by the oracle.
pub open spec fn spec_place_bet(s: GameSession, player: Pubkey, seat_index: u8, amount: u64, usd_value: u64, feed: PriceAccount) -> Result<(), TwentyOneError> {
    if s.game_state != GameState::AcceptingBets {
        Err(TwentyOneError::NotAcceptingBets)
    } else if spec_player_at_seat(s, player, seat_index) is Err {
        spec_player_at_seat(s, player, seat_index)
    } else if s.player_seats@[seat_index as int].is_active_in_round {
        Err(TwentyOneError::PlayerHasActiveBet)
    } else if amount == 0 {
        Err(TwentyOneError::MinBetIsZero)
    } else {
        match spec_verify_claimed_value(amount, usd_value, feed) {
            Err(e) => Err(e),
            Ok(_) => Ok(()),
        }
    }
}

/// Places a bet of `amount_staked_ui` units of `token_mint` worth
/// `usd_value_of_bet`: the seat joins the round with one fresh hand. The
/// stake itself is moved into escrow by the caller once this succeeds.
pub fn place_bet(
    game_session: &mut GameSession,
    player: Pubkey,
    seat_index: u8,
    token_mint: Pubkey,
    amount_staked_ui: u64,
    usd_value_of_bet: u64,
    price_feed: &PriceAccount,
) -> (r: Result<(), TwentyOneError>)
    requires
        old(game_session).wf(),
    ensures
        r == spec_place_bet(*old(game_session), player, seat_index, amount_staked_ui, usd_value_of_bet, *price_feed),
        r is Err ==> *final(game_session) == *old(game_session),
        r is Ok ==> {
            let seat = final(game_session).player_seats@[seat_index as int];
            &&& only_seat_changed(*final(game_session), *old(game_session), seat_index as int)
            &&& seat.player_pubkey == Some(player)
            &&& seat.is_active_in_round
            &&& seat.current_bet_token_mint == Some(token_mint)
            &&& seat.current_bet_amount_staked_ui == amount_staked_ui
            &&& seat.current_bet_usd_value == usd_value_of_bet
            &&& seat.hands@.len() == 1
            &&& seat.hands@[0].is_fresh(token_mint, amount_staked_ui)
        },
        final(game_session).wf(),
{
    if game_session.game_state != GameState::AcceptingBets {
        return Err(TwentyOneError::NotAcceptingBets);
    }
    match verify_player_at_seat(game_session, &player, seat_index) {
        Ok(()) => {},
        Err(e) => {
            return Err(e);
        },
    }
    let seat_idx = seat_index as usize;
    if game_session.player_seats[seat_idx].is_active_in_round {
        return Err(TwentyOneError::PlayerHasActiveBet);
    }
    if amount_staked_ui == 0 {
        return Err(TwentyOneError::MinBetIsZero);
    }
    match verify_claimed_value(amount_staked_ui, usd_value_of_bet, price_feed) {
        Ok(_) => {},
        Err(e) => {
            return Err(e);
        },
    }
    let mut hands: Vec<Hand> = Vec::new();
    hands.push(Hand::new(token_mint, amount_staked_ui));
    game_session.player_seats[seat_idx].current_bet_token_mint = Some(token_mint);
    game_session.player_seats[seat_idx].current_bet_amount_staked_ui = amount_staked_ui;
    game_session.player_seats[seat_idx].current_bet_usd_value = usd_value_of_bet;
    game_session.player_seats[seat_idx].is_active_in_round = true;
    game_session.player_seats[seat_idx].hands = hands;
    Ok(())
}

/// Total claimed value of the balances, each claim checked against its
/// oracle account in order; the first failed check is the error.
pub open spec fn spec_bank_value(balances: Seq<TokenBalance>, feeds: Seq<PriceAccount>) -> Result<nat, TwentyOneError>
    decreases balances.len(),
{
    if balances.len() == 0 {
        Ok(0)
    } else {
        match spec_bank_value(balances.drop_last(), feeds) {
            Err(e) => Err(e),
            Ok(total) => {
                let b = balances.last();
                match spec_verify_claimed_value(b.amount, b.value_usd, feeds[b.pyth_feed_index as int]) {
                    Err(e) => Err(e),
                    Ok(_) => Ok(total + b.value_usd as nat),
                }
            },
        }
    }
}

/// Fee and net amount of a withdrawal: the fee is the fixed basis-point share,
/// rounded down; an error if the product leaves 64 bits.
pub open spec fn spec_fee_split(amount: u64) -> Result<(u64, u64), TwentyOneError> {
    if amount as int * OWNER_FEE_BPS as int > u64::MAX {
        Err(TwentyOneError::ArithmeticOverflow)
    } else {
        let fee = amount as int * OWNER_FEE_BPS as int / BASIS_POINTS_DIVISOR as int;
        Ok((fee as u64, (amount - fee) as u64))
    }
}

/// Splits a withdrawal into the fee and what reaches the dealer.
pub fn fee_split(amount: u64) -> (r: Result<(u64, u64), TwentyOneError>)
    ensures
        r == spec_fee_split(amount),
{
    let scaled = match amount.checked_mul(OWNER_FEE_BPS) {
        Some(v) => v,
        None => {
            return Err(TwentyOneError::ArithmeticOverflow);
        },
    };
    let fee = scaled / BASIS_POINTS_DIVISOR;
    Ok((fee, amount - fee))
}

/// Verdict on a profit withdrawal, with the fee and the net amount.
pub open spec fn spec_withdraw(g: GameSession, dealer: Pubkey, amount: u64, balances: Seq<TokenBalance>, feeds: Seq<PriceAccount>) -> Result<(u64, u64), TwentyOneError> {
    if g.dealer != dealer {
        Err(TwentyOneError::DealerNotSigner)
    } else {
        match spec_bank_value(balances, feeds) {
            Err(e) => Err(e),
            Ok(total) => if total < g.dealer_locked_usdc_amount {
                Err(TwentyOneError::InsufficientBankValue)
            } else {
                spec_fee_split(amount)
            },
        }
    }
}

/// The dealer withdraws profit: the value left in the bank, each balance
/// confirmed by the oracle, must cover the locked collateral. Returns the fee
/// and the dealer's net amount, which the caller transfers.
pub fn dealer_withdraw_profit(
    game_session: &GameSession,
    dealer_signer: Pubkey,
    amount_to_withdraw_ui: u64,
    remaining_balances: &Vec<TokenBalance>,
    price_feeds: &Vec<PriceAccount>,
) -> (r: Result<(u64, u64), TwentyOneError>)
    requires
        forall|i: int| 0 <= i < remaining_balances@.len() ==> (#[trigger] remaining_balances@[i]).pyth_feed_index < price_feeds@.len(),
    ensures
        r == spec_withdraw(*game_session, dealer_signer, amount_to_withdraw_ui, remaining_balances@, price_feeds@),
{
    match verify_dealer_signer(game_session, &dealer_signer) {
        Ok(()) => {},
        Err(e) => {
            return Err(e);
        },
    }
    let mut total: u128 = 0;
    let mut i: usize = 0;
    while i < remaining_balances.len()
        invariant
            game_session.dealer == dealer_signer,
            i <= remaining_balances@.len(),
            forall|k: int| 0 <= k < remaining_balances@.len() ==> (#[trigger] remaining_balances@[k]).pyth_feed_index < price_feeds@.len(),
            spec_bank_value(remaining_balances@.subrange(0, i as int), price_feeds@) == Ok::<nat, TwentyOneError>(total as nat),
            total <= i as int * 0x1_0000_0000_0000_0000,
        decreases remaining_balances@.len() - i,
    {
        let ghost pre = remaining_balances@.subrange(0, i as int);
        let ghost post = remaining_balances@.subrange(0, i as int + 1);
        proof {
            assert(post.drop_last() =~= pre);
            assert(post.last() == remaining_balances@[i as int]);
        }
        let balance = remaining_balances[i];
        let feed = &price_feeds[balance.pyth_feed_index as usize];
        match verify_claimed_value(balance.amount, balance.value_usd, feed) {
            Ok(_) => {},
            Err(e) => {
                proof {
                    lemma_bank_failure_persists(remaining_balances@, price_feeds@, i as int + 1);
                }
                return Err(e);
            },
        }
        proof {
            assert((i as int + 1) * 0x1_0000_0000_0000_0000 <= u128::MAX + 1) by (nonlinear_arith)
                requires
                    i < usize::MAX,
            ;
        }
        total = total + balance.value_usd as u128;
        i = i + 1;
    }
    proof {
        assert(remaining_balances@.subrange(0, remaining_balances@.len() as int) =~= remaining_balances@);
    }
    if total < game_session.dealer_locked_usdc_amount as u128 {
        return Err(TwentyOneError::InsufficientBankValue);
    }
    fee_split(amount_to_withdraw_ui)
}

/// Once a prefix of the balances fails its check, the whole list fails with that error.
pub proof fn lemma_bank_failure_persists(balances: Seq<TokenBalance>, feeds: Seq<PriceAccount>, k: int)
    requires
        0 <= k <= balances.len(),
        spec_bank_value(balances.subrange(0, k), feeds) is Err,
    ensures
        spec_bank_value(balances, feeds) == spec_bank_value(balances.subrange(0, k), feeds),
    decreases balances.len() - k,
{
    if k < balances.len() {
        let next = balances.subrange(0, k + 1);
        assert(next.drop_last() =~= balances.subrange(0, k));
        lemma_bank_failure_persists(balances, feeds, k + 1);
    } else {
        assert(balances.subrange(0, k) =~= balances);
    }
}

/// Verdict on closing a table: the dealer signs; no round is being played,
/// no occupied seat is in the round, and every escrow is empty.
pub open spec fn spec_close(g: GameSession, dealer: Pubkey, escrow_amounts: Seq<u64>) -> Result<(), TwentyOneError> {
    if g.dealer != dealer {
        Err(TwentyOneError::DealerNotSigner)
    } else if g.game_state != GameState::AcceptingBets && g.game_state != GameState::RoundOver {
        Err(TwentyOneError::CannotCloseTableActiveGame)
    } else if exists|i: int| 0 <= i < g.player_seats@.len() && (#[trigger] g.player_seats@[i]).player_pubkey is Some
        && g.player_seats@[i].is_active_in_round {
        Err(TwentyOneError::CannotCloseTableActiveGame)
    } else if exists|i: int| 0 <= i < escrow_amounts.len() && #[trigger] escrow_amounts[i] > 0 {
        Err(TwentyOneError::TableHasActiveEscrow)
    } else {
        Ok(())
    }
}

/// Checks that the table may be closed; the caller then releases the
/// collateral and removes the table.
pub fn dealer_close_table(game_session: &GameSession, dealer_signer: Pubkey, escrow_amounts: &Vec<u64>) -> (r: Result<(), TwentyOneError>)
    ensures
        r == spec_close(*game_session, dealer_signer, escrow_amounts@),
{
    match verify_dealer_signer(game_session, &dealer_signer) {
        Ok(()) => {},
        Err(e) => {
            return Err(e);
        },
    }
    if !(game_session.game_state == GameState::AcceptingBets || game_session.game_state == GameState::RoundOver) {
        return Err(TwentyOneError::CannotCloseTableActiveGame);
    }
    let mut i: usize = 0;
    while i < game_session.player_seats.len()
        invariant
            game_session.dealer == dealer_signer,
            game_session.game_state == GameState::AcceptingBets || game_session.game_state == GameState::RoundOver,
            i <= game_session.player_seats@.len(),
            forall|j: int| 0 <= j < i ==> !((#[trigger] game_session.player_seats@[j]).player_pubkey is Some
                && game_session.player_seats@[j].is_active_in_round),
        decreases game_session.player_seats@.len() - i,
    {
        if game_session.player_seats[i].player_pubkey.is_some() && game_session.player_seats[i].is_active_in_round {
            proof {
                assert(game_session.player_seats@[i as int].player_pubkey is Some);
            }
            return Err(TwentyOneError::CannotCloseTableActiveGame);
        }
        i = i + 1;
    }
    let mut k: usize = 0;
    while k < escrow_amounts.len()
        invariant
            game_session.dealer == dealer_signer,
            game_session.game_state == GameState::AcceptingBets || game_session.game_state == GameState::RoundOver,
            forall|j: int| 0 <= j < game_session.player_seats@.len() ==> !((#[trigger] game_session.player_seats@[j]).player_pubkey is Some
                && game_session.player_seats@[j].is_active_in_round),
            k <= escrow_amounts@.len(),
            forall|j: int| 0 <= j < k ==> !(#[trigger] escrow_amounts@[j] > 0),
        decreases escrow_amounts@.len() - k,
    {
        if escrow_amounts[k] > 0 {
            proof {
                assert(escrow_amounts@[k as int] > 0);
            }
            return Err(TwentyOneError::TableHasActiveEscrow);
        }
        k = k + 1;
    }
    Ok(())
}

} // verus!
