use vstd::prelude::*;
use crate::card::Card;
use crate::constants::{MAX_CARDS_IN_HAND, PLAYER_TURN_TIMEOUT_SECONDS};
use crate::errors::TwentyOneError;
use crate::hand::{Hand, HandStatus, status_after_draw};
use crate::pubkey::Pubkey;
use crate::seat::PlayerSeat;
use crate::session::{GameSession, GameState, TableAuthorityConfig, draw_outcome};
use crate::turn::{
    determine_next_player_or_transition_to_dealer, spec_player_turn_and_hand, turn_moved_on,
    verify_player_turn_and_hand,
};

verus! {

/// `cards` after `card` is offered to a hand: appended unless the hand is full.
pub open spec fn added(cards: Seq<Card>, card: Card) -> Seq<Card> {
    if cards.len() < MAX_CARDS_IN_HAND {
        cards.push(card)
    } else {
        cards
    }
}

/// `new` differs from `old` at most in hand `h` of seat `s`, the shoe
/// cursor, the turn and the game state.
pub open spec fn only_hand_changed(new: GameSession, old: GameSession, s: int, h: int) -> bool {
    &&& new == (GameSession {
        player_seats: new.player_seats,
        current_deck_index: new.current_deck_index,
        game_state: new.game_state,
        current_turn_seat_index: new.current_turn_seat_index,
        current_turn_hand_index: new.current_turn_hand_index,
        current_turn_start_timestamp: new.current_turn_start_timestamp,
        ..old
    })
    &&& new.player_seats@.len() == old.player_seats@.len()
    &&& forall|j: int| 0 <= j < old.player_seats@.len() && j != s ==> #[trigger] new.player_seats@[j] == old.player_seats@[j]
    &&& new.player_seats@[s] == (PlayerSeat { hands: new.player_seats@[s].hands, ..old.player_seats@[s] })
    &&& new.player_seats@[s].hands@.len() == old.player_seats@[s].hands@.len()
    &&& forall|k: int| 0 <= k < old.player_seats@[s].hands@.len() && k != h ==> #[trigger] new.player_seats@[s].hands@[k] == old.player_seats@[s].hands@[k]
}

/// Hand `h` of seat `s` in `g`.
pub open spec fn hand_at(g: GameSession, s: int, h: int) -> Hand {
    g.player_seats@[s].hands@[h]
}

/// After acting on a hand of seat `s`: while the hand plays on, the turn and
/// the game state stay; once it is finished, the turn moves on.
pub open spec fn turn_after_action(new: GameSession, old: GameSession, s: u8, h: int, ts: i64) -> bool {
    if hand_at(new, s as int, h).status == HandStatus::Playing {
        &&& new.game_state == old.game_state
        &&& new.current_turn_seat_index == old.current_turn_seat_index
        &&& new.current_turn_hand_index == old.current_turn_hand_index
        &&& new.current_turn_start_timestamp == old.current_turn_start_timestamp
    } else {
        turn_moved_on(new, s, ts)
    }
}

/// The turn is at hand `h` of seat `s`.
pub open spec fn turn_is(g: GameSession, s: u8, h: u8) -> bool {
    g.current_turn_seat_index == Some(s) && g.current_turn_hand_index == Some(h)
}

/// Draws a card onto the hand whose turn it is; a finished hand passes the turn on.
fn hit_hand(game_session: &mut GameSession, seat_index: u8, hand_index: u8, timestamp: i64) -> (r: Result<Card, TwentyOneError>)
    requires
        old(game_session).wf(),
        turn_is(*old(game_session), seat_index, hand_index),
    ensures
        match r {
            Ok(card) => {
                let before = hand_at(*old(game_session), seat_index as int, hand_index as int);
                let after = hand_at(*final(game_session), seat_index as int, hand_index as int);
                &&& draw_outcome(old(game_session).deck@, old(game_session).current_deck_index as nat) == Some(card)
                &&& final(game_session).current_deck_index == old(game_session).current_deck_index + 1
                &&& only_hand_changed(*final(game_session), *old(game_session), seat_index as int, hand_index as int)
                &&& after == (Hand { cards: after.cards, status: after.status, ..before })
                &&& after.cards@ == added(before.cards@, card)
                &&& after.status == status_after_draw(after.cards@, HandStatus::Playing)
                &&& turn_after_action(*final(game_session), *old(game_session), seat_index, hand_index as int, timestamp)
            },
            Err(e) => {
                &&& e == TwentyOneError::DeckEmpty
                &&& draw_outcome(old(game_session).deck@, old(game_session).current_deck_index as nat) is None
                &&& *final(game_session) == *old(game_session)
            },
        },
        final(game_session).wf(),
{
    let s = seat_index as usize;
    let h = hand_index as usize;
    let card = match game_session.draw_card() {
        Ok(c) => c,
        Err(e) => {
            return Err(e);
        },
    };
    let ghost mid = *game_session;
    proof {
        assert(mid.player_seats@[s as int].wf());
        assert(mid.player_seats@[s as int].hands@[h as int].wf());
    }
    game_session.player_seats[s].hands[h].add_card(card);
    game_session.player_seats[s].hands[h].update_status_after_card_drawn();
    let finished = game_session.player_seats[s].hands[h].status != HandStatus::Playing;
    proof {
        let g = *game_session;
        assert forall|j: int| 0 <= j < g.player_seats@.len() implies (#[trigger] g.player_seats@[j]).wf() by {
            assert(mid.player_seats@[j].wf());
        }
        assert(g.base_wf());
    }
    if finished {
        determine_next_player_or_transition_to_dealer(game_session, timestamp);
    }
    Ok(card)
}

/// Stands the hand whose turn it is and passes the turn on.
fn stand_hand(game_session: &mut GameSession, seat_index: u8, hand_index: u8, timestamp: i64)
    requires
        old(game_session).wf(),
        turn_is(*old(game_session), seat_index, hand_index),
    ensures
        ({
            let before = hand_at(*old(game_session), seat_index as int, hand_index as int);
            let after = hand_at(*final(game_session), seat_index as int, hand_index as int);
            &&& final(game_session).current_deck_index == old(game_session).current_deck_index
            &&& only_hand_changed(*final(game_session), *old(game_session), seat_index as int, hand_index as int)
            &&& after == (Hand { status: HandStatus::Stood, ..before })
            &&& turn_moved_on(*final(game_session), seat_index, timestamp)
        }),
        final(game_session).wf(),
{
    let s = seat_index as usize;
    let h = hand_index as usize;
    let ghost mid = *game_session;
    game_session.player_seats[s].hands[h].status = HandStatus::Stood;
    proof {
        let g = *game_session;
        assert forall|j: int| 0 <= j < g.player_seats@.len() implies (#[trigger] g.player_seats@[j]).wf() by {
            assert(mid.player_seats@[j].wf());
        }
        assert(g.base_wf());
    }
    determine_next_player_or_transition_to_dealer(game_session, timestamp);
}

/// Verdict on a hit: the acting checks, then a card must be left.
pub open spec fn spec_hit(g: GameSession, player: Pubkey, seat_index: u8, hand_index: u8) -> Result<(), TwentyOneError> {
    if spec_player_turn_and_hand(g, player, seat_index, hand_index) is Err {
        spec_player_turn_and_hand(g, player, seat_index, hand_index)
    } else if draw_outcome(g.deck@, g.current_deck_index as nat) is None {
        Err(TwentyOneError::DeckEmpty)
    } else {
        Ok(())
    }
}

/// The player at the turn takes a card.
pub fn player_action_hit(game_session: &mut GameSession, player: Pubkey, seat_index: u8, hand_index: u8, timestamp: i64) -> (r: Result<Card, TwentyOneError>)
    requires
        old(game_session).wf(),
    ensures
        spec_hit(*old(game_session), player, seat_index, hand_index) == match r {
            Ok(_) => Ok::<(), TwentyOneError>(()),
            Err(e) => Err(e),
        },
        r is Err ==> *final(game_session) == *old(game_session),
        r matches Ok(card) ==> {
            let before = hand_at(*old(game_session), seat_index as int, hand_index as int);
            let after = hand_at(*final(game_session), seat_index as int, hand_index as int);
            &&& draw_outcome(old(game_session).deck@, old(game_session).current_deck_index as nat) == Some(card)
            &&& final(game_session).current_deck_index == old(game_session).current_deck_index + 1
            &&& only_hand_changed(*final(game_session), *old(game_session), seat_index as int, hand_index as int)
            &&& after == (Hand { cards: after.cards, status: after.status, ..before })
            &&& after.cards@ == added(before.cards@, card)
            &&& after.status == status_after_draw(after.cards@, HandStatus::Playing)
            &&& turn_after_action(*final(game_session), *old(game_session), seat_index, hand_index as int, timestamp)
        },
        final(game_session).wf(),
{
    match verify_player_turn_and_hand(game_session, &player, seat_index, hand_index) {
        Ok(()) => {},
        Err(e) => {
            return Err(e);
        },
    }
    hit_hand(game_session, seat_index, hand_index, timestamp)
}

/// The player at the turn stands.
pub fn player_action_stand(game_session: &mut GameSession, player: Pubkey, seat_index: u8, hand_index: u8, timestamp: i64) -> (r: Result<(), TwentyOneError>)
    requires
        old(game_session).wf(),
    ensures
        r == spec_player_turn_and_hand(*old(game_session), player, seat_index, hand_index),
        r is Err ==> *final(game_session) == *old(game_session),
        r is Ok ==> {
            let before = hand_at(*old(game_session), seat_index as int, hand_index as int);
            let after = hand_at(*final(game_session), seat_index as int, hand_index as int);
            &&& final(game_session).current_deck_index == old(game_session).current_deck_index
            &&& only_hand_changed(*final(game_session), *old(game_session), seat_index as int, hand_index as int)
            &&& after == (Hand { status: HandStatus::Stood, ..before })
            &&& turn_moved_on(*final(game_session), seat_index, timestamp)
        },
        final(game_session).wf(),
{
    match verify_player_turn_and_hand(game_session, &player, seat_index, hand_index) {
        Ok(()) => {},
        Err(e) => {
            return Err(e);
        },
    }
    stand_hand(game_session, seat_index, hand_index, timestamp);
    Ok(())
}

/// Verdict on doubling down: the acting checks, two cards in the hand, the
/// payer's token and funds for a second stake, and a card left.
pub open spec fn spec_double(g: GameSession, player: Pubkey, seat_index: u8, hand_index: u8, payer_mint: Pubkey, payer_balance: u64) -> Result<(), TwentyOneError> {
    let hand = hand_at(g, seat_index as int, hand_index as int);
    if spec_player_turn_and_hand(g, player, seat_index, hand_index) is Err {
        spec_player_turn_and_hand(g, player, seat_index, hand_index)
    } else if hand.cards@.len() != 2 {
        Err(TwentyOneError::CannotDoubleNotTwoCards)
    } else if payer_mint != hand.token_mint_for_bet {
        Err(TwentyOneError::BetTokenMintMismatch)
    } else if payer_balance < hand.original_bet_amount {
        Err(TwentyOneError::InsufficientFundsForDoubleDown)
    } else if draw_outcome(g.deck@, g.current_deck_index as nat) is None {
        Err(TwentyOneError::DeckEmpty)
    } else {
        Ok(())
    }
}

/// Status of a doubled hand: busted, or else doubled and stood.
pub open spec fn doubled_status(cards: Seq<Card>) -> HandStatus {
    if status_after_draw(cards, HandStatus::Playing) == HandStatus::Busted {
        HandStatus::Busted
    } else {
        HandStatus::DoubledAndStood
    }
}

/// The player at the turn doubles a two-card hand: the stake doubles, exactly
/// one card is drawn and the hand is finished. Returns the additional stake,
/// which the caller moves into escrow.
pub fn player_action_double_down(
    game_session: &mut GameSession,
    player: Pubkey,
    seat_index: u8,
    hand_index: u8,
    payer_mint: Pubkey,
    payer_balance: u64,
    timestamp: i64,
) -> (r: Result<u64, TwentyOneError>)
    requires
        old(game_session).wf(),
    ensures
        spec_double(*old(game_session), player, seat_index, hand_index, payer_mint, payer_balance) == match r {
            Ok(_) => Ok::<(), TwentyOneError>(()),
            Err(e) => Err(e),
        },
        r is Err ==> *final(game_session) == *old(game_session),
        r matches Ok(stake) ==> {
            let before = hand_at(*old(game_session), seat_index as int, hand_index as int);
            let after = hand_at(*final(game_session), seat_index as int, hand_index as int);
            let card = old(game_session).deck@[old(game_session).current_deck_index as int];
            &&& stake == before.original_bet_amount
            &&& final(game_session).current_deck_index == old(game_session).current_deck_index + 1
            &&& only_hand_changed(*final(game_session), *old(game_session), seat_index as int, hand_index as int)
            &&& after == (Hand { cards: after.cards, status: after.status, bet_multiplier_x100: 200, ..before })
            &&& after.cards@ == before.cards@.push(card)
            &&& after.status == doubled_status(after.cards@)
            &&& turn_moved_on(*final(game_session), seat_index, timestamp)
        },
        final(game_session).wf(),
{
    match verify_player_turn_and_hand(game_session, &player, seat_index, hand_index) {
        Ok(()) => {},
        Err(e) => {
            return Err(e);
        },
    }
    let s = seat_index as usize;
    let h = hand_index as usize;
    if game_session.player_seats[s].hands[h].cards.len() != 2 {
        return Err(TwentyOneError::CannotDoubleNotTwoCards);
    }
    let mint = game_session.player_seats[s].hands[h].token_mint_for_bet;
    let additional_stake = game_session.player_seats[s].hands[h].original_bet_amount;
    if payer_mint != mint {
        return Err(TwentyOneError::BetTokenMintMismatch);
    }
    if payer_balance < additional_stake {
        return Err(TwentyOneError::InsufficientFundsForDoubleDown);
    }
    let card = match game_session.draw_card() {
        Ok(c) => c,
        Err(e) => {
            return Err(e);
        },
    };
    let ghost mid = *game_session;
    proof {
        assert(mid.player_seats@[s as int].wf());
        assert(mid.player_seats@[s as int].hands@[h as int].wf());
    }
    game_session.player_seats[s].hands[h].bet_multiplier_x100 = 200;
    game_session.player_seats[s].hands[h].add_card(card);
    game_session.player_seats[s].hands[h].update_status_after_card_drawn();
    if game_session.player_seats[s].hands[h].status != HandStatus::Busted {
        game_session.player_seats[s].hands[h].status = HandStatus::DoubledAndStood;
    }
    proof {
        let g = *game_session;
        assert forall|j: int| 0 <= j < g.player_seats@.len() implies (#[trigger] g.player_seats@[j]).wf() by {
            assert(mid.player_seats@[j].wf());
        }
        assert(g.base_wf());
    }
    determine_next_player_or_transition_to_dealer(game_session, timestamp);
    Ok(additional_stake)
}

/// Verdict on a split: only the first hand, the acting checks, a seat not yet
/// split, two cards of equal rank, the payer's token and funds for the new
/// hand's stake, and two cards left.
pub open spec fn spec_split(g: GameSession, player: Pubkey, seat_index: u8, hand_index: u8, payer_mint: Pubkey, payer_balance: u64) -> Result<(), TwentyOneError> {
    let hand = hand_at(g, seat_index as int, 0);
    if hand_index != 0 {
        Err(TwentyOneError::CannotSplitAlreadySplit)
    } else if spec_player_turn_and_hand(g, player, seat_index, hand_index) is Err {
        spec_player_turn_and_hand(g, player, seat_index, hand_index)
    } else if g.player_seats@[seat_index as int].hands@.len() != 1 {
        Err(TwentyOneError::CannotSplitAlreadySplit)
    } else if hand.cards@.len() != 2 {
        Err(TwentyOneError::CannotSplitNotTwoCards)
    } else if hand.cards@[0].rank != hand.cards@[1].rank {
        Err(TwentyOneError::CannotSplitRanksMismatch)
    } else if payer_mint != hand.token_mint_for_bet {
        Err(TwentyOneError::BetTokenMintMismatch)
    } else if payer_balance < hand.original_bet_amount {
        Err(TwentyOneError::InsufficientFundsForSplit)
    } else if g.current_deck_index + 2 > g.deck@.len() {
        Err(TwentyOneError::DeckEmpty)
    } else {
        Ok(())
    }
}

/// Status of a hand just completed after a split: split Aces stand at once.
pub open spec fn split_status(cards: Seq<Card>) -> HandStatus {
    if cards[0].spec_is_ace() {
        HandStatus::Stood
    } else {
        status_after_draw(cards, HandStatus::Playing)
    }
}

/// Draws a card onto hand `h` of seat `s` after a split and settles its status.
fn complete_split_hand(game_session: &mut GameSession, s: usize, h: usize) -> (card: Card)
    requires
        old(game_session).base_wf(),
        s < old(game_session).player_seats@.len(),
        h < old(game_session).player_seats@[s as int].hands@.len(),
        old(game_session).player_seats@[s as int].hands@[h as int].cards@.len() == 1,
        old(game_session).player_seats@[s as int].hands@[h as int].status == HandStatus::Playing,
        old(game_session).current_deck_index < old(game_session).deck@.len(),
    ensures
        card == old(game_session).deck@[old(game_session).current_deck_index as int],
        final(game_session).current_deck_index == old(game_session).current_deck_index + 1,
        only_hand_changed(*final(game_session), *old(game_session), s as int, h as int),
        final(game_session).game_state == old(game_session).game_state,
        final(game_session).current_turn_seat_index == old(game_session).current_turn_seat_index,
        final(game_session).current_turn_hand_index == old(game_session).current_turn_hand_index,
        final(game_session).current_turn_start_timestamp == old(game_session).current_turn_start_timestamp,
        ({
            let before = hand_at(*old(game_session), s as int, h as int);
            let after = hand_at(*final(game_session), s as int, h as int);
            &&& after == (Hand { cards: after.cards, status: after.status, ..before })
            &&& after.cards@ == before.cards@.push(card)
            &&& after.status == split_status(after.cards@)
        }),
        final(game_session).base_wf(),
{
    let card = match game_session.draw_card() {
        Ok(c) => c,
        Err(_) => {
            proof {
                assert(false);
            }
            return game_session.deck[0];
        },
    };
    let ghost mid = *game_session;
    proof {
        assert(mid.player_seats@[s as int].wf());
        assert(mid.player_seats@[s as int].hands@[h as int].wf());
    }
    game_session.player_seats[s].hands[h].add_card(card);
    if game_session.player_seats[s].hands[h].cards[0].is_ace() {
        game_session.player_seats[s].hands[h].status = HandStatus::Stood;
    } else {
        game_session.player_seats[s].hands[h].update_status_after_card_drawn();
    }
    proof {
        let g = *game_session;
        assert forall|j: int| 0 <= j < g.player_seats@.len() implies (#[trigger] g.player_seats@[j]).wf() by {
            assert(mid.player_seats@[j].wf());
        }
        assert(g.base_wf());
    }
    card
}

/// The player at the turn splits a pair on the seat's only hand: the second
/// card starts a new hand with an equal stake, and each hand receives one
/// more card. Split Aces then stand. Returns the new hand's stake, which the
/// caller moves into escrow.
pub fn player_action_split(
    game_session: &mut GameSession,
    player: Pubkey,
    seat_index: u8,
    hand_index: u8,
    payer_mint: Pubkey,
    payer_balance: u64,
    timestamp: i64,
) -> (r: Result<u64, TwentyOneError>)
    requires
        old(game_session).wf(),
    ensures
        spec_split(*old(game_session), player, seat_index, hand_index, payer_mint, payer_balance) == match r {
            Ok(_) => Ok::<(), TwentyOneError>(()),
            Err(e) => Err(e),
        },
        r is Err ==> *final(game_session) == *old(game_session),
        r matches Ok(stake) ==> {
            let s = seat_index as int;
            let before = hand_at(*old(game_session), s, 0);
            let seat = final(game_session).player_seats@[s];
            let first = seat.hands@[0];
            let second = seat.hands@[1];
            let d = old(game_session).deck@;
            let c = old(game_session).current_deck_index as int;
            &&& stake == before.original_bet_amount
            &&& final(game_session).current_deck_index == c + 2
            &&& *final(game_session) == (GameSession {
                player_seats: final(game_session).player_seats,
                current_deck_index: final(game_session).current_deck_index,
                game_state: final(game_session).game_state,
                current_turn_seat_index: final(game_session).current_turn_seat_index,
                current_turn_hand_index: final(game_session).current_turn_hand_index,
                current_turn_start_timestamp: final(game_session).current_turn_start_timestamp,
                ..*old(game_session)
            })
            &&& final(game_session).player_seats@.len() == old(game_session).player_seats@.len()
            &&& forall|j: int| 0 <= j < old(game_session).player_seats@.len() && j != s
                ==> #[trigger] final(game_session).player_seats@[j] == old(game_session).player_seats@[j]
            &&& seat == (PlayerSeat { hands: seat.hands, ..old(game_session).player_seats@[s] })
            &&& seat.hands@.len() == 2
            &&& first == (Hand { cards: first.cards, status: first.status, ..before })
            &&& first.cards@ == seq![before.cards@[0], d[c]]
            &&& first.status == split_status(first.cards@)
            &&& second.cards@ == seq![before.cards@[1], d[c + 1]]
            &&& second.status == split_status(second.cards@)
            &&& second.bet_multiplier_x100 == 100
            &&& second.token_mint_for_bet == before.token_mint_for_bet
            &&& second.original_bet_amount == before.original_bet_amount
            &&& if first.status == HandStatus::Playing {
                &&& final(game_session).game_state == old(game_session).game_state
                &&& turn_is(*final(game_session), seat_index, 0)
                &&& final(game_session).current_turn_start_timestamp == Some(timestamp)
            } else {
                turn_moved_on(*final(game_session), seat_index, timestamp)
            }
        },
        final(game_session).wf(),
{
    if hand_index != 0 {
        return Err(TwentyOneError::CannotSplitAlreadySplit);
    }
    match verify_player_turn_and_hand(game_session, &player, seat_index, hand_index) {
        Ok(()) => {},
        Err(e) => {
            return Err(e);
        },
    }
    let s = seat_index as usize;
    if game_session.player_seats[s].hands.len() != 1 {
        return Err(TwentyOneError::CannotSplitAlreadySplit);
    }
    if game_session.player_seats[s].hands[0].cards.len() != 2 {
        return Err(TwentyOneError::CannotSplitNotTwoCards);
    }
    if game_session.player_seats[s].hands[0].cards[0].rank != game_session.player_seats[s].hands[0].cards[1].rank {
        return Err(TwentyOneError::CannotSplitRanksMismatch);
    }
    let mint = game_session.player_seats[s].hands[0].token_mint_for_bet;
    let stake = game_session.player_seats[s].hands[0].original_bet_amount;
    if payer_mint != mint {
        return Err(TwentyOneError::BetTokenMintMismatch);
    }
    if payer_balance < stake {
        return Err(TwentyOneError::InsufficientFundsForSplit);
    }
    if game_session.current_deck_index as usize + 2 > game_session.deck.len() {
        return Err(TwentyOneError::DeckEmpty);
    }
    let ghost g0 = *game_session;
    let moved = game_session.player_seats[s].hands[0].cards[1];
    game_session.player_seats[s].hands[0].cards.truncate(1);
    let mut new_hand = Hand::new(mint, stake);
    new_hand.add_card(moved);
    game_session.player_seats[s].hands.push(new_hand);
    let ghost g1 = *game_session;
    proof {
        assert(g0.player_seats@[s as int].wf());
        assert(g1.player_seats@[s as int].hands@[0].cards@ =~= g0.player_seats@[s as int].hands@[0].cards@.subrange(0, 1));
        assert forall|j: int| 0 <= j < g1.player_seats@.len() implies (#[trigger] g1.player_seats@[j]).wf() by {
            assert(g0.player_seats@[j].wf());
        }
        assert(g1.base_wf());
    }
    complete_split_hand(game_session, s, 0);
    complete_split_hand(game_session, s, 1);
    let ghost g3 = *game_session;
    proof {
        assert(g3.player_seats@[s as int].hands@[0].cards@ =~= seq![g0.player_seats@[s as int].hands@[0].cards@[0], g0.deck@[g0.current_deck_index as int]]);
        assert(g3.player_seats@[s as int].hands@[1].cards@ =~= seq![g0.player_seats@[s as int].hands@[0].cards@[1], g0.deck@[g0.current_deck_index + 1]]);
    }
    if game_session.player_seats[s].hands[0].status != HandStatus::Playing {
        determine_next_player_or_transition_to_dealer(game_session, timestamp);
    } else {
        game_session.current_turn_start_timestamp = Some(timestamp);
    }
    Ok(stake)
}

/// What a privileged caller may force on a player who ran out of time; a
/// forced split is taken as a stand.
#[derive(Clone, Copy, PartialEq, Eq, Debug, Structural)]
pub enum ForcedAction {
    Hit,
    Stand,
    Split,
}

/// Kind of action a player took, for reporting.
#[derive(Clone, Copy, PartialEq, Eq, Debug, Structural)]
pub enum PlayerActionType {
    Hit,
    Stand,
    DoubleDown,
    Split,
}

/// Verdict on forcing an action: the caller must be the backend or the
/// dealer, players must be acting, the turn at that seat and hand, its timer
/// set and run out; the seat occupied and the hand playing; a forced hit
/// needs a card left.
pub open spec fn spec_force(g: GameSession, config: TableAuthorityConfig, caller: Pubkey, seat_index: u8, hand_index: u8, action: ForcedAction, now: i64) -> Result<(), TwentyOneError> {
    if caller != config.backend_authority && caller != g.dealer {
        Err(TwentyOneError::UnauthorizedForceAction)
    } else if g.game_state != GameState::PlayerTurns {
        Err(TwentyOneError::NotPlayerTurnsState)
    } else if !turn_is(g, seat_index, hand_index) {
        Err(TwentyOneError::NotThisPlayerTurn)
    } else if g.current_turn_start_timestamp is None {
        Err(TwentyOneError::TurnTimerNotSet)
    } else if g.current_turn_start_timestamp->Some_0 + PLAYER_TURN_TIMEOUT_SECONDS > i64::MAX {
        Err(TwentyOneError::ArithmeticOverflow)
    } else if now <= g.current_turn_start_timestamp->Some_0 + PLAYER_TURN_TIMEOUT_SECONDS {
        Err(TwentyOneError::TurnTimeNotExpired)
    } else if seat_index as int >= g.player_seats@.len() || g.player_seats@[seat_index as int].player_pubkey is None {
        Err(TwentyOneError::SeatNotTaken)
    } else if hand_index as int >= g.player_seats@[seat_index as int].hands@.len() {
        Err(TwentyOneError::InvalidHandIndex)
    } else if hand_at(g, seat_index as int, hand_index as int).status != HandStatus::Playing {
        Err(TwentyOneError::HandActionOnFinalizedHand)
    } else if action == ForcedAction::Hit && draw_outcome(g.deck@, g.current_deck_index as nat) is None {
        Err(TwentyOneError::DeckEmpty)
    } else {
        Ok(())
    }
}

/// Forces a hit or a stand on a player whose turn timed out; the hand then
/// changes exactly as if the player had acted.
pub fn force_player_action(
    game_session: &mut GameSession,
    config: &TableAuthorityConfig,
    caller: Pubkey,
    seat_index: u8,
    hand_index: u8,
    action: ForcedAction,
    now: i64,
) -> (r: Result<(), TwentyOneError>)
    requires
        old(game_session).wf(),
    ensures
        r == spec_force(*old(game_session), *config, caller, seat_index, hand_index, action, now),
        r is Err ==> *final(game_session) == *old(game_session),
        r is Ok ==> {
            let before = hand_at(*old(game_session), seat_index as int, hand_index as int);
            let after = hand_at(*final(game_session), seat_index as int, hand_index as int);
            &&& only_hand_changed(*final(game_session), *old(game_session), seat_index as int, hand_index as int)
            &&& if action == ForcedAction::Hit {
                let card = old(game_session).deck@[old(game_session).current_deck_index as int];
                &&& final(game_session).current_deck_index == old(game_session).current_deck_index + 1
                &&& after == (Hand { cards: after.cards, status: after.status, ..before })
                &&& after.cards@ == added(before.cards@, card)
                &&& after.status == status_after_draw(after.cards@, HandStatus::Playing)
                &&& turn_after_action(*final(game_session), *old(game_session), seat_index, hand_index as int, now)
            } else {
                &&& final(game_session).current_deck_index == old(game_session).current_deck_index
                &&& after == (Hand { status: HandStatus::Stood, ..before })
                &&& turn_moved_on(*final(game_session), seat_index, now)
            }
        },
        final(game_session).wf(),
{
    if caller != config.backend_authority && caller != game_session.dealer {
        return Err(TwentyOneError::UnauthorizedForceAction);
    }
    if game_session.game_state != GameState::PlayerTurns {
        return Err(TwentyOneError::NotPlayerTurnsState);
    }
    if game_session.current_turn_seat_index != Some(seat_index) || game_session.current_turn_hand_index != Some(hand_index) {
        return Err(TwentyOneError::NotThisPlayerTurn);
    }
    let start_time = match game_session.current_turn_start_timestamp {
        Some(t) => t,
        None => {
            return Err(TwentyOneError::TurnTimerNotSet);
        },
    };
    let deadline = match start_time.checked_add(PLAYER_TURN_TIMEOUT_SECONDS) {
        Some(t) => t,
        None => {
            return Err(TwentyOneError::ArithmeticOverflow);
        },
    };
    if now <= deadline {
        return Err(TwentyOneError::TurnTimeNotExpired);
    }
    let s = seat_index as usize;
    let h = hand_index as usize;
    if s >= game_session.player_seats.len() || game_session.player_seats[s].player_pubkey.is_none() {
        return Err(TwentyOneError::SeatNotTaken);
    }
    if h >= game_session.player_seats[s].hands.len() {
        return Err(TwentyOneError::InvalidHandIndex);
    }
    if game_session.player_seats[s].hands[h].status != HandStatus::Playing {
        return Err(TwentyOneError::HandActionOnFinalizedHand);
    }
    match action {
        ForcedAction::Hit => {
            match hit_hand(game_session, seat_index, hand_index, now) {
                Ok(_) => Ok(()),
                Err(e) => Err(e),
            }
        },
        ForcedAction::Stand | ForcedAction::Split => {
            stand_hand(game_session, seat_index, hand_index, now);
            Ok(())
        },
    }
}

} // verus!
