use vstd::prelude::*;
use crate::constants::MAX_PLAYERS_LIMIT;
use crate::errors::TwentyOneError;
use crate::hand::HandStatus;
use crate::pubkey::Pubkey;
use crate::seat::{PlayerSeat, has_playing, is_first_playing};
use crate::session::{GameSession, GameState};

verus! {

/// Result of checking that `player` occupies seat `seat_index`.
pub open spec fn spec_player_at_seat(s: GameSession, player: Pubkey, seat_index: u8) -> Result<(), TwentyOneError> {
    if seat_index as int >= s.player_seats@.len() {
        Err(TwentyOneError::InvalidSeatIndex)
    } else if s.player_seats@[seat_index as int].player_pubkey != Some(player) {
        Err(TwentyOneError::PlayerNotAtSeatIndex)
    } else {
        Ok(())
    }
}

/// Result of checking that `player` may act on hand `hand_index` of seat
/// `seat_index` now: players are acting, the turn is at that seat and hand,
/// the player sits there, and the hand exists and is still playing.
pub open spec fn spec_player_turn_and_hand(s: GameSession, player: Pubkey, seat_index: u8, hand_index: u8) -> Result<(), TwentyOneError> {
    if s.game_state != GameState::PlayerTurns {
        Err(TwentyOneError::NotPlayerTurnsState)
    } else if s.current_turn_seat_index != Some(seat_index) {
        Err(TwentyOneError::WrongSeatForTurn)
    } else if s.current_turn_hand_index != Some(hand_index) {
        Err(TwentyOneError::WrongHandForTurn)
    } else if spec_player_at_seat(s, player, seat_index) is Err {
        spec_player_at_seat(s, player, seat_index)
    } else if hand_index as int >= s.player_seats@[seat_index as int].hands@.len() {
        Err(TwentyOneError::InvalidHandIndex)
    } else if s.player_seats@[seat_index as int].hands@[hand_index as int].status != HandStatus::Playing {
        Err(TwentyOneError::HandActionOnFinalizedHand)
    } else {
        Ok(())
    }
}

/// The dealer identity of the table signed.
pub fn verify_dealer_signer(game_session: &GameSession, dealer_signer: &Pubkey) -> (r: Result<(), TwentyOneError>)
    ensures
        r is Ok <==> game_session.dealer == *dealer_signer,
        r is Err ==> r == Err::<(), TwentyOneError>(TwentyOneError::DealerNotSigner),
{
    if game_session.dealer != *dealer_signer {
        return Err(TwentyOneError::DealerNotSigner);
    }
    Ok(())
}

pub fn verify_player_at_seat(game_session: &GameSession, player: &Pubkey, seat_index: u8) -> (r: Result<(), TwentyOneError>)
    ensures
        r == spec_player_at_seat(*game_session, *player, seat_index),
{
    let seat_idx = seat_index as usize;
    if seat_idx >= game_session.player_seats.len() {
        return Err(TwentyOneError::InvalidSeatIndex);
    }
    match game_session.player_seats[seat_idx].player_pubkey {
        Some(key) => {
            if key == *player {
                Ok(())
            } else {
                Err(TwentyOneError::PlayerNotAtSeatIndex)
            }
        },
        None => Err(TwentyOneError::PlayerNotAtSeatIndex),
    }
}

pub fn verify_player_turn_and_hand(game_session: &GameSession, player: &Pubkey, seat_index: u8, hand_index: u8) -> (r: Result<(), TwentyOneError>)
    ensures
        r == spec_player_turn_and_hand(*game_session, *player, seat_index, hand_index),
{
    if game_session.game_state != GameState::PlayerTurns {
        return Err(TwentyOneError::NotPlayerTurnsState);
    }
    match game_session.current_turn_seat_index {
        Some(current) => {
            if current != seat_index {
                return Err(TwentyOneError::WrongSeatForTurn);
            }
        },
        None => {
            return Err(TwentyOneError::WrongSeatForTurn);
        },
    }
    match game_session.current_turn_hand_index {
        Some(current) => {
            if current != hand_index {
                return Err(TwentyOneError::WrongHandForTurn);
            }
        },
        None => {
            return Err(TwentyOneError::WrongHandForTurn);
        },
    }
    match verify_player_at_seat(game_session, player, seat_index) {
        Ok(()) => {},
        Err(e) => {
            return Err(e);
        },
    }
    let seat = &game_session.player_seats[seat_index as usize];
    if hand_index as usize >= seat.hands.len() {
        return Err(TwentyOneError::InvalidHandIndex);
    }
    if seat.hands[hand_index as usize].status != HandStatus::Playing {
        return Err(TwentyOneError::HandActionOnFinalizedHand);
    }
    Ok(())
}

/// A seat that can take the turn: in the round with a hand still playing.
pub open spec fn can_take_turn(seat: PlayerSeat) -> bool {
    seat.is_active_in_round && has_playing(seat.hands@)
}

/// Seat reached `i` steps after `current`, wrapping around the table.
pub open spec fn seat_after(current: int, i: int) -> int {
    (current + i) % (MAX_PLAYERS_LIMIT as int)
}

/// `next` is where the turn goes from seat `current`: the same seat while it
/// still has a hand playing, else the first seat after it, wrapping around
/// once, that can take the turn.
pub open spec fn is_next_seat(seats: Seq<PlayerSeat>, current: int, next: int) -> bool {
    if has_playing(seats[current].hands@) {
        next == current
    } else {
        exists|i: int|
            1 <= i < MAX_PLAYERS_LIMIT && next == seat_after(current, i) && can_take_turn(seats[next])
                && forall|j: int| 1 <= j < i ==> !can_take_turn(#[trigger] seats[seat_after(current, j)])
    }
}

/// No seat can take the turn after `current`.
pub open spec fn no_next_seat(seats: Seq<PlayerSeat>, current: int) -> bool {
    &&& !has_playing(seats[current].hands@)
    &&& forall|i: int| 1 <= i < MAX_PLAYERS_LIMIT ==> !can_take_turn(#[trigger] seats[seat_after(current, i)])
}

/// In `s` the turn has left seat `from`: it stands at the next seat that can
/// act (see `is_next_seat`), on its first hand still playing, timed from
/// `ts`; or, with no such seat, the dealer plays and no turn is pending.
pub open spec fn turn_moved_on(s: GameSession, from: u8, ts: i64) -> bool {
    match s.current_turn_seat_index {
        Some(n) => {
            &&& is_next_seat(s.player_seats@, from as int, n as int)
            &&& is_first_playing(s.player_seats@[n as int].hands@, s.current_turn_hand_index->Some_0 as int)
            &&& s.game_state == GameState::PlayerTurns
            &&& s.current_turn_start_timestamp == Some(ts)
        },
        None => {
            &&& no_next_seat(s.player_seats@, from as int)
            &&& s.game_state == GameState::DealerTurn
            &&& s.current_turn_hand_index is None
            &&& s.current_turn_start_timestamp is None
        },
    }
}

impl GameSession {
    /// Everything but the turn pointer and the game state is as in `old`.
    pub open spec fn same_but_turn(&self, old: GameSession) -> bool {
        *self == (GameSession {
            current_turn_seat_index: self.current_turn_seat_index,
            current_turn_hand_index: self.current_turn_hand_index,
            current_turn_start_timestamp: self.current_turn_start_timestamp,
            game_state: self.game_state,
            ..old
        })
    }
}

/// Passes the turn on once the current hand is finished: to the next hand of
/// the same seat, else to the next seat that can act, else to the dealer.
pub fn determine_next_player_or_transition_to_dealer(game_session: &mut GameSession, turn_start_timestamp: i64)
    requires
        old(game_session).base_wf(),
        old(game_session).game_state == GameState::PlayerTurns,
        old(game_session).current_turn_seat_index matches Some(c) ==> c < MAX_PLAYERS_LIMIT && old(
            game_session,
        ).player_seats@[c as int].is_active_in_round,
    ensures
        final(game_session).same_but_turn(*old(game_session)),
        final(game_session).wf(),
        match old(game_session).current_turn_seat_index {
            Some(c) => turn_moved_on(*final(game_session), c, turn_start_timestamp),
            None => {
                &&& final(game_session).game_state == GameState::DealerTurn
                &&& final(game_session).current_turn_seat_index is None
                &&& final(game_session).current_turn_hand_index is None
                &&& final(game_session).current_turn_start_timestamp is None
            },
        },
{
    let current = match game_session.current_turn_seat_index {
        Some(c) => c,
        None => {
            game_session.game_state = GameState::DealerTurn;
            game_session.current_turn_hand_index = None;
            game_session.current_turn_start_timestamp = None;
            return;
        },
    };
    let current_idx = current as usize;
    match game_session.player_seats[current_idx].get_first_active_hand_index() {
        Some(h) => {
            game_session.current_turn_hand_index = Some(h as u8);
            game_session.current_turn_start_timestamp = Some(turn_start_timestamp);
            return;
        },
        None => {},
    }
    let mut i: u8 = 1;
    while i < MAX_PLAYERS_LIMIT
        invariant
            1 <= i <= MAX_PLAYERS_LIMIT,
            current_idx == current as usize,
            current < MAX_PLAYERS_LIMIT,
            *game_session == *old(game_session),
            old(game_session).base_wf(),
            old(game_session).game_state == GameState::PlayerTurns,
            game_session.player_seats@.len() == MAX_PLAYERS_LIMIT as int,
            old(game_session).current_turn_seat_index == Some(current),
            !has_playing(game_session.player_seats@[current as int].hands@),
            forall|j: int| 1 <= j < i ==> !can_take_turn(#[trigger] game_session.player_seats@[seat_after(current as int, j)]),
        decreases MAX_PLAYERS_LIMIT - i,
    {
        let next = (current_idx + i as usize) % (MAX_PLAYERS_LIMIT as usize);
        if game_session.player_seats[next].is_active_in_round {
            match game_session.player_seats[next].get_first_active_hand_index() {
                Some(h) => {
                    proof {
                        let seats = old(game_session).player_seats@;
                        assert(next as int == seat_after(current as int, i as int));
                        assert(seats[next as int].hands@[h as int].status == HandStatus::Playing);
                        assert(can_take_turn(seats[next as int]));
                        assert(is_next_seat(seats, current as int, next as int));
                    }
                    game_session.current_turn_seat_index = Some(next as u8);
                    game_session.current_turn_hand_index = Some(h as u8);
                    game_session.current_turn_start_timestamp = Some(turn_start_timestamp);
                    return;
                },
                None => {},
            }
        }
        i = i + 1;
    }
    game_session.game_state = GameState::DealerTurn;
    game_session.current_turn_seat_index = None;
    game_session.current_turn_hand_index = None;
    game_session.current_turn_start_timestamp = None;
}

} // verus!
