use vstd::prelude::*;
use crate::card::Card;
use crate::constants::{MAX_CARDS_IN_HAND, MAX_HANDS_PER_PLAYER, MAX_PLAYERS_LIMIT, NUM_DECKS, TOTAL_CARDS};
use crate::errors::TwentyOneError;
use crate::hand::{Hand, HandStatus};
use crate::pubkey::Pubkey;
use crate::seat::PlayerSeat;
use crate::shoe::{create_standard_shoe, fisher_yates_shuffle, shuffled, standard_shoe};

verus! {

/// Phase of a round.
#[derive(Clone, Copy, PartialEq, Eq, Debug, Structural)]
pub enum GameState {
    AcceptingBets,
    PlayerTurns,
    DealerTurn,
    RoundOver,
}

/// Amount of one token held for the dealer, with the value a caller claims for it.
#[derive(Clone, Copy, Debug)]
pub struct TokenBalance {
    pub mint: Pubkey,
    pub amount: u64,
    pub value_usd: u64,
    pub pyth_feed_index: u8,
}

/// Identity of the one backend trusted to deal, play the dealer and settle.
#[derive(Clone, Copy, Debug)]
pub struct TableAuthorityConfig {
    pub backend_authority: Pubkey,
    pub bump: u8,
}

/// The cards of a shoe after it is rebuilt and shuffled with `seed`.
pub open spec fn fresh_shoe(seed: Seq<u8>) -> Seq<Card> {
    shuffled(standard_shoe(NUM_DECKS as nat), seed)
}

/// Result of drawing from `deck` at `cursor`: the card there, if any is left.
pub open spec fn draw_outcome(deck: Seq<Card>, cursor: nat) -> Option<Card> {
    if cursor < deck.len() {
        Some(deck[cursor as int])
    } else {
        None
    }
}

/// Some balance of the tracker is in `mint`.
pub open spec fn tracks(t: Seq<TokenBalance>, mint: Pubkey) -> bool {
    exists|i: int| 0 <= i < t.len() && (#[trigger] t[i]).mint == mint
}

/// `i` is the first balance in `mint`.
pub open spec fn first_entry_of(t: Seq<TokenBalance>, mint: Pubkey, i: int) -> bool {
    &&& 0 <= i < t.len()
    &&& t[i].mint == mint
    &&& forall|j: int| 0 <= j < i ==> (#[trigger] t[j]).mint != mint
}

/// Index of the first balance in `mint`, where there is one.
pub open spec fn first_entry_index(t: Seq<TokenBalance>, mint: Pubkey) -> int {
    choose|i: int| first_entry_of(t, mint, i)
}

/// There is one first balance of a token.
pub proof fn lemma_first_entry_unique(t: Seq<TokenBalance>, mint: Pubkey, i: int)
    requires
        first_entry_of(t, mint, i),
    ensures
        tracks(t, mint),
        first_entry_index(t, mint) == i,
{
    assert(tracks(t, mint));
    let k = first_entry_index(t, mint);
    assert(first_entry_of(t, mint, k));
    if k < i {
        assert(t[k].mint != mint);
    } else if k > i {
        assert(t[i].mint != mint);
    }
}

/// One table: its shoe, dealer hand, seats, turn and ledger.
#[derive(Debug)]
pub struct GameSession {
    pub table_name: String,
    pub dealer: Pubkey,
    pub dealer_locked_usdc_amount: u64,
    pub game_state: GameState,
    pub deck: Vec<Card>,
    pub current_deck_index: u16,
    pub dealer_hand: Hand,
    pub player_seats: Vec<PlayerSeat>,
    pub dealer_profit_tracker: Vec<TokenBalance>,
    pub seed_elements_hash: [u8; 32],
    pub current_turn_seat_index: Option<u8>,
    pub current_turn_hand_index: Option<u8>,
    pub current_turn_start_timestamp: Option<i64>,
    pub closing_down: bool,
    pub bump: u8,
}

impl GameSession {
    /// Shape of the table: a full shoe with the cursor inside it, six seats,
    /// every hand within its size, and, while bets are taken, one fresh hand
    /// on each seat with a bet.
    pub open spec fn base_wf(&self) -> bool {
        &&& self.deck@.len() == TOTAL_CARDS
        &&& self.current_deck_index <= self.deck@.len()
        &&& self.dealer_hand.wf()
        &&& self.player_seats@.len() == MAX_PLAYERS_LIMIT
        &&& forall|s: int| 0 <= s < self.player_seats@.len() ==> (#[trigger] self.player_seats@[s]).wf()
        &&& self.game_state == GameState::AcceptingBets ==> forall|s: int|
            0 <= s < self.player_seats@.len() && (#[trigger] self.player_seats@[s]).is_active_in_round
                ==> {
                let seat = self.player_seats@[s];
                &&& seat.hands@.len() == 1
                &&& seat.hands@[0].cards@.len() == 0
                &&& seat.hands@[0].status == HandStatus::Playing
            }
    }

    /// The turn pointer: set exactly while players act, and then naming a hand
    /// still playing on a seat in the round.
    pub open spec fn turn_ok(&self) -> bool {
        &&& (self.current_turn_seat_index is Some) == (self.game_state == GameState::PlayerTurns)
        &&& (self.current_turn_hand_index is Some) == (self.current_turn_seat_index is Some)
        &&& (self.current_turn_start_timestamp is Some) == (self.current_turn_seat_index is Some)
        &&& self.current_turn_seat_index is Some ==> self.turn_target_playing()
    }

    pub open spec fn turn_target_playing(&self) -> bool {
        let s = self.current_turn_seat_index->Some_0 as int;
        let h = self.current_turn_hand_index->Some_0 as int;
        &&& s < self.player_seats@.len()
        &&& self.player_seats@[s].is_active_in_round
        &&& h < self.player_seats@[s].hands@.len()
        &&& self.player_seats@[s].hands@[h].status == HandStatus::Playing
    }

    pub open spec fn wf(&self) -> bool {
        self.base_wf() && self.turn_ok()
    }

    /// `self` is `old` with the round's hands cleared: the dealer's hand
    /// emptied and unstaked, every occupied seat reset (its occupant kept), free seats
    /// untouched and no turn pending. Everything else is as in `old`.
    pub open spec fn is_round_reset_of(&self, old: GameSession) -> bool {
        &&& *self == (GameSession {
            dealer_hand: self.dealer_hand,
            player_seats: self.player_seats,
            current_turn_seat_index: None,
            current_turn_hand_index: None,
            current_turn_start_timestamp: None,
            ..old
        })
        &&& self.dealer_hand.is_unstaked_empty()
        &&& self.player_seats@.len() == old.player_seats@.len()
        &&& forall|i: int| 0 <= i < self.player_seats@.len() ==> {
            let before = #[trigger] old.player_seats@[i];
            let after = self.player_seats@[i];
            if before.player_pubkey is Some {
                after.is_reset() && after.player_pubkey == before.player_pubkey
            } else {
                after == before
            }
        }
    }

    /// Clears every occupied seat and the dealer's hand for the next round.
    pub fn reset_hands_for_new_round(&mut self)
        ensures
            final(self).is_round_reset_of(*old(self)),
    {
        self.dealer_hand = Hand::empty();
        let mut i: usize = 0;
        while i < self.player_seats.len()
            invariant
                i <= self.player_seats@.len(),
                self.player_seats@.len() == old(self).player_seats@.len(),
                self.dealer_hand.is_unstaked_empty(),
                *self == (GameSession {
                    dealer_hand: self.dealer_hand,
                    player_seats: self.player_seats,
                    ..*old(self)
                }),
                forall|j: int| 0 <= j < self.player_seats@.len() ==> {
                    let before = #[trigger] old(self).player_seats@[j];
                    let after = self.player_seats@[j];
                    if j < i && before.player_pubkey is Some {
                        after.is_reset() && after.player_pubkey == before.player_pubkey
                    } else {
                        after == before
                    }
                },
            decreases self.player_seats@.len() - i,
        {
            if self.player_seats[i].player_pubkey.is_some() {
                self.player_seats[i].reset_for_new_round();
            }
            i = i + 1;
        }
        self.current_turn_seat_index = None;
        self.current_turn_hand_index = None;
        self.current_turn_start_timestamp = None;
    }

    /// Some seat has placed a bet this round.
    pub fn has_active_players_with_bets(&self) -> (r: bool)
        ensures
            r == exists|i: int|
                0 <= i < self.player_seats@.len() && (#[trigger] self.player_seats@[i]).is_active_in_round,
    {
        let mut i: usize = 0;
        while i < self.player_seats.len()
            invariant
                i <= self.player_seats@.len(),
                forall|j: int| 0 <= j < i ==> !(#[trigger] self.player_seats@[j]).is_active_in_round,
            decreases self.player_seats@.len() - i,
        {
            if self.player_seats[i].is_active_in_round {
                return true;
            }
            i = i + 1;
        }
        false
    }

    /// Index of the seat that `player_key` occupies, the first if several.
    pub fn find_player_seat(&self, player_key: &Pubkey) -> (r: Result<(usize, &PlayerSeat), TwentyOneError>)
        ensures
            match r {
                Ok((i, seat)) => {
                    &&& i < self.player_seats@.len()
                    &&& *seat == self.player_seats@[i as int]
                    &&& self.player_seats@[i as int].player_pubkey == Some(*player_key)
                    &&& forall|j: int| 0 <= j < i ==> (#[trigger] self.player_seats@[j]).player_pubkey != Some(*player_key)
                },
                Err(e) => {
                    &&& e == TwentyOneError::CannotFindPlayerSeat
                    &&& forall|j: int| 0 <= j < self.player_seats@.len() ==> (#[trigger] self.player_seats@[j]).player_pubkey != Some(*player_key)
                },
            },
    {
        let mut i: usize = 0;
        while i < self.player_seats.len()
            invariant
                i <= self.player_seats@.len(),
                forall|j: int| 0 <= j < i ==> (#[trigger] self.player_seats@[j]).player_pubkey != Some(*player_key),
            decreases self.player_seats@.len() - i,
        {
            match self.player_seats[i].player_pubkey {
                Some(k) => {
                    if k == *player_key {
                        return Ok((i, &self.player_seats[i]));
                    }
                },
                None => {},
            }
            i = i + 1;
        }
        Err(TwentyOneError::CannotFindPlayerSeat)
    }

    /// Tests the shape and turn invariants; callers outside the verified code
    /// use it before handing a stored table to the operations.
    pub fn is_well_formed(&self) -> (b: bool)
        ensures
            b == self.wf(),
    {
        if self.deck.len() != TOTAL_CARDS as usize || self.current_deck_index as usize > self.deck.len()
            || self.dealer_hand.cards.len() > MAX_CARDS_IN_HAND || self.player_seats.len()
            != MAX_PLAYERS_LIMIT as usize {
            return false;
        }
        let accepting = self.game_state == GameState::AcceptingBets;
        let mut i: usize = 0;
        while i < self.player_seats.len()
            invariant
                i <= self.player_seats@.len(),
                accepting == (self.game_state == GameState::AcceptingBets),
                forall|s: int| 0 <= s < i ==> (#[trigger] self.player_seats@[s]).wf(),
                accepting ==> forall|s: int|
                    0 <= s < i && (#[trigger] self.player_seats@[s]).is_active_in_round ==> {
                        let seat = self.player_seats@[s];
                        &&& seat.hands@.len() == 1
                        &&& seat.hands@[0].cards@.len() == 0
                        &&& seat.hands@[0].status == HandStatus::Playing
                    },
            decreases self.player_seats@.len() - i,
        {
            let seat = &self.player_seats[i];
            if seat.hands.len() > MAX_HANDS_PER_PLAYER || (!seat.is_active_in_round && seat.hands.len() != 0)
                || (seat.player_pubkey.is_none() && seat.is_active_in_round) {
                return false;
            }
            let mut h: usize = 0;
            while h < seat.hands.len()
                invariant
                    i < self.player_seats@.len(),
                    *seat == self.player_seats@[i as int],
                    h <= seat.hands@.len(),
                    forall|k: int| 0 <= k < h ==> (#[trigger] seat.hands@[k]).wf(),
                decreases seat.hands@.len() - h,
            {
                if seat.hands[h].cards.len() > MAX_CARDS_IN_HAND {
                    proof {
                        assert(!self.player_seats@[i as int].hands@[h as int].wf());
                        assert(!self.player_seats@[i as int].wf());
                    }
                    return false;
                }
                h = h + 1;
            }
            if accepting && seat.is_active_in_round {
                if seat.hands.len() != 1 || seat.hands[0].cards.len() != 0 || seat.hands[0].status
                    != HandStatus::Playing {
                    return false;
                }
            }
            i = i + 1;
        }
        let turns = self.game_state == GameState::PlayerTurns;
        match (self.current_turn_seat_index, self.current_turn_hand_index, self.current_turn_start_timestamp) {
            (Some(s), Some(h), Some(_)) => {
                if !turns {
                    return false;
                }
                let si = s as usize;
                let hi = h as usize;
                si < self.player_seats.len() && self.player_seats[si].is_active_in_round && hi
                    < self.player_seats[si].hands.len() && self.player_seats[si].hands[hi].status
                    == HandStatus::Playing
            },
            (None, None, None) => !turns,
            _ => false,
        }
    }

    /// Index of the first tracked balance of `mint`.
    pub fn find_profit_entry(&self, mint: &Pubkey) -> (r: Option<usize>)
        ensures
            match r {
                Some(i) => first_entry_of(self.dealer_profit_tracker@, *mint, i as int),
                None => !tracks(self.dealer_profit_tracker@, *mint),
            },
    {
        let mut i: usize = 0;
        while i < self.dealer_profit_tracker.len()
            invariant
                i <= self.dealer_profit_tracker@.len(),
                forall|j: int| 0 <= j < i ==> (#[trigger] self.dealer_profit_tracker@[j]).mint != *mint,
            decreases self.dealer_profit_tracker@.len() - i,
        {
            if self.dealer_profit_tracker[i].mint == *mint {
                return Some(i);
            }
            i = i + 1;
        }
        None
    }

    /// Adds `amount` to the dealer's profit in `token_mint`: to the first
    /// balance of that token, or as a new balance at the end.
    pub fn add_dealer_profit(&mut self, token_mint: Pubkey, amount: u64) -> (r: Result<(), TwentyOneError>)
        ensures
            *final(self) == (GameSession { dealer_profit_tracker: final(self).dealer_profit_tracker, ..*old(self) }),
            ({
                let t = old(self).dealer_profit_tracker@;
                let t2 = final(self).dealer_profit_tracker@;
                if amount == 0 {
                    r is Ok && t2 == t
                } else if tracks(t, token_mint) {
                    let i = first_entry_index(t, token_mint);
                    if t[i].amount + amount > u64::MAX {
                        r == Err::<(), TwentyOneError>(TwentyOneError::ArithmeticOverflow) && t2 == t
                    } else {
                        r is Ok && t2 == t.update(
                            i,
                            TokenBalance { amount: (t[i].amount + amount) as u64, ..t[i] },
                        )
                    }
                } else {
                    r is Ok && t2 == t.push(
                        TokenBalance { mint: token_mint, amount, value_usd: 0, pyth_feed_index: 0 },
                    )
                }
            }),
    {
        if amount == 0 {
            return Ok(());
        }
        match self.find_profit_entry(&token_mint) {
            Some(i) => {
                proof {
                    lemma_first_entry_unique(old(self).dealer_profit_tracker@, token_mint, i as int);
                }
                let cur = self.dealer_profit_tracker[i];
                match cur.amount.checked_add(amount) {
                    Some(v) => {
                        self.dealer_profit_tracker[i] = TokenBalance { amount: v, ..cur };
                        Ok(())
                    },
                    None => Err(TwentyOneError::ArithmeticOverflow),
                }
            },
            None => {
                self.dealer_profit_tracker.push(
                    TokenBalance { mint: token_mint, amount, value_usd: 0, pyth_feed_index: 0 },
                );
                Ok(())
            },
        }
    }

    /// Takes `amount` from the dealer's profit in `token_mint`; the token must
    /// be tracked with at least that much.
    pub fn reduce_dealer_profit(&mut self, token_mint: Pubkey, amount: u64) -> (r: Result<(), TwentyOneError>)
        ensures
            *final(self) == (GameSession { dealer_profit_tracker: final(self).dealer_profit_tracker, ..*old(self) }),
            ({
                let t = old(self).dealer_profit_tracker@;
                let t2 = final(self).dealer_profit_tracker@;
                if amount == 0 {
                    r is Ok && t2 == t
                } else if tracks(t, token_mint) {
                    let i = first_entry_index(t, token_mint);
                    if t[i].amount < amount {
                        r == Err::<(), TwentyOneError>(TwentyOneError::ArithmeticOverflow) && t2 == t
                    } else {
                        r is Ok && t2 == t.update(
                            i,
                            TokenBalance { amount: (t[i].amount - amount) as u64, ..t[i] },
                        )
                    }
                } else {
                    r == Err::<(), TwentyOneError>(TwentyOneError::TokenMintNotInProfitTracker) && t2 == t
                }
            }),
    {
        if amount == 0 {
            return Ok(());
        }
        match self.find_profit_entry(&token_mint) {
            Some(i) => {
                proof {
                    lemma_first_entry_unique(old(self).dealer_profit_tracker@, token_mint, i as int);
                }
                let cur = self.dealer_profit_tracker[i];
                match cur.amount.checked_sub(amount) {
                    Some(v) => {
                        self.dealer_profit_tracker[i] = TokenBalance { amount: v, ..cur };
                        Ok(())
                    },
                    None => Err(TwentyOneError::ArithmeticOverflow),
                }
            },
            None => Err(TwentyOneError::TokenMintNotInProfitTracker),
        }
    }

    /// The seat that `player_key` occupies, the first if several, to modify in place.
    pub fn find_player_seat_mut(&mut self, player_key: &Pubkey) -> (r: Result<(usize, &mut PlayerSeat), TwentyOneError>)
        ensures
            match r {
                Ok((i, seat)) => {
                    &&& i < old(self).player_seats@.len()
                    &&& old(self).player_seats@[i as int].player_pubkey == Some(*player_key)
                    &&& forall|j: int| 0 <= j < i ==> (#[trigger] old(self).player_seats@[j]).player_pubkey != Some(*player_key)
                    &&& *seat == old(self).player_seats@[i as int]
                    &&& final(self).player_seats@ == old(self).player_seats@.update(i as int, *final(seat))
                    &&& *final(self) == (GameSession { player_seats: final(self).player_seats, ..*old(self) })
                },
                Err(e) => {
                    &&& e == TwentyOneError::CannotFindPlayerSeat
                    &&& forall|j: int| 0 <= j < old(self).player_seats@.len() ==> (#[trigger] old(self).player_seats@[j]).player_pubkey != Some(*player_key)
                    &&& *final(self) == *old(self)
                },
            },
    {
        let mut i: usize = 0;
        while i < self.player_seats.len()
            invariant
                *self == *old(self),
                i <= self.player_seats@.len(),
                forall|j: int| 0 <= j < i ==> (#[trigger] self.player_seats@[j]).player_pubkey != Some(*player_key),
            decreases self.player_seats@.len() - i,
        {
            let found = match self.player_seats[i].player_pubkey {
                Some(k) => k == *player_key,
                None => false,
            };
            if found {
                return Ok((i, &mut self.player_seats[i]));
            }
            i = i + 1;
        }
        Err(TwentyOneError::CannotFindPlayerSeat)
    }

    /// Hands the next card of the shoe and advances the cursor; fails when
    /// the shoe is exhausted.
    pub fn draw_card(&mut self) -> (r: Result<Card, TwentyOneError>)
        requires
            old(self).deck@.len() <= u16::MAX,
        ensures
            match r {
                Ok(c) => {
                    &&& draw_outcome(old(self).deck@, old(self).current_deck_index as nat) == Some(c)
                    &&& *final(self) == (GameSession {
                        current_deck_index: (old(self).current_deck_index + 1) as u16,
                        ..*old(self)
                    })
                },
                Err(e) => {
                    &&& e == TwentyOneError::DeckEmpty
                    &&& draw_outcome(old(self).deck@, old(self).current_deck_index as nat) is None
                    &&& *final(self) == *old(self)
                },
            },
    {
        if self.current_deck_index as usize >= self.deck.len() {
            return Err(TwentyOneError::DeckEmpty);
        }
        let card = self.deck[self.current_deck_index as usize];
        self.current_deck_index = self.current_deck_index + 1;
        Ok(card)
    }

    /// Rebuilds the full shoe, shuffles it with `seed_elements_hash` and puts
    /// the cursor back at the start.
    pub fn shuffle_deck(&mut self, seed_elements_hash: [u8; 32])
        ensures
            *final(self) == (GameSession {
                deck: final(self).deck,
                current_deck_index: 0,
                seed_elements_hash,
                ..*old(self)
            }),
            final(self).deck@ == fresh_shoe(seed_elements_hash@),
            final(self).deck@.len() == TOTAL_CARDS,
            final(self).deck@.to_multiset() == standard_shoe(NUM_DECKS as nat).to_multiset(),
    {
        let mut deck = create_standard_shoe(NUM_DECKS);
        fisher_yates_shuffle(&mut deck, seed_elements_hash);
        self.deck = deck;
        self.current_deck_index = 0;
        self.seed_elements_hash = seed_elements_hash;
    }
}

} // verus!
