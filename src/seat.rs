use vstd::prelude::*;
use crate::constants::MAX_HANDS_PER_PLAYER;
use crate::hand::{Hand, HandStatus};
use crate::pubkey::Pubkey;

verus! {

/// `i` is the first hand still playing.
pub open spec fn is_first_playing(hands: Seq<Hand>, i: int) -> bool {
    &&& 0 <= i < hands.len()
    &&& hands[i].status == HandStatus::Playing
    &&& forall|j: int| 0 <= j < i ==> #[trigger] hands[j].status != HandStatus::Playing
}

/// Some hand is still playing.
pub open spec fn has_playing(hands: Seq<Hand>) -> bool {
    exists|j: int| 0 <= j < hands.len() && #[trigger] hands[j].status == HandStatus::Playing
}

/// A place at the table, with the hands and the bet of its player.
#[derive(Debug)]
pub struct PlayerSeat {
    pub player_pubkey: Option<Pubkey>,
    pub is_active_in_round: bool,
    pub hands: Vec<Hand>,
    pub current_bet_token_mint: Option<Pubkey>,
    pub current_bet_amount_staked_ui: u64,
    pub current_bet_usd_value: u64,
}

impl PlayerSeat {
    /// At most two hands, each well formed; hands only while in the round,
    /// and in the round only with an occupant.
    pub open spec fn wf(&self) -> bool {
        &&& self.hands@.len() <= MAX_HANDS_PER_PLAYER
        &&& forall|h: int| 0 <= h < self.hands@.len() ==> (#[trigger] self.hands@[h]).wf()
        &&& (!self.is_active_in_round ==> self.hands@.len() == 0)
        &&& (self.player_pubkey is None ==> !self.is_active_in_round)
    }

    /// No bet and no hands; the occupant is kept.
    pub open spec fn is_reset(&self) -> bool {
        &&& !self.is_active_in_round
        &&& self.hands@.len() == 0
        &&& self.current_bet_token_mint is None
        &&& self.current_bet_amount_staked_ui == 0
        &&& self.current_bet_usd_value == 0
    }

    /// An empty seat.
    pub fn empty() -> (s: PlayerSeat)
        ensures
            s.player_pubkey is None,
            s.is_reset(),
            s.wf(),
    {
        PlayerSeat {
            player_pubkey: None,
            is_active_in_round: false,
            hands: Vec::new(),
            current_bet_token_mint: None,
            current_bet_amount_staked_ui: 0,
            current_bet_usd_value: 0,
        }
    }

    /// Clears the bet and the hands for the next round.
    pub fn reset_for_new_round(&mut self)
        ensures
            final(self).is_reset(),
            final(self).player_pubkey == old(self).player_pubkey,
            final(self).wf(),
    {
        self.is_active_in_round = false;
        self.hands.clear();
        self.current_bet_token_mint = None;
        self.current_bet_amount_staked_ui = 0;
        self.current_bet_usd_value = 0;
    }

    /// Index of the first hand still playing.
    pub fn get_first_active_hand_index(&self) -> (r: Option<usize>)
        ensures
            match r {
                Some(i) => is_first_playing(self.hands@, i as int),
                None => !has_playing(self.hands@),
            },
    {
        let mut i: usize = 0;
        while i < self.hands.len()
            invariant
                i <= self.hands@.len(),
                forall|j: int| 0 <= j < i ==> #[trigger] self.hands@[j].status != HandStatus::Playing,
            decreases self.hands@.len() - i,
        {
            if self.hands[i].status == HandStatus::Playing {
                return Some(i);
            }
            i = i + 1;
        }
        None
    }
}

} // verus!
