use vstd::prelude::*;
use crate::card::{Card, Rank, rank_value};
use crate::constants::MAX_CARDS_IN_HAND;
use crate::errors::TwentyOneError;
use crate::pubkey::Pubkey;

verus! {

/// Where a hand stands in its round.
#[derive(Clone, Copy, PartialEq, Eq, Debug, Structural)]
pub enum HandStatus {
    Playing,
    Stood,
    Busted,
    Blackjack,
    DoubledAndStood,
}

/// Sum of the card values with every Ace counted as 1.
pub open spec fn hard_total(cards: Seq<Card>) -> nat
    decreases cards.len(),
{
    if cards.len() == 0 {
        0
    } else {
        let last = cards.last();
        hard_total(cards.drop_last()) + if last.rank == Rank::Ace {
            1nat
        } else {
            rank_value(last.rank)
        }
    }
}

/// Number of Aces among the cards.
pub open spec fn ace_count(cards: Seq<Card>) -> nat
    decreases cards.len(),
{
    if cards.len() == 0 {
        0
    } else {
        ace_count(cards.drop_last()) + if cards.last().rank == Rank::Ace {
            1nat
        } else {
            0nat
        }
    }
}

/// Aces still counted as 11 in the final score: as many as fit under 22,
/// none once the hand is over 21 with every Ace low.
pub open spec fn high_aces(cards: Seq<Card>) -> nat {
    let hard = hard_total(cards);
    if hard > 21 {
        0
    } else {
        let fit = ((21 - hard) as nat) / 10;
        if ace_count(cards) <= fit { ace_count(cards) } else { fit }
    }
}

/// Best blackjack total of the cards.
pub open spec fn score_total(cards: Seq<Card>) -> nat {
    hard_total(cards) + 10 * high_aces(cards)
}

/// A total is soft while at least one Ace still counts 11, except a
/// two-card 21: a blackjack is not soft.
pub open spec fn score_is_soft(cards: Seq<Card>) -> bool {
    high_aces(cards) > 0 && !(cards.len() == 2 && score_total(cards) == 21)
}

pub open spec fn spec_is_blackjack(cards: Seq<Card>) -> bool {
    cards.len() == 2 && score_total(cards) == 21
}

pub open spec fn spec_is_busted(cards: Seq<Card>) -> bool {
    score_total(cards) > 21
}

/// The totals never exceed what the cards' count allows.
pub proof fn lemma_totals_bounded(cards: Seq<Card>)
    ensures
        hard_total(cards) <= 10 * cards.len(),
        ace_count(cards) <= cards.len(),
        hard_total(cards) + 10 * ace_count(cards) <= 11 * cards.len(),
    decreases cards.len(),
{
    if cards.len() > 0 {
        lemma_totals_bounded(cards.drop_last());
    }
}

/// Status a hand takes after a card is drawn: over 21 it is busted; at 21 it
/// stands, unless it already holds a blackjack; otherwise it is unchanged.
pub open spec fn status_after_draw(cards: Seq<Card>, status: HandStatus) -> HandStatus {
    if spec_is_busted(cards) {
        HandStatus::Busted
    } else if score_total(cards) == 21 && status != HandStatus::Blackjack {
        HandStatus::Stood
    } else {
        status
    }
}

/// One hand of cards held by a seat or by the dealer, with its stake.
#[derive(Debug)]
pub struct Hand {
    pub cards: Vec<Card>,
    pub status: HandStatus,
    /// Stake multiplier in hundredths: 100 is the stake, 200 after doubling.
    pub bet_multiplier_x100: u16,
    pub token_mint_for_bet: Pubkey,
    pub original_bet_amount: u64,
}

impl Hand {
    pub open spec fn wf(&self) -> bool {
        self.cards@.len() <= MAX_CARDS_IN_HAND
    }

    /// The dealer's hand at the start of a round: no cards, playing, and no
    /// stake (multiplier 0, amount 0, the all-zero mint).
    pub open spec fn is_unstaked_empty(&self) -> bool {
        &&& self.cards@.len() == 0
        &&& self.status == HandStatus::Playing
        &&& self.bet_multiplier_x100 == 0
        &&& self.token_mint_for_bet.bytes@ == Seq::new(32, |i: int| 0u8)
        &&& self.original_bet_amount == 0
    }

    /// A fresh hand: no cards, playing, multiplier 1.0x.
    pub open spec fn is_fresh(&self, mint: Pubkey, amount: u64) -> bool {
        &&& self.cards@.len() == 0
        &&& self.status == HandStatus::Playing
        &&& self.bet_multiplier_x100 == 100
        &&& self.token_mint_for_bet == mint
        &&& self.original_bet_amount == amount
    }

    /// A new empty hand staking `bet_amount` of `token_mint`.
    pub fn new(token_mint: Pubkey, bet_amount: u64) -> (h: Hand)
        ensures
            h.is_fresh(token_mint, bet_amount),
            h.wf(),
    {
        Hand {
            cards: Vec::with_capacity(MAX_CARDS_IN_HAND),
            status: HandStatus::Playing,
            bet_multiplier_x100: 100,
            token_mint_for_bet: token_mint,
            original_bet_amount: bet_amount,
        }
    }

    /// The dealer's empty hand: no cards, playing, no stake.
    pub fn empty() -> (h: Hand)
        ensures
            h.is_unstaked_empty(),
            h.wf(),
    {
        let h = Hand {
            cards: Vec::new(),
            status: HandStatus::Playing,
            bet_multiplier_x100: 0,
            token_mint_for_bet: Pubkey { bytes: [0u8; 32] },
            original_bet_amount: 0,
        };
        proof {
            assert(h.token_mint_for_bet.bytes@ =~= Seq::new(32, |i: int| 0u8));
        }
        h
    }

    /// Appends the card unless the hand already holds the most cards allowed.
    pub fn add_card(&mut self, card: Card)
        ensures
            final(self).cards@ == if old(self).cards@.len() < MAX_CARDS_IN_HAND {
                old(self).cards@.push(card)
            } else {
                old(self).cards@
            },
            final(self).status == old(self).status,
            final(self).bet_multiplier_x100 == old(self).bet_multiplier_x100,
            final(self).token_mint_for_bet == old(self).token_mint_for_bet,
            final(self).original_bet_amount == old(self).original_bet_amount,
    {
        if self.cards.len() < MAX_CARDS_IN_HAND {
            self.cards.push(card);
        }
    }

    /// Total of the hand and whether it is soft.
    pub fn calculate_score(&self) -> (r: (u8, bool))
        requires
            self.wf(),
        ensures
            r.0 as nat == score_total(self.cards@),
            r.1 == score_is_soft(self.cards@),
    {
        let ghost cards = self.cards@;
        let mut total: u16 = 0;
        let mut aces: u16 = 0;
        let mut i: usize = 0;
        while i < self.cards.len()
            invariant
                cards == self.cards@,
                cards.len() <= MAX_CARDS_IN_HAND,
                i <= cards.len(),
                total as nat == hard_total(cards.subrange(0, i as int)) + 10 * ace_count(
                    cards.subrange(0, i as int),
                ),
                aces as nat == ace_count(cards.subrange(0, i as int)),
                total <= 11 * i,
            decreases cards.len() - i,
        {
            let card = self.cards[i];
            proof {
                let pre = cards.subrange(0, i as int);
                let post = cards.subrange(0, i as int + 1);
                assert(post.drop_last() =~= pre);
                assert(post.last() == card);
            }
            total = total + card.default_value() as u16;
            if card.is_ace() {
                aces = aces + 1;
            }
            i = i + 1;
        }
        proof {
            assert(cards.subrange(0, cards.len() as int) =~= cards);
            lemma_totals_bounded(cards);
        }
        let ghost hard = hard_total(cards);
        let ghost count = ace_count(cards);
        let mut high: u16 = aces;
        while total > 21 && high > 0
            invariant
                total as nat == hard + 10 * high,
                high <= count,
                high < count ==> total + 10 > 21,
                hard + 10 * count <= 121,
            decreases high,
        {
            total = total - 10;
            high = high - 1;
        }
        let soft = high > 0 && !(self.cards.len() == 2 && total == 21);
        proof {
            assert(high as nat == high_aces(cards));
        }
        (total as u8, soft)
    }

    /// Two cards totalling 21.
    pub fn is_blackjack(&self) -> (b: bool)
        requires
            self.wf(),
        ensures
            b == spec_is_blackjack(self.cards@),
    {
        self.cards.len() == 2 && self.calculate_score().0 == 21
    }

    /// Total over 21.
    pub fn is_busted(&self) -> (b: bool)
        requires
            self.wf(),
        ensures
            b == spec_is_busted(self.cards@),
    {
        self.calculate_score().0 > 21
    }

    /// Marks the hand busted over 21, or stood at 21 (a blackjack is kept).
    pub fn update_status_after_card_drawn(&mut self)
        requires
            old(self).wf(),
        ensures
            final(self).status == status_after_draw(old(self).cards@, old(self).status),
            final(self).cards == old(self).cards,
            final(self).bet_multiplier_x100 == old(self).bet_multiplier_x100,
            final(self).token_mint_for_bet == old(self).token_mint_for_bet,
            final(self).original_bet_amount == old(self).original_bet_amount,
    {
        if self.is_busted() {
            self.status = HandStatus::Busted;
        } else if self.calculate_score().0 == 21 {
            if self.status != HandStatus::Blackjack {
                self.status = HandStatus::Stood;
            }
        }
    }

    /// The stake scaled by the multiplier: `original_bet_amount * multiplier / 100`.
    pub fn get_effective_bet(&self) -> (r: Result<u64, TwentyOneError>)
        ensures
            r is Err <==> self.original_bet_amount as int * self.bet_multiplier_x100 as int > u64::MAX,
            match r {
                Ok(v) => v as int == self.original_bet_amount as int * self.bet_multiplier_x100 as int
                    / 100,
                Err(e) => e == TwentyOneError::ArithmeticOverflow && self.original_bet_amount as int
                    * self.bet_multiplier_x100 as int > u64::MAX,
            },
    {
        match self.original_bet_amount.checked_mul(self.bet_multiplier_x100 as u64) {
            Some(p) => Ok(p / 100),
            None => Err(TwentyOneError::ArithmeticOverflow),
        }
    }
}

} // verus!
