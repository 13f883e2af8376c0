use vstd::prelude::*;
use crate::card::Card;
use crate::constants::{BLACKJACK_PAYOUT_PROFIT_DENOMINATOR, BLACKJACK_PAYOUT_PROFIT_NUMERATOR};
use crate::errors::TwentyOneError;
use crate::hand::{Hand, HandStatus, score_total, spec_is_blackjack};
use crate::oracle::{
    PriceAccount, check_slippage, oracle_program_id, read_oracle_price, spec_oracle_program_id, spec_read_price,
    within_slippage,
};
use crate::pubkey::Pubkey;
use crate::session::{GameSession, GameState};

verus! {

/// How a hand ended against the dealer.
#[derive(Clone, Copy, PartialEq, Eq, Debug, Structural)]
pub enum HandOutcome {
    Win,
    Loss,
    Push,
    BlackjackWin,
    BlackjackPush,
}

/// Canonical return and outcome of a finished hand for an effective stake:
/// a busted hand loses; a blackjack pushes against a dealer blackjack and
/// otherwise returns the stake plus 13/10 of it; a standing hand wins double
/// when the dealer busts or scores less, pushes on equal scores and loses
/// otherwise. A hand still playing has no outcome; a return past 128 bits
/// is an overflow.
pub open spec fn spec_expected_return(
    status: HandStatus,
    player_score: nat,
    stake: nat,
    dealer_score: nat,
    dealer_busted: bool,
    dealer_blackjack: bool,
) -> Result<(u128, HandOutcome), TwentyOneError> {
    match status {
        HandStatus::Blackjack => if dealer_blackjack {
            Ok((stake as u128, HandOutcome::BlackjackPush))
        } else if stake * 13 > u128::MAX || stake + stake * 13 / 10 > u128::MAX {
            Err(TwentyOneError::ArithmeticOverflow)
        } else {
            Ok(((stake + stake * 13 / 10) as u128, HandOutcome::BlackjackWin))
        },
        HandStatus::Busted => Ok((0, HandOutcome::Loss)),
        HandStatus::Stood | HandStatus::DoubledAndStood => if dealer_busted || player_score > dealer_score {
            if stake * 2 > u128::MAX {
                Err(TwentyOneError::ArithmeticOverflow)
            } else {
                Ok(((stake * 2) as u128, HandOutcome::Win))
            }
        } else if player_score == dealer_score {
            Ok((stake as u128, HandOutcome::Push))
        } else {
            Ok((0, HandOutcome::Loss))
        },
        HandStatus::Playing => Err(TwentyOneError::HandActionOnFinalizedHand),
    }
}

/// Expected return in the quote currency for one hand, with its outcome.
pub fn calculate_expected_usd_return(
    hand: &Hand,
    effective_bet_usd: u128,
    dealer_final_score: u8,
    dealer_is_busted: bool,
    dealer_has_blackjack: bool,
) -> (r: Result<(u128, HandOutcome), TwentyOneError>)
    requires
        hand.wf(),
    ensures
        r == spec_expected_return(
            hand.status,
            score_total(hand.cards@),
            effective_bet_usd as nat,
            dealer_final_score as nat,
            dealer_is_busted,
            dealer_has_blackjack,
        ),
{
    let player_final_score = hand.calculate_score().0;
    match hand.status {
        HandStatus::Blackjack => {
            if dealer_has_blackjack {
                Ok((effective_bet_usd, HandOutcome::BlackjackPush))
            } else {
                let scaled = match effective_bet_usd.checked_mul(BLACKJACK_PAYOUT_PROFIT_NUMERATOR as u128) {
                    Some(v) => v,
                    None => {
                        return Err(TwentyOneError::ArithmeticOverflow);
                    },
                };
                let profit = scaled / BLACKJACK_PAYOUT_PROFIT_DENOMINATOR as u128;
                match effective_bet_usd.checked_add(profit) {
                    Some(total) => Ok((total, HandOutcome::BlackjackWin)),
                    None => Err(TwentyOneError::ArithmeticOverflow),
                }
            }
        },
        HandStatus::Busted => Ok((0, HandOutcome::Loss)),
        HandStatus::Stood | HandStatus::DoubledAndStood => {
            if dealer_is_busted || player_final_score > dealer_final_score {
                match effective_bet_usd.checked_mul(2) {
                    Some(v) => Ok((v, HandOutcome::Win)),
                    None => Err(TwentyOneError::ArithmeticOverflow),
                }
            } else if player_final_score == dealer_final_score {
                Ok((effective_bet_usd, HandOutcome::Push))
            } else {
                Ok((0, HandOutcome::Loss))
            }
        },
        HandStatus::Playing => Err(TwentyOneError::HandActionOnFinalizedHand),
    }
}

/// A backend's claim about one finished hand.
#[derive(Debug)]
pub struct PlayerHandResult {
    pub player: Pubkey,
    pub seat_index: u8,
    pub hand_index: u8,
    pub hand_cards: Vec<Card>,
    pub hand_score: u8,
    pub outcome: HandOutcome,
    /// Total returned to the player, stake included.
    pub payout: u64,
}

/// Effective stake of hand `h` of a seat in the quote currency.
pub open spec fn effective_stake_usd(bet_usd: u64, multiplier: u16) -> nat {
    (bet_usd as nat * multiplier as nat / 100) as nat
}

/// Verdict on one claim against the table: the seat must exist, be in the
/// round and belong to the claimed player; the hand must exist and hold
/// cards; the cards, the score, the outcome must equal the table's, and the
/// payout lie within the slippage tolerance of the canonical return.
pub open spec fn spec_check_result(s: GameSession, c: PlayerHandResult) -> Result<(), TwentyOneError> {
    let si = c.seat_index as int;
    let hi = c.hand_index as int;
    let seats = s.player_seats@;
    if si >= seats.len() {
        Err(TwentyOneError::InvalidSeatIndex)
    } else if seats[si].player_pubkey is None || !seats[si].is_active_in_round {
        Err(TwentyOneError::SeatNotTaken)
    } else if seats[si].player_pubkey != Some(c.player) {
        Err(TwentyOneError::PlayerMismatch)
    } else if hi >= seats[si].hands@.len() {
        Err(TwentyOneError::InvalidHandIndex)
    } else {
        let hand = seats[si].hands@[hi];
        if hand.cards@.len() == 0 {
            Err(TwentyOneError::HandNotFound)
        } else if hand.cards@ != c.hand_cards@ {
            Err(TwentyOneError::HandCardsMismatch)
        } else if score_total(hand.cards@) != c.hand_score as nat {
            Err(TwentyOneError::HandScoreMismatch)
        } else {
            match spec_expected_return(
                hand.status,
                score_total(hand.cards@),
                effective_stake_usd(seats[si].current_bet_usd_value, hand.bet_multiplier_x100),
                score_total(s.dealer_hand.cards@),
                s.dealer_hand.status == HandStatus::Busted,
                spec_is_blackjack(s.dealer_hand.cards@),
            ) {
                Err(e) => Err(e),
                Ok((expected, outcome)) => if outcome != c.outcome {
                    Err(TwentyOneError::OutcomeMismatch)
                } else if !within_slippage(expected as int, c.payout as int) {
                    Err(TwentyOneError::PayoutCalculationMismatch)
                } else {
                    Ok(())
                },
            }
        }
    }
}

/// Verdict on a batch of claims: the first failing claim's error, in order.
pub open spec fn spec_check_batch(s: GameSession, claims: Seq<PlayerHandResult>) -> Result<(), TwentyOneError>
    decreases claims.len(),
{
    if claims.len() == 0 {
        Ok(())
    } else {
        match spec_check_batch(s, claims.drop_last()) {
            Err(e) => Err(e),
            Ok(()) => spec_check_result(s, claims.last()),
        }
    }
}

/// Verdict on settling the round with the given claims.
pub open spec fn spec_resolve(s: GameSession, claims: Seq<PlayerHandResult>) -> Result<(), TwentyOneError> {
    if s.game_state != GameState::RoundOver {
        Err(TwentyOneError::NotRoundOverState)
    } else {
        spec_check_batch(s, claims)
    }
}

/// The two card sequences are equal.
pub fn cards_match(a: &Vec<Card>, b: &Vec<Card>) -> (r: bool)
    ensures
        r == (a@ == b@),
{
    if a.len() != b.len() {
        return false;
    }
    let mut i: usize = 0;
    while i < a.len()
        invariant
            a@.len() == b@.len(),
            i <= a@.len(),
            forall|j: int| 0 <= j < i ==> a@[j] == b@[j],
        decreases a@.len() - i,
    {
        if a[i] != b[i] {
            return false;
        }
        i = i + 1;
    }
    proof {
        assert(a@ =~= b@);
    }
    true
}

/// Checks one claim against the table.
pub fn check_hand_result(
    game_session: &GameSession,
    claim: &PlayerHandResult,
    dealer_final_score: u8,
    dealer_is_busted: bool,
    dealer_has_blackjack: bool,
) -> (r: Result<(), TwentyOneError>)
    requires
        game_session.wf(),
        dealer_final_score as nat == score_total(game_session.dealer_hand.cards@),
        dealer_is_busted == (game_session.dealer_hand.status == HandStatus::Busted),
        dealer_has_blackjack == spec_is_blackjack(game_session.dealer_hand.cards@),
    ensures
        r == spec_check_result(*game_session, *claim),
{
    let seat_idx = claim.seat_index as usize;
    let hand_idx = claim.hand_index as usize;
    if seat_idx >= game_session.player_seats.len() {
        return Err(TwentyOneError::InvalidSeatIndex);
    }
    let seat = &game_session.player_seats[seat_idx];
    let occupant = match seat.player_pubkey {
        Some(k) => k,
        None => {
            return Err(TwentyOneError::SeatNotTaken);
        },
    };
    if !seat.is_active_in_round {
        return Err(TwentyOneError::SeatNotTaken);
    }
    if occupant != claim.player {
        return Err(TwentyOneError::PlayerMismatch);
    }
    if hand_idx >= seat.hands.len() {
        return Err(TwentyOneError::InvalidHandIndex);
    }
    assert(seat.wf());
    let hand = &seat.hands[hand_idx];
    if hand.cards.len() == 0 {
        return Err(TwentyOneError::HandNotFound);
    }
    if !cards_match(&hand.cards, &claim.hand_cards) {
        return Err(TwentyOneError::HandCardsMismatch);
    }
    if hand.calculate_score().0 != claim.hand_score {
        return Err(TwentyOneError::HandScoreMismatch);
    }
    let bet_usd = seat.current_bet_usd_value as u128;
    let multiplier = hand.bet_multiplier_x100 as u128;
    proof {
        assert(bet_usd * multiplier <= 0x1_0000_0000_0000_0000 * 0x1_0000) by (nonlinear_arith)
            requires
                bet_usd <= u64::MAX,
                multiplier <= u16::MAX,
        ;
    }
    let effective = bet_usd * multiplier / 100;
    let (expected, outcome) = match calculate_expected_usd_return(
        hand,
        effective,
        dealer_final_score,
        dealer_is_busted,
        dealer_has_blackjack,
    ) {
        Ok(v) => v,
        Err(e) => {
            return Err(e);
        },
    };
    if outcome != claim.outcome {
        return Err(TwentyOneError::OutcomeMismatch);
    }
    if !check_slippage(expected, claim.payout as u128) {
        return Err(TwentyOneError::PayoutCalculationMismatch);
    }
    Ok(())
}

impl GameSession {
    /// Settles the round: every claim is checked against the table, and only
    /// if all pass are the hands cleared and, unless the table is closing,
    /// bets opened again. Any failure leaves the table exactly as it was.
    pub fn resolve_round(&mut self, backend_results: &Vec<PlayerHandResult>) -> (r: Result<(), TwentyOneError>)
        requires
            old(self).wf(),
        ensures
            r == spec_resolve(*old(self), backend_results@),
            r is Err ==> *final(self) == *old(self),
            r is Ok ==> {
                &&& final(self).is_round_reset_of(
                    GameSession { game_state: final(self).game_state, ..*old(self) },
                )
                &&& final(self).game_state == if old(self).closing_down {
                    GameState::RoundOver
                } else {
                    GameState::AcceptingBets
                }
            },
            final(self).wf(),
    {
        if self.game_state != GameState::RoundOver {
            return Err(TwentyOneError::NotRoundOverState);
        }
        let dealer_final_score = self.dealer_hand.calculate_score().0;
        let dealer_is_busted = self.dealer_hand.status == HandStatus::Busted;
        let dealer_has_blackjack = self.dealer_hand.is_blackjack();
        let mut i: usize = 0;
        while i < backend_results.len()
            invariant
                self.wf(),
                self.game_state == GameState::RoundOver,
                dealer_final_score as nat == score_total(self.dealer_hand.cards@),
                dealer_is_busted == (self.dealer_hand.status == HandStatus::Busted),
                dealer_has_blackjack == spec_is_blackjack(self.dealer_hand.cards@),
                i <= backend_results@.len(),
                spec_check_batch(*self, backend_results@.subrange(0, i as int)) == Ok::<(), TwentyOneError>(()),
            decreases backend_results@.len() - i,
        {
            let ghost pre = backend_results@.subrange(0, i as int);
            let ghost post = backend_results@.subrange(0, i as int + 1);
            proof {
                assert(post.drop_last() =~= pre);
                assert(post.last() == backend_results@[i as int]);
            }
            match check_hand_result(
                self,
                &backend_results[i],
                dealer_final_score,
                dealer_is_busted,
                dealer_has_blackjack,
            ) {
                Ok(()) => {},
                Err(e) => {
                    proof {
                        lemma_batch_failure_persists(*self, backend_results@, i as int + 1);
                    }
                    return Err(e);
                },
            }
            i = i + 1;
        }
        proof {
            assert(backend_results@.subrange(0, backend_results@.len() as int) =~= backend_results@);
        }
        let ghost before_reset = *self;
        self.reset_hands_for_new_round();
        if !self.closing_down {
            self.game_state = GameState::AcceptingBets;
        }
        proof {
            assert forall|s: int| 0 <= s < self.player_seats@.len() implies (#[trigger] self.player_seats@[s]).wf() && !self.player_seats@[s].is_active_in_round by {
                assert(before_reset.player_seats@[s].wf());
            }
        }
        Ok(())
    }
}

/// A transfer out of an escrow to a player's account, both named by their
/// position in the accounts handed to the call.
#[derive(Clone, Copy, Debug)]
pub struct PayoutInstruction {
    pub amount: u64,
    pub escrow_account_index: u8,
    pub player_account_index: u8,
}

/// A price a backend used, to be held against the oracle account at
/// `pyth_feed_index`.
#[derive(Clone, Copy, Debug)]
pub struct PriceValidation {
    pub pyth_feed_index: u8,
    pub expected_price: i64,
}

/// A payout as the backend prices it.
#[derive(Clone, Copy, Debug)]
pub struct Payout {
    pub payout_amount_ui: u64,
    pub payout_token_mint: Pubkey,
    pub current_price_usd: u64,
    pub player_account_index: u8,
    pub escrow_account_index: u8,
}

/// A settlement claim for one hand together with its payout and pricing.
#[derive(Debug)]
pub struct FinalizeInstruction {
    pub player: Pubkey,
    pub seat_index: u8,
    pub hand_index: u8,
    pub hand_cards: Vec<Card>,
    pub outcome: HandOutcome,
    pub payout_amount_ui: u64,
    pub expected_price: i64,
    pub player_token_account_index: u8,
    pub escrow_account_index: u8,
    pub pyth_feed_index: u8,
}

/// `a / b` rounded toward zero, for `b > 0`.
pub open spec fn div_toward_zero(a: int, b: int) -> int {
    if a >= 0 {
        a / b
    } else {
        -((-a) / b)
    }
}

/// The oracle price lies within the slippage tolerance of the expected price:
/// their distance is at most `expected * 300 / 10000`, rounded toward zero.
pub open spec fn price_within_tolerance(oracle: int, expected: int) -> bool {
    let diff = if oracle >= expected { oracle - expected } else { expected - oracle };
    diff <= div_toward_zero(expected * 300, 10000)
}

pub fn check_price_tolerance(oracle: i64, expected: i64) -> (ok: bool)
    ensures
        ok == price_within_tolerance(oracle as int, expected as int),
{
    let diff: i128 = if oracle >= expected {
        oracle as i128 - expected as i128
    } else {
        expected as i128 - oracle as i128
    };
    let scaled: i128 = expected as i128 * 300;
    let max_diff: i128 = if scaled >= 0 {
        (scaled as u128 / 10000) as i128
    } else {
        -(((-scaled) as u128 / 10000) as i128)
    };
    diff <= max_diff
}

/// Verdict on the owners of the validations' accounts: the first account not
/// owned by the oracle program fails.
pub open spec fn owners_ok(validations: Seq<PriceValidation>, feeds: Seq<PriceAccount>) -> bool {
    forall|i: int| 0 <= i < validations.len() ==> (#[trigger] feeds[validations[i].pyth_feed_index as int]).owner == spec_oracle_program_id()
}

/// Verdict on one validation once owners are known to be right.
pub open spec fn spec_validation(v: PriceValidation, feeds: Seq<PriceAccount>) -> Result<(), TwentyOneError> {
    match spec_read_price(feeds[v.pyth_feed_index as int]) {
        Err(e) => Err(e),
        Ok((price, _)) => if price_within_tolerance(price as int, v.expected_price as int) {
            Ok(())
        } else {
            Err(TwentyOneError::PayoutCalculationMismatch)
        },
    }
}

/// Verdict on all validations: owners first, then prices, in order.
pub open spec fn spec_validations(validations: Seq<PriceValidation>, feeds: Seq<PriceAccount>) -> Result<(), TwentyOneError> {
    if !owners_ok(validations, feeds) {
        Err(TwentyOneError::InvalidPriceFeedOwner)
    } else if exists|i: int| 0 <= i < validations.len() && #[trigger] spec_validation(validations[i], feeds) is Err {
        let i = choose|i: int| 0 <= i < validations.len() && spec_validation(validations[i], feeds) is Err
            && forall|j: int| 0 <= j < i ==> #[trigger] spec_validation(validations[j], feeds) is Ok;
        spec_validation(validations[i], feeds)
    } else {
        Ok(())
    }
}

/// The payouts that move funds: those with a positive amount, in order.
pub open spec fn positive_payouts(payouts: Seq<PayoutInstruction>) -> Seq<PayoutInstruction> {
    payouts.filter(|p: PayoutInstruction| p.amount > 0)
}

/// Checks the backend's prices against the oracle, then returns the transfers
/// to make: every payout with a positive amount, in order.
pub fn execute_payouts(
    payouts: &Vec<PayoutInstruction>,
    price_validations: &Vec<PriceValidation>,
    price_feeds: &Vec<PriceAccount>,
) -> (r: Result<Vec<PayoutInstruction>, TwentyOneError>)
    requires
        forall|i: int| 0 <= i < price_validations@.len() ==> (#[trigger] price_validations@[i]).pyth_feed_index < price_feeds@.len(),
    ensures
        match r {
            Ok(t) => spec_validations(price_validations@, price_feeds@) is Ok && t@ == positive_payouts(payouts@),
            Err(e) => spec_validations(price_validations@, price_feeds@) == Err::<(), TwentyOneError>(e),
        },
{
    let program = oracle_program_id();
    let mut i: usize = 0;
    while i < price_validations.len()
        invariant
            program == spec_oracle_program_id(),
            i <= price_validations@.len(),
            forall|k: int| 0 <= k < price_validations@.len() ==> (#[trigger] price_validations@[k]).pyth_feed_index < price_feeds@.len(),
            forall|k: int| 0 <= k < i ==> (#[trigger] price_feeds@[price_validations@[k].pyth_feed_index as int]).owner == spec_oracle_program_id(),
        decreases price_validations@.len() - i,
    {
        let idx = price_validations[i].pyth_feed_index as usize;
        if price_feeds[idx].owner != program {
            return Err(TwentyOneError::InvalidPriceFeedOwner);
        }
        i = i + 1;
    }
    let mut k: usize = 0;
    while k < price_validations.len()
        invariant
            owners_ok(price_validations@, price_feeds@),
            k <= price_validations@.len(),
            forall|q: int| 0 <= q < price_validations@.len() ==> (#[trigger] price_validations@[q]).pyth_feed_index < price_feeds@.len(),
            forall|j: int| 0 <= j < k ==> #[trigger] spec_validation(price_validations@[j], price_feeds@) is Ok,
        decreases price_validations@.len() - k,
    {
        let v = price_validations[k];
        let feed = &price_feeds[v.pyth_feed_index as usize];
        let price = match read_oracle_price(feed) {
            Ok((p, _)) => p,
            Err(e) => {
                proof {
                    assert(spec_validation(price_validations@[k as int], price_feeds@) is Err);
                }
                return Err(e);
            },
        };
        if !check_price_tolerance(price, v.expected_price) {
            proof {
                assert(spec_validation(price_validations@[k as int], price_feeds@) is Err);
            }
            return Err(TwentyOneError::PayoutCalculationMismatch);
        }
        k = k + 1;
    }
    let mut transfers: Vec<PayoutInstruction> = Vec::new();
    let mut n: usize = 0;
    while n < payouts.len()
        invariant
            n <= payouts@.len(),
            transfers@ == positive_payouts(payouts@.subrange(0, n as int)),
        decreases payouts@.len() - n,
    {
        let p = payouts[n];
        proof {
            let pre = payouts@.subrange(0, n as int);
            let post = payouts@.subrange(0, n as int + 1);
            assert(post.drop_last() =~= pre);
            assert(post.last() == p);
            reveal(Seq::filter);
        }
        if p.amount > 0 {
            transfers.push(p);
        }
        n = n + 1;
    }
    proof {
        assert(payouts@.subrange(0, payouts@.len() as int) =~= payouts@);
    }
    Ok(transfers)
}

/// A batch with any failing claim fails as a whole (and, by the contract of
/// `resolve_round`, leaves the table unchanged).
pub proof fn lemma_bad_claim_fails_batch(s: GameSession, claims: Seq<PlayerHandResult>, i: int)
    requires
        0 <= i < claims.len(),
        spec_check_result(s, claims[i]) is Err,
    ensures
        spec_check_batch(s, claims) is Err,
    decreases claims.len(),
{
    if i < claims.len() - 1 {
        assert(claims.drop_last()[i] == claims[i]);
        lemma_bad_claim_fails_batch(s, claims.drop_last(), i);
    }
}

/// Once a prefix of the batch fails, the whole batch fails with that error.
pub proof fn lemma_batch_failure_persists(s: GameSession, claims: Seq<PlayerHandResult>, k: int)
    requires
        0 <= k <= claims.len(),
        spec_check_batch(s, claims.subrange(0, k)) is Err,
    ensures
        spec_check_batch(s, claims) == spec_check_batch(s, claims.subrange(0, k)),
    decreases claims.len() - k,
{
    if k < claims.len() {
        let next = claims.subrange(0, k + 1);
        assert(next.drop_last() =~= claims.subrange(0, k));
        lemma_batch_failure_persists(s, claims, k + 1);
    } else {
        assert(claims.subrange(0, k) =~= claims);
    }
}

} // verus!
