use vstd::prelude::*;
use crate::card::Card;
use crate::constants::{
    DECK_RESHUFFLE_THRESHOLD_INDEX, MAX_CARDS_IN_HAND, MAX_PLAYERS_LIMIT, MIN_PLAYERS_FOR_DEAL, TOTAL_CARDS,
};
use crate::errors::TwentyOneError;
use crate::hand::{Hand, HandStatus, score_is_soft, score_total, spec_is_blackjack};
use crate::actions::added;
use crate::settlement::{PlayerHandResult, spec_resolve};
use crate::turn::verify_dealer_signer;
use crate::pubkey::Pubkey;
use crate::seat::PlayerSeat;
use crate::session::{GameSession, GameState, TableAuthorityConfig, fresh_shoe};
use crate::shoe::{generate_shuffle_seed_hash, seed_material, sha256_of};

verus! {

/// Number of seats before index `i` that are in the round.
pub open spec fn active_before(seats: Seq<PlayerSeat>, i: int) -> nat
    decreases i,
{
    if i <= 0 {
        0
    } else {
        active_before(seats, i - 1) + if seats[i - 1].is_active_in_round {
            1nat
        } else {
            0nat
        }
    }
}

/// Seats with the same round flags count the same.
pub proof fn lemma_active_before_same(a: Seq<PlayerSeat>, b: Seq<PlayerSeat>, i: int)
    requires
        0 <= i <= a.len(),
        a.len() == b.len(),
        forall|s: int| 0 <= s < a.len() ==> (#[trigger] a[s]).is_active_in_round == b[s].is_active_in_round,
    ensures
        active_before(a, i) == active_before(b, i),
    decreases i,
{
    if i > 0 {
        lemma_active_before_same(a, b, i - 1);
    }
}

pub proof fn lemma_active_before_monotonic(seats: Seq<PlayerSeat>, i: int, j: int)
    requires
        0 <= i <= j,
    ensures
        active_before(seats, i) <= active_before(seats, j),
        active_before(seats, j) <= active_before(seats, i) + (j - i),
    decreases j - i,
{
    if i < j {
        lemma_active_before_monotonic(seats, i, j - 1);
    }
}

/// Seats in the round.
pub open spec fn active_count(seats: Seq<PlayerSeat>) -> nat {
    active_before(seats, seats.len() as int)
}

/// Seat `i` gained card `card` on its first hand, all else equal.
pub open spec fn seat_got_card(new: PlayerSeat, old: PlayerSeat, card: Card) -> bool {
    &&& new == (PlayerSeat { hands: new.hands, ..old })
    &&& new.hands@.len() == old.hands@.len()
    &&& new.hands@.len() >= 1
    &&& new.hands@[0] == (Hand { cards: new.hands@[0].cards, ..old.hands@[0] })
    &&& new.hands@[0].cards@ == old.hands@[0].cards@.push(card)
    &&& forall|h: int| 1 <= h < new.hands@.len() ==> #[trigger] new.hands@[h] == old.hands@[h]
}

/// One pass of the deal: each seat in the round, in seat order, receives the
/// next card of the shoe on its first hand.
fn deal_pass(game_session: &mut GameSession, cards_held: Ghost<nat>)
    requires
        old(game_session).deck@.len() == TOTAL_CARDS,
        old(game_session).player_seats@.len() == MAX_PLAYERS_LIMIT,
        cards_held@ < MAX_CARDS_IN_HAND,
        forall|s: int| 0 <= s < old(game_session).player_seats@.len() && (#[trigger] old(game_session).player_seats@[s]).is_active_in_round
            ==> old(game_session).player_seats@[s].hands@.len() == 1 && old(game_session).player_seats@[s].hands@[0].cards@.len() == cards_held@,
        old(game_session).current_deck_index + active_count(old(game_session).player_seats@) <= old(game_session).deck@.len(),
    ensures
        *final(game_session) == (GameSession {
            player_seats: final(game_session).player_seats,
            current_deck_index: final(game_session).current_deck_index,
            ..*old(game_session)
        }),
        final(game_session).current_deck_index == old(game_session).current_deck_index + active_count(old(game_session).player_seats@),
        final(game_session).player_seats@.len() == old(game_session).player_seats@.len(),
        forall|s: int| 0 <= s < old(game_session).player_seats@.len() ==> {
            let before = #[trigger] old(game_session).player_seats@[s];
            let after = final(game_session).player_seats@[s];
            if before.is_active_in_round {
                seat_got_card(after, before, old(game_session).deck@[old(game_session).current_deck_index + active_before(old(game_session).player_seats@, s)])
            } else {
                after == before
            }
        },
{
    let ghost seats0 = old(game_session).player_seats@;
    let ghost c0 = old(game_session).current_deck_index as int;
    let mut i: usize = 0;
    while i < game_session.player_seats.len()
        invariant
            i <= seats0.len(),
            seats0.len() == MAX_PLAYERS_LIMIT,
            old(game_session).deck@.len() == TOTAL_CARDS,
            cards_held@ < MAX_CARDS_IN_HAND,
            forall|s: int| 0 <= s < seats0.len() && (#[trigger] seats0[s]).is_active_in_round
                ==> seats0[s].hands@.len() == 1 && seats0[s].hands@[0].cards@.len() == cards_held@,
            c0 + active_count(seats0) <= old(game_session).deck@.len(),
            seats0 == old(game_session).player_seats@,
            c0 == old(game_session).current_deck_index,
            *game_session == (GameSession {
                player_seats: game_session.player_seats,
                current_deck_index: game_session.current_deck_index,
                ..*old(game_session)
            }),
            game_session.current_deck_index == c0 + active_before(seats0, i as int),
            game_session.player_seats@.len() == seats0.len(),
            forall|s: int| 0 <= s < seats0.len() ==> {
                let before = #[trigger] seats0[s];
                let after = game_session.player_seats@[s];
                if s < i && before.is_active_in_round {
                    seat_got_card(after, before, old(game_session).deck@[c0 + active_before(seats0, s)])
                } else {
                    after == before
                }
            },
        decreases seats0.len() - i,
    {
        proof {
            lemma_active_before_monotonic(seats0, i as int + 1, seats0.len() as int);
        }
        if game_session.player_seats[i].is_active_in_round {
            let card = match game_session.draw_card() {
                Ok(c) => c,
                Err(_) => {
                    proof {
                        assert(false);
                    }
                    return;
                },
            };
            game_session.player_seats[i].hands[0].add_card(card);
        }
        i = i + 1;
    }
}

/// Whether seat `s` is dealt in and its first hand is not a blackjack.
pub open spec fn must_act(seat: PlayerSeat) -> bool {
    seat.is_active_in_round && seat.hands@.len() >= 1 && seat.hands@[0].status != HandStatus::Blackjack
}

/// `i` is the first seat that must act.
pub open spec fn is_first_to_act(seats: Seq<PlayerSeat>, i: int) -> bool {
    &&& 0 <= i < seats.len()
    &&& must_act(seats[i])
    &&& forall|j: int| 0 <= j < i ==> !must_act(#[trigger] seats[j])
}

/// `new` is `old` with the opening cards dealt from `old`'s shoe and cursor:
/// with `m` seats in the round and `c` the cursor, the `k`-th seat in the
/// round receives cards `c + k` and `c + m + 1 + k`, the dealer cards
/// `c + m` and `c + 2m + 1`; a two-card 21 is marked a blackjack. Play then
/// starts at the first seat without one, or the round is over at once.
pub open spec fn dealt_from(new: GameSession, old: GameSession, timestamp: i64) -> bool {
    let seats = old.player_seats@;
    let d = old.deck@;
    let c = old.current_deck_index as int;
    let m = active_count(seats) as int;
    &&& new == (GameSession {
        player_seats: new.player_seats,
        current_deck_index: new.current_deck_index,
        dealer_hand: new.dealer_hand,
        game_state: new.game_state,
        current_turn_seat_index: new.current_turn_seat_index,
        current_turn_hand_index: new.current_turn_hand_index,
        current_turn_start_timestamp: new.current_turn_start_timestamp,
        ..old
    })
    &&& new.current_deck_index == c + 2 * m + 2
    &&& new.dealer_hand.cards@ == seq![d[c + m], d[c + 2 * m + 1]]
    &&& new.dealer_hand.status == HandStatus::Playing
    &&& new.dealer_hand.bet_multiplier_x100 == 0
    &&& new.dealer_hand.token_mint_for_bet.bytes@ == Seq::new(32, |i: int| 0u8)
    &&& new.dealer_hand.original_bet_amount == 0
    &&& new.player_seats@.len() == seats.len()
    &&& forall|s: int| 0 <= s < seats.len() ==> {
        let before = #[trigger] seats[s];
        let after = new.player_seats@[s];
        let k = active_before(seats, s) as int;
        if before.is_active_in_round {
            let cards = seq![d[c + k], d[c + m + 1 + k]];
            &&& after == (PlayerSeat { hands: after.hands, ..before })
            &&& after.hands@.len() == 1
            &&& after.hands@[0] == (Hand {
                cards: after.hands@[0].cards,
                status: after.hands@[0].status,
                ..before.hands@[0]
            })
            &&& after.hands@[0].cards@ == cards
            &&& after.hands@[0].status == if spec_is_blackjack(cards) {
                HandStatus::Blackjack
            } else {
                HandStatus::Playing
            }
        } else {
            after == before
        }
    }
    &&& if exists|i: int| is_first_to_act(new.player_seats@, i) {
        &&& new.game_state == GameState::PlayerTurns
        &&& is_first_to_act(new.player_seats@, new.current_turn_seat_index->Some_0 as int)
        &&& new.current_turn_seat_index is Some
        &&& new.current_turn_hand_index == Some(0u8)
        &&& new.current_turn_start_timestamp == Some(timestamp)
    } else {
        &&& new.game_state == GameState::RoundOver
        &&& new.current_turn_seat_index is None
        &&& new.current_turn_hand_index is None
        &&& new.current_turn_start_timestamp is None
    }
}

/// Verdict on dealing.
pub open spec fn spec_deal(s: GameSession, config: TableAuthorityConfig, backend: Pubkey) -> Result<(), TwentyOneError> {
    if backend != config.backend_authority {
        Err(TwentyOneError::BackendSignerMismatch)
    } else if s.game_state != GameState::AcceptingBets {
        Err(TwentyOneError::InvalidGameStateForDeal)
    } else if active_count(s.player_seats@) < MIN_PLAYERS_FOR_DEAL {
        Err(TwentyOneError::NotEnoughPlayers)
    } else {
        Ok(())
    }
}

/// Marks every two-card 21 on a first hand in the round as a blackjack.
fn mark_blackjacks(game_session: &mut GameSession)
    requires
        old(game_session).player_seats@.len() == MAX_PLAYERS_LIMIT,
        forall|s: int| 0 <= s < old(game_session).player_seats@.len() && (#[trigger] old(game_session).player_seats@[s]).is_active_in_round
            ==> old(game_session).player_seats@[s].hands@.len() == 1 && old(game_session).player_seats@[s].hands@[0].wf(),
    ensures
        *final(game_session) == (GameSession { player_seats: final(game_session).player_seats, ..*old(game_session) }),
        final(game_session).player_seats@.len() == old(game_session).player_seats@.len(),
        forall|s: int| 0 <= s < old(game_session).player_seats@.len() ==> {
            let before = #[trigger] old(game_session).player_seats@[s];
            let after = final(game_session).player_seats@[s];
            if before.is_active_in_round {
                &&& after == (PlayerSeat { hands: after.hands, ..before })
                &&& after.hands@.len() == 1
                &&& after.hands@[0] == (Hand { status: after.hands@[0].status, ..before.hands@[0] })
                &&& after.hands@[0].status == if spec_is_blackjack(before.hands@[0].cards@) {
                    HandStatus::Blackjack
                } else {
                    before.hands@[0].status
                }
            } else {
                after == before
            }
        },
{
    let ghost seats0 = old(game_session).player_seats@;
    let mut i: usize = 0;
    while i < game_session.player_seats.len()
        invariant
            i <= seats0.len(),
            seats0 == old(game_session).player_seats@,
            forall|s: int| 0 <= s < seats0.len() && (#[trigger] seats0[s]).is_active_in_round
                ==> seats0[s].hands@.len() == 1 && seats0[s].hands@[0].wf(),
            *game_session == (GameSession { player_seats: game_session.player_seats, ..*old(game_session) }),
            game_session.player_seats@.len() == seats0.len(),
            forall|s: int| 0 <= s < seats0.len() ==> {
                let before = #[trigger] seats0[s];
                let after = game_session.player_seats@[s];
                if s < i && before.is_active_in_round {
                    &&& after == (PlayerSeat { hands: after.hands, ..before })
                    &&& after.hands@.len() == 1
                    &&& after.hands@[0] == (Hand { status: after.hands@[0].status, ..before.hands@[0] })
                    &&& after.hands@[0].status == if spec_is_blackjack(before.hands@[0].cards@) {
                        HandStatus::Blackjack
                    } else {
                        before.hands@[0].status
                    }
                } else {
                    after == before
                }
            },
        decreases seats0.len() - i,
    {
        proof {
            assert(game_session.player_seats@[i as int] == seats0[i as int]);
        }
        if game_session.player_seats[i].is_active_in_round {
            if game_session.player_seats[i].hands[0].is_blackjack() {
                game_session.player_seats[i].hands[0].status = HandStatus::Blackjack;
            }
        }
        i = i + 1;
    }
}

/// The first seat that must act, if any.
fn first_to_act(seats: &Vec<PlayerSeat>) -> (r: Option<usize>)
    ensures
        match r {
            Some(i) => is_first_to_act(seats@, i as int),
            None => forall|i: int| 0 <= i < seats@.len() ==> !must_act(#[trigger] seats@[i]),
        },
{
    let mut i: usize = 0;
    while i < seats.len()
        invariant
            i <= seats@.len(),
            forall|j: int| 0 <= j < i ==> !must_act(#[trigger] seats@[j]),
        decreases seats@.len() - i,
    {
        if seats[i].is_active_in_round && seats[i].hands.len() >= 1 && seats[i].hands[0].status
            != HandStatus::Blackjack {
            return Some(i);
        }
        i = i + 1;
    }
    None
}

/// Counts the seats in the round.
fn count_active(seats: &Vec<PlayerSeat>) -> (n: usize)
    ensures
        n == active_count(seats@),
{
    let mut n: usize = 0;
    let mut i: usize = 0;
    while i < seats.len()
        invariant
            i <= seats@.len(),
            n == active_before(seats@, i as int),
            n <= i,
        decreases seats@.len() - i,
    {
        if seats[i].is_active_in_round {
            n = n + 1;
        }
        i = i + 1;
    }
    n
}

/// Deals the opening cards (see `dealt_from`), rebuilding the shoe first
/// when it has run down to the threshold.
pub fn deal_initial_cards(
    game_session: &mut GameSession,
    config: &TableAuthorityConfig,
    backend_signer: Pubkey,
    slot: u64,
    timestamp: i64,
) -> (r: Result<(), TwentyOneError>)
    requires
        old(game_session).wf(),
    ensures
        r == spec_deal(*old(game_session), *config, backend_signer),
        r is Err ==> *final(game_session) == *old(game_session),
        r is Ok ==> {
            let shoe_old = old(game_session).current_deck_index >= DECK_RESHUFFLE_THRESHOLD_INDEX;
            let seed = sha256_of(seed_material(slot, timestamp, backend_signer, old(game_session).current_deck_index as u64));
            let from = GameSession {
                deck: final(game_session).deck,
                current_deck_index: if shoe_old { 0 } else { old(game_session).current_deck_index },
                seed_elements_hash: if shoe_old { final(game_session).seed_elements_hash } else { old(game_session).seed_elements_hash },
                ..*old(game_session)
            };
            &&& shoe_old ==> final(game_session).seed_elements_hash@ == seed && final(game_session).deck@ == fresh_shoe(seed)
            &&& !shoe_old ==> final(game_session).deck == old(game_session).deck
            &&& dealt_from(*final(game_session), from, timestamp)
        },
        final(game_session).wf(),
{
    if backend_signer != config.backend_authority {
        return Err(TwentyOneError::BackendSignerMismatch);
    }
    if game_session.game_state != GameState::AcceptingBets {
        return Err(TwentyOneError::InvalidGameStateForDeal);
    }
    let active = count_active(&game_session.player_seats);
    if active < MIN_PLAYERS_FOR_DEAL as usize {
        return Err(TwentyOneError::NotEnoughPlayers);
    }
    if game_session.current_deck_index >= DECK_RESHUFFLE_THRESHOLD_INDEX {
        let seed_hash = generate_shuffle_seed_hash(
            slot,
            timestamp,
            &backend_signer,
            game_session.current_deck_index as u64,
        );
        game_session.shuffle_deck(seed_hash);
    }
    let ghost from = *game_session;
    let ghost seats0 = from.player_seats@;
    let ghost d = from.deck@;
    let ghost c = from.current_deck_index as int;
    let ghost m = active as int;
    proof {
        lemma_active_before_monotonic(seats0, 0, seats0.len() as int);
        assert(c < DECK_RESHUFFLE_THRESHOLD_INDEX);
    }
    game_session.dealer_hand = Hand::empty();
    deal_pass(game_session, Ghost(0));
    let first_dealer = match game_session.draw_card() {
        Ok(card) => card,
        Err(_) => {
            proof {
                assert(false);
            }
            return Err(TwentyOneError::DeckEmpty);
        },
    };
    game_session.dealer_hand.add_card(first_dealer);
    proof {
        assert forall|s: int| 0 <= s < game_session.player_seats@.len() && (#[trigger] game_session.player_seats@[s]).is_active_in_round
            implies game_session.player_seats@[s].hands@.len() == 1 && game_session.player_seats@[s].hands@[0].cards@.len() == 1 by {
            assert(seats0[s].is_active_in_round);
        }
        assert forall|s: int| 0 <= s < seats0.len() implies (#[trigger] seats0[s]).is_active_in_round
            == game_session.player_seats@[s].is_active_in_round by {
            assert(seats0[s] == seats0[s]);
        }
        lemma_active_before_same(seats0, game_session.player_seats@, seats0.len() as int);
    }
    let ghost seats1 = game_session.player_seats@;
    deal_pass(game_session, Ghost(1));
    let ghost seats2 = game_session.player_seats@;
    proof {
        assert forall|s: int| 0 <= s < seats0.len() implies {
            let before = #[trigger] seats0[s];
            let after = seats2[s];
            let k = active_before(seats0, s) as int;
            if before.is_active_in_round {
                &&& after == (PlayerSeat { hands: after.hands, ..before })
                &&& after.hands@.len() == 1
                &&& after.hands@[0] == (Hand { cards: after.hands@[0].cards, ..before.hands@[0] })
                &&& after.hands@[0].cards@ == seq![d[c + k], d[c + m + 1 + k]]
            } else {
                after == before
            }
        } by {
            lemma_active_before_same(seats0, seats1, s);
            assert(seats1[s] == seats1[s]);
            if seats0[s].is_active_in_round {
                assert(seats0[s].hands@[0].cards@.len() == 0);
                assert(seats2[s].hands@[0].cards@ =~= seq![d[c + active_before(seats0, s)], d[c + m + 1 + active_before(seats0, s)]]);
            }
        }
    }
    let second_dealer = match game_session.draw_card() {
        Ok(card) => card,
        Err(_) => {
            proof {
                assert(false);
            }
            return Err(TwentyOneError::DeckEmpty);
        },
    };
    game_session.dealer_hand.add_card(second_dealer);
    proof {
        assert(game_session.player_seats@ == seats2);
        assert forall|s: int| 0 <= s < game_session.player_seats@.len() && (#[trigger] game_session.player_seats@[s]).is_active_in_round
            implies game_session.player_seats@[s].hands@.len() == 1 && game_session.player_seats@[s].hands@[0].wf() by {
            if seats0[s].is_active_in_round {
                assert(seats2[s].hands@[0].cards@.len() == 2);
            } else {
                assert(seats2[s] == seats0[s]);
            }
        }
    }
    mark_blackjacks(game_session);
    let ghost seats3 = game_session.player_seats@;
    proof {
        assert(game_session.dealer_hand.cards@ =~= seq![d[c + m], d[c + 2 * m + 1]]);
        assert forall|s: int| 0 <= s < seats0.len() implies {
            let before = #[trigger] seats0[s];
            let after = seats3[s];
            let k = active_before(seats0, s) as int;
            if before.is_active_in_round {
                let cards = seq![d[c + k], d[c + m + 1 + k]];
                &&& after == (PlayerSeat { hands: after.hands, ..before })
                &&& after.hands@.len() == 1
                &&& after.hands@[0] == (Hand {
                    cards: after.hands@[0].cards,
                    status: after.hands@[0].status,
                    ..before.hands@[0]
                })
                &&& after.hands@[0].cards@ == cards
                &&& after.hands@[0].status == if spec_is_blackjack(cards) {
                    HandStatus::Blackjack
                } else {
                    HandStatus::Playing
                }
            } else {
                after == before
            }
        } by {
            assert(seats2[s] == seats2[s]);
        }
    }
    match first_to_act(&game_session.player_seats) {
        Some(i) => {
            proof {
                assert(seats0[i as int] == seats0[i as int]);
                assert(game_session.player_seats@ == seats3);
                assert(must_act(seats3[i as int]));
                assert(seats0[i as int].is_active_in_round);
                let cards = seq![d[c + active_before(seats0, i as int)], d[c + m + 1 + active_before(seats0, i as int)]];
                assert(seats3[i as int].hands@[0].status == if spec_is_blackjack(cards) {
                    HandStatus::Blackjack
                } else {
                    HandStatus::Playing
                });
                assert(seats3[i as int].hands@[0].status == HandStatus::Playing);
            }
            game_session.game_state = GameState::PlayerTurns;
            game_session.current_turn_seat_index = Some(i as u8);
            game_session.current_turn_hand_index = Some(0);
            game_session.current_turn_start_timestamp = Some(timestamp);
        },
        None => {
            game_session.game_state = GameState::RoundOver;
        },
    }
    proof {
        assert forall|s: int| 0 <= s < game_session.player_seats@.len() implies (#[trigger] game_session.player_seats@[s]).wf() by {
            assert(seats0[s] == seats0[s]);
            assert(from.player_seats@[s].wf());
            if seats0[s].is_active_in_round {
                assert(seats3[s].hands@[0].cards@.len() == 2);
                assert(seats3[s].hands@[0].wf());
            }
        }
        assert(game_session.player_seats@ == seats3);
        assert(game_session.dealer_hand.wf());
        assert(game_session.base_wf());
        assert(game_session.turn_ok());
    }
    Ok(())
}

/// The dealer stands on hard 17 and above and on soft 18 and above.
pub open spec fn dealer_stands(cards: Seq<Card>) -> bool {
    score_total(cards) > 17 || (score_total(cards) == 17 && !score_is_soft(cards))
}

/// Where the dealer's play ends from `cards` with the shoe at `cursor`: the
/// final cards, cursor and status; `None` if the shoe runs out first. Over 21
/// the hand is busted; where the dealer stands it is stood; otherwise the
/// next card is taken.
pub open spec fn dealer_outcome(cards: Seq<Card>, deck: Seq<Card>, cursor: nat) -> Option<(Seq<Card>, nat, HandStatus)>
    decreases deck.len() - cursor,
{
    if score_total(cards) > 21 {
        Some((cards, cursor, HandStatus::Busted))
    } else if dealer_stands(cards) {
        Some((cards, cursor, HandStatus::Stood))
    } else if cursor >= deck.len() {
        None
    } else {
        dealer_outcome(added(cards, deck[cursor as int]), deck, cursor + 1)
    }
}

/// Verdict on the dealer's turn.
pub open spec fn spec_dealer_play(g: GameSession, config: TableAuthorityConfig, backend: Pubkey) -> Result<(), TwentyOneError> {
    if backend != config.backend_authority {
        Err(TwentyOneError::BackendSignerMismatch)
    } else if g.game_state != GameState::DealerTurn {
        Err(TwentyOneError::NotDealerTurnState)
    } else if dealer_outcome(g.dealer_hand.cards@, g.deck@, g.current_deck_index as nat) is None {
        Err(TwentyOneError::DeckEmpty)
    } else {
        Ok(())
    }
}

/// A copy of a sequence of cards.
fn copy_cards(cards: &Vec<Card>) -> (r: Vec<Card>)
    ensures
        r@ == cards@,
{
    let mut r: Vec<Card> = Vec::with_capacity(cards.len());
    let mut i: usize = 0;
    while i < cards.len()
        invariant
            i <= cards@.len(),
            r@ =~= cards@.subrange(0, i as int),
        decreases cards@.len() - i,
    {
        r.push(cards[i]);
        i = i + 1;
    }
    proof {
        assert(cards@.subrange(0, cards@.len() as int) =~= cards@);
    }
    r
}

/// Plays the dealer's hand (hits below 17 and on soft 17) and ends the round.
pub fn dealer_play_turn(game_session: &mut GameSession, config: &TableAuthorityConfig, backend_signer: Pubkey) -> (r: Result<(), TwentyOneError>)
    requires
        old(game_session).wf(),
    ensures
        r == spec_dealer_play(*old(game_session), *config, backend_signer),
        r is Err ==> *final(game_session) == *old(game_session),
        r is Ok ==> {
            let (cards, cursor, status) = dealer_outcome(
                old(game_session).dealer_hand.cards@,
                old(game_session).deck@,
                old(game_session).current_deck_index as nat,
            )->Some_0;
            &&& *final(game_session) == (GameSession {
                dealer_hand: final(game_session).dealer_hand,
                current_deck_index: final(game_session).current_deck_index,
                game_state: GameState::RoundOver,
                ..*old(game_session)
            })
            &&& final(game_session).dealer_hand == (Hand {
                cards: final(game_session).dealer_hand.cards,
                status,
                ..old(game_session).dealer_hand
            })
            &&& final(game_session).dealer_hand.cards@ == cards
            &&& final(game_session).current_deck_index == cursor
        },
        final(game_session).wf(),
{
    if backend_signer != config.backend_authority {
        return Err(TwentyOneError::BackendSignerMismatch);
    }
    if game_session.game_state != GameState::DealerTurn {
        return Err(TwentyOneError::NotDealerTurnState);
    }
    let ghost deck = game_session.deck@;
    let ghost target = dealer_outcome(game_session.dealer_hand.cards@, deck, game_session.current_deck_index as nat);
    let mut hand = Hand {
        cards: copy_cards(&game_session.dealer_hand.cards),
        status: game_session.dealer_hand.status,
        bet_multiplier_x100: game_session.dealer_hand.bet_multiplier_x100,
        token_mint_for_bet: game_session.dealer_hand.token_mint_for_bet,
        original_bet_amount: game_session.dealer_hand.original_bet_amount,
    };
    let mut cursor: u16 = game_session.current_deck_index;
    let mut done = false;
    while !done
        invariant
            *game_session == *old(game_session),
            old(game_session).wf(),
            old(game_session).game_state == GameState::DealerTurn,
            backend_signer == config.backend_authority,
            target == dealer_outcome(old(game_session).dealer_hand.cards@, deck, old(game_session).current_deck_index as nat),
            deck == game_session.deck@,
            deck.len() == TOTAL_CARDS,
            cursor <= deck.len(),
            hand.wf(),
            hand == (Hand { cards: hand.cards, status: hand.status, ..old(game_session).dealer_hand }),
            !done ==> dealer_outcome(hand.cards@, deck, cursor as nat) == target,
            done ==> target == Some((hand.cards@, cursor as nat, hand.status)),
        decreases deck.len() - cursor + if done { 0int } else { 1int },
    {
        let (score, is_soft) = hand.calculate_score();
        if score > 21 {
            hand.status = HandStatus::Busted;
            done = true;
        } else if score > 17 || (score == 17 && !is_soft) {
            hand.status = HandStatus::Stood;
            done = true;
        } else {
            if cursor as usize >= game_session.deck.len() {
                return Err(TwentyOneError::DeckEmpty);
            }
            let card = game_session.deck[cursor as usize];
            hand.add_card(card);
            cursor = cursor + 1;
        }
    }
    game_session.dealer_hand = hand;
    game_session.current_deck_index = cursor;
    game_session.game_state = GameState::RoundOver;
    Ok(())
}

/// The dealer asks for the table to close: after the current round no new
/// bets are taken.
pub fn dealer_prepare_to_close(game_session: &mut GameSession, dealer_signer: Pubkey) -> (r: Result<(), TwentyOneError>)
    requires
        old(game_session).wf(),
    ensures
        r is Ok <==> old(game_session).dealer == dealer_signer,
        r is Err ==> r == Err::<(), TwentyOneError>(TwentyOneError::DealerNotSigner) && *final(game_session) == *old(game_session),
        r is Ok ==> *final(game_session) == (GameSession { closing_down: true, ..*old(game_session) }),
        final(game_session).wf(),
{
    match verify_dealer_signer(game_session, &dealer_signer) {
        Ok(()) => {},
        Err(e) => {
            return Err(e);
        },
    }
    game_session.closing_down = true;
    Ok(())
}

/// Verdict on finalizing the round: the trusted backend must sign, then the
/// settlement checks apply.
pub open spec fn spec_finalize(g: GameSession, config: TableAuthorityConfig, backend: Pubkey, claims: Seq<PlayerHandResult>) -> Result<(), TwentyOneError> {
    if backend != config.backend_authority {
        Err(TwentyOneError::BackendSignerMismatch)
    } else {
        spec_resolve(g, claims)
    }
}

/// The trusted backend settles the round (see `GameSession::resolve_round`):
/// all claims are verified before anything changes.
pub fn finalize_round(
    game_session: &mut GameSession,
    config: &TableAuthorityConfig,
    backend_signer: Pubkey,
    backend_results: &Vec<PlayerHandResult>,
) -> (r: Result<(), TwentyOneError>)
    requires
        old(game_session).wf(),
    ensures
        r == spec_finalize(*old(game_session), *config, backend_signer, backend_results@),
        r is Err ==> *final(game_session) == *old(game_session),
        r is Ok ==> {
            &&& final(game_session).is_round_reset_of(
                GameSession { game_state: final(game_session).game_state, ..*old(game_session) },
            )
            &&& final(game_session).game_state == if old(game_session).closing_down {
                GameState::RoundOver
            } else {
                GameState::AcceptingBets
            }
        },
        final(game_session).wf(),
{
    if backend_signer != config.backend_authority {
        return Err(TwentyOneError::BackendSignerMismatch);
    }
    game_session.resolve_round(backend_results)
}

} // verus!
