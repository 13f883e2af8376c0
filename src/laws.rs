use vstd::prelude::*;
use crate::card::Card;
use crate::hand::HandStatus;
use crate::session::{GameSession, draw_outcome, fresh_shoe};
use crate::shoe::shuffled;

verus! {

/// Cursor reached after `n` draws from `cursor`, each by `draw_outcome`;
/// `None` once a draw fails.
pub open spec fn after_draws(deck: Seq<Card>, cursor: nat, n: nat) -> Option<nat>
    decreases n,
{
    if n == 0 {
        Some(cursor)
    } else {
        match after_draws(deck, cursor, (n - 1) as nat) {
            Some(c) => if draw_outcome(deck, c) is Some {
                Some(c + 1)
            } else {
                None
            },
            None => None,
        }
    }
}

/// Drawing exactly as many cards as remain succeeds and leaves the cursor at
/// the end of the shoe; one more draw fails.
pub proof fn lemma_draw_exhaustion(deck: Seq<Card>, cursor: nat)
    requires
        cursor <= deck.len(),
    ensures
        after_draws(deck, cursor, (deck.len() - cursor) as nat) == Some(deck.len()),
        after_draws(deck, cursor, (deck.len() - cursor + 1) as nat) is None,
{
    lemma_draws_advance(deck, cursor, (deck.len() - cursor) as nat);
}

/// While cards remain, `n` draws advance the cursor by `n`.
pub proof fn lemma_draws_advance(deck: Seq<Card>, cursor: nat, n: nat)
    requires
        cursor + n <= deck.len(),
    ensures
        after_draws(deck, cursor, n) == Some(cursor + n),
    decreases n,
{
    if n > 0 {
        lemma_draws_advance(deck, cursor, (n - 1) as nat);
    }
}

/// Shuffling is reproducible: equal shoes shuffled with the same seed come
/// out in the same order.
pub proof fn lemma_shuffle_deterministic(deck_a: Seq<Card>, deck_b: Seq<Card>, seed: Seq<u8>)
    requires
        deck_a == deck_b,
    ensures
        shuffled(deck_a, seed) == shuffled(deck_b, seed),
{
}

/// Two tables whose shoes were rebuilt with the same seed hold the same cards
/// in the same order.
pub proof fn lemma_reshuffle_deterministic(a: GameSession, b: GameSession, seed: Seq<u8>)
    requires
        a.deck@ == fresh_shoe(seed),
        b.deck@ == fresh_shoe(seed),
    ensures
        a.deck@ == b.deck@,
{
}

/// In every well-formed table state, a pending turn names exactly one hand:
/// a hand still playing, on a seat in the round; and a turn is pending
/// exactly while players act.
pub proof fn lemma_turn_names_playing_hand(g: GameSession)
    requires
        g.wf(),
    ensures
        (g.current_turn_seat_index is Some) == (g.current_turn_hand_index is Some),
        g.current_turn_seat_index matches Some(s) ==> {
            let h = g.current_turn_hand_index->Some_0 as int;
            &&& (s as int) < g.player_seats@.len()
            &&& g.player_seats@[s as int].is_active_in_round
            &&& h < g.player_seats@[s as int].hands@.len()
            &&& g.player_seats@[s as int].hands@[h].status == HandStatus::Playing
        },
{
}

} // verus!
