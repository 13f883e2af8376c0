use vstd::prelude::*;

verus! {

/// Shortest accepted table name, in characters.
pub const TABLE_NAME_MIN_LEN: usize = 3;

/// Longest accepted table name, in characters.
pub const TABLE_NAME_MAX_LEN: usize = 16;

/// Number of seats at a table.
pub const MAX_PLAYERS_LIMIT: u8 = 6;

/// Fewest seats with a bet needed before the cards are dealt.
pub const MIN_PLAYERS_FOR_DEAL: u8 = 1;

/// Decks in the shoe.
pub const NUM_DECKS: u8 = 4;

/// Cards in a full shoe.
pub const TOTAL_CARDS: u16 = 208;

/// Once the cursor reaches this index (three quarters of the shoe) the shoe is
/// rebuilt before the next deal.
pub const DECK_RESHUFFLE_THRESHOLD_INDEX: u16 = 156;

/// Most cards a hand holds; further cards are not added.
pub const MAX_CARDS_IN_HAND: usize = 11;

/// Most hands a seat holds (one split).
pub const MAX_HANDS_PER_PLAYER: usize = 2;

/// Seconds a player has to act before the turn may be forced.
pub const PLAYER_TURN_TIMEOUT_SECONDS: i64 = 15;

/// Blackjack pays this many tenths of the stake as profit.
pub const BLACKJACK_PAYOUT_PROFIT_NUMERATOR: u64 = 13;

/// Denominator of the blackjack profit.
pub const BLACKJACK_PAYOUT_PROFIT_DENOMINATOR: u64 = 10;

/// Fee taken from a profit withdrawal, in basis points.
pub const OWNER_FEE_BPS: u64 = 2200;

/// Basis points in a whole.
pub const BASIS_POINTS_DIVISOR: u64 = 10000;

/// Tolerated deviation between a supplied and a recomputed value, in basis points.
pub const PAYOUT_PRICE_SLIPPAGE_BPS: u64 = 300;

/// Byte length of an oracle price-feed record: identifier, price and moving-average price.
pub const PRICE_FEED_RECORD_LEN: usize = 88;

} // verus!
