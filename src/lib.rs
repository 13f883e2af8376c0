//! State machine of a multi-deck blackjack table: cards and scoring, the shoe,
//! seats and hands, turn order, dealer play and verified settlement.

pub mod constants;
pub mod errors;
pub mod pubkey;
pub mod card;
pub mod hand;
pub mod shoe;
pub mod oracle;
pub mod name;
pub mod seat;
pub mod session;
pub mod turn;
pub mod settlement;
pub mod table;
pub mod round;
pub mod actions;
pub mod laws;
