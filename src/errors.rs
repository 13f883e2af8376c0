use vstd::prelude::*;

verus! {

/// Every way an operation on a table can be refused.
#[derive(Clone, Copy, PartialEq, Eq, Debug, Structural)]
pub enum TwentyOneError {
    TableNameLengthInvalid,
    TableNameInvalidChars,
    TableNameInvalidHyphenPlacement,
    TableNameConsecutiveHyphens,
    TableNameNotNormalized,
    InvalidSeatIndex,
    SeatTaken,
    SeatNotTaken,
    PlayerNotAtSeatIndex,
    DealerNotSigner,
    InvalidPriceFeedOwner,
    BackendSignerMismatch,
    UnauthorizedForceAction,
    NotAcceptingBets,
    InvalidGameStateForDeal,
    NotPlayerTurnsState,
    WrongSeatForTurn,
    WrongHandForTurn,
    NotThisPlayerTurn,
    NotDealerTurnState,
    NotRoundOverState,
    CannotCloseTableActiveGame,
    DeckEmpty,
    NotEnoughPlayers,
    PlayerHasActiveBet,
    TurnTimerNotSet,
    TurnTimeNotExpired,
    HandActionOnFinalizedHand,
    CannotDoubleNotTwoCards,
    CannotSplitAlreadySplit,
    CannotSplitNotTwoCards,
    CannotSplitRanksMismatch,
    UsdcMintMismatch,
    BetTokenMintMismatch,
    PayoutCalculationMismatch,
    ArithmeticOverflow,
    MinBetIsZero,
    InsufficientFundsForDoubleDown,
    InsufficientFundsForSplit,
    InsufficientBankValue,
    PriceFeedStale,
    CannotFindPlayerSeat,
    InvalidHandIndex,
    HandNotFound,
    HandScoreMismatch,
    PlayerMismatch,
    HandCardsMismatch,
    OutcomeMismatch,
    TableHasActiveEscrow,
    TokenMintNotInProfitTracker,
    NotConfigAdmin,
}

} // verus!
