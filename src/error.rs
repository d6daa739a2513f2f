use vstd::prelude::*;

verus! {

/// Why an operation on a table or a session was refused. A refused operation
/// leaves every record as it was.
#[derive(Clone, Copy, Debug, PartialEq, Eq, Structural)]
pub enum GoldenflopError {
    /// The table is not accepting players.
    InvalidTableState,
    /// All seats are taken.
    TableFull,
    /// The buy-in lies outside the table's range.
    InvalidBuyIn,
    /// The session's expiry is not in the future.
    SessionExpired,
    /// The signer is not the expected key.
    InvalidSigner,
    /// No occupied seat belongs to the identity looked up.
    PlayerNotFound,
    /// The player has already folded.
    NotInHand,
    /// The stake exceeds the player's stack.
    InsufficientChips,
    /// The wallet already holds a seat at this table.
    AlreadySeated,
}

impl GoldenflopError {
    /// The message shown for this error.
    pub fn message(&self) -> (r: &'static str)
        ensures
            *self == GoldenflopError::InvalidTableState ==> r@ == "Invalid table state for this action"@,
            *self == GoldenflopError::TableFull ==> r@ == "Table is full"@,
            *self == GoldenflopError::InvalidBuyIn ==> r@ == "Buy-in out of range"@,
            *self == GoldenflopError::SessionExpired ==> r@ == "Session expired"@,
            *self == GoldenflopError::InvalidSigner ==> r@ == "Signer is not the session key"@,
            *self == GoldenflopError::PlayerNotFound ==> r@ == "Player not found at table"@,
            *self == GoldenflopError::NotInHand ==> r@ == "Player not in current hand"@,
            *self == GoldenflopError::InsufficientChips ==> r@ == "Insufficient chips"@,
            *self == GoldenflopError::AlreadySeated ==> r@ == "Player already seated at this table"@,
    {
        match self {
            GoldenflopError::InvalidTableState => "Invalid table state for this action",
            GoldenflopError::TableFull => "Table is full",
            GoldenflopError::InvalidBuyIn => "Buy-in out of range",
            GoldenflopError::SessionExpired => "Session expired",
            GoldenflopError::InvalidSigner => "Signer is not the session key",
            GoldenflopError::PlayerNotFound => "Player not found at table",
            GoldenflopError::NotInHand => "Player not in current hand",
            GoldenflopError::InsufficientChips => "Insufficient chips",
            GoldenflopError::AlreadySeated => "Player already seated at this table",
        }
    }
}

} // verus!
