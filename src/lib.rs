//! A seat table for a multiplayer poker game: table creation, seating, delegated
//! session keys and the application of betting actions, each as a verified
//! transition on plain values.

pub mod error;
pub mod goldenflop;
pub mod key;
pub mod state;

pub use error::GoldenflopError;
pub use goldenflop::{action, action_fits, create_session, create_table, join_table, leave_table, revoke_session, GameAction};
pub use key::Pubkey;
pub use state::{PlayerSlot, Session, Table, TableState, MAX_PLAYERS};
