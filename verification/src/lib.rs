//! A guarded, all-or-nothing operation on a ledger: check that the signer owns a
//! value account, then ask the asset-custody facility to close the account and
//! return its reserve to the owner.
//!
//! The ownership check and the close request are this crate's own logic. The
//! custody facility lives outside it; [`ledger::Ledger`] states the facility's
//! contract as a verified model, so that what the operation guarantees from end
//! to end can be stated and proved.

pub mod account;
pub mod error;
pub mod guarantees;
pub mod identity;
pub mod ledger;
pub mod operation;
pub mod request;
pub mod stage;

pub use account::{AccountView, ContextView, OwnerIdentity, SwapAndClose, ValueAccount};
pub use error::{CloseFailure, SwapError};
pub use identity::Identity;
pub use ledger::{Ledger, LedgerView};
pub use operation::{close, swap_and_close, validate};
pub use request::{close_request, AccountSlot, CloseRequest};
pub use stage::Stage;
