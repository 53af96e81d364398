//! Registry and supply bookkeeping for issued tokens.
//!
//! `TokenFactory` holds the factory configuration and the ordered token
//! registry. Every operation is a verified state transition: the host that
//! embeds the library supplies identity checks, the ledger clock and fresh
//! token addresses, and persists the resulting state.

mod types;
mod factory;
mod laws;

pub use factory::{batch_run, TokenFactory};
pub use laws::{amount_sum, batch_applied, batch_burn_counts, evolves_transitive, supply_conserved};

pub use types::{Address, Error, FactoryState, TokenInfo};


