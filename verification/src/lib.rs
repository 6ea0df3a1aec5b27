//! A registry of kitties: sixteen-byte genomes owned by accounts, numbered by
//! one counter, created from ledger entropy and bred from two parents.

pub mod account;
pub mod dna;
pub mod entropy;
pub mod error;
pub mod kitty;
pub mod registry;
pub mod state;

pub use account::AccountId;
pub use dna::{combine_dna, recombine};
pub use entropy::payload;
pub use error::{Error, Event};
pub use kitty::{Kitty, KittyGender};
pub use registry::Module;
pub use state::{Call, State};
