//! The core of a portfolio tracker: securities with their purchase entries and
//! derived values, the portfolio that holds them, and the state machine that
//! turns user-interface messages into screens and portfolio changes. Prices and
//! values are counted in millionths of the currency unit.
use vstd::prelude::*;

pub mod laws;
pub mod machine;
pub mod parse;
pub mod portfolio;
pub mod security;

pub use machine::{App, InputForm};
pub use portfolio::{MainMenu, Message, Overview, Screen};
pub use security::{Entry, Security};

verus! {

} // verus!
