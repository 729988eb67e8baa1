//! Quadratic funding of open-source projects: projects apply, a committee
//! schedules funding rounds with a matching pool, users contribute, and at the
//! end of a round the pool is shared out in proportion to the square of the sum
//! of the square roots of the contributions each project received.
//!
//! - [`types`]: the records kept: projects, rounds, grants, contributions.
//! - [`quadratic`]: the sharing formula.
//! - [`account`]: the pot and project accounts derived from the module identifier.
//! - [`model`]: the state and every call, as mathematics.
//! - [`pallet`]: the state and the calls, each proved to meet its model.
//! - [`laws`]: what holds across calls.
//! - [`nicks`]: the nicks pallet's migration of nicknames to real names.
//! - [`search`]: first and last matches in a sequence.
pub mod types;
pub mod quadratic;
pub mod search;
pub mod account;
pub mod model;
pub mod pallet;
pub mod nicks;
pub mod laws;
pub mod properties;
