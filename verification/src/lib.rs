//! An in-memory directory of teams and their members.
//!
//! A [`team::Team`] owns its members in insertion order and refuses to take
//! the same identifier twice. A [`member::Member`] carries a role, a history of
//! earlier roles, an optional deputy and the identifier of the team that holds
//! it. A member that another member of the same team names as deputy can be
//! neither deactivated nor removed.
//!
//! Every contract is stated over the mathematical models in [`model`]; what
//! holds across operations is proved in [`laws`]. Identifiers come from
//! [`ident`], the one place where the library relies on code it has not
//! verified, and the one place where it can panic: drawing a random
//! identifier fails if the operating system has no random bytes to give.

pub mod ident;
pub mod laws;
pub mod member;
pub mod model;
pub mod team;
