//! Course-exercise test orchestration: a persistent, identity-keyed registry
//! of test outcomes, reconciled against an evolving course definition, a
//! sequential execution state machine with mandatory/optional pass semantics,
//! a best-effort result streaming protocol, and a structural validator for
//! content-addressed course identifiers.

pub mod codec;
pub mod ident;
pub mod lister;
pub mod model;
pub mod parsing;
pub mod redis;
pub mod report;
pub mod runner;
pub mod store;
pub mod text;
pub mod validator;
