//! A semantic-equivalence checker for two compiled versions of a program.
//!
//! Given a reference ("old") module and a candidate ("new") module, the
//! library correlates functions across the two by a fixed naming convention,
//! validates that each matched pair is structurally comparable, and decides
//! behavioural equivalence by cross-matching the outcomes that a symbolic
//! execution engine reports for each function, with every return value and
//! parameter resolved into a bounded set of concrete solutions.

pub mod bytes;
pub mod matcher;
pub mod names;
pub mod outcome;
pub mod oracle;
pub mod program;
pub mod validate;
