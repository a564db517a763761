//! The representation and text-emission core of a JSON value library.
//!
//! * [`object`]: the insertion-ordered, string-keyed map behind JSON objects,
//!   and [`entries`], the model that its contracts are stated over.
//! * [`value`]: the value tree, with [`number`] and [`short`] for its leaves.
//! * [`codegen`]: the generators that text is written to, and the trait of
//!   what can be written as JSON.
//! * [`writer`]: a fluent writer that cannot get a document out of balance.
//! * [`model`]: what a document is and what its text is; [`whitespace`]: how
//!   the compact and the indented text are related.
//! * [`trusted`]: the few calls into the standard library whose contracts are
//!   taken on trust.

pub mod codegen;
pub mod entries;
pub mod model;
pub mod number;
pub mod object;
pub mod short;
pub mod text;
pub mod trusted;
pub mod value;
pub mod whitespace;
pub mod writer;
