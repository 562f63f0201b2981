//! Derivation of index specifications and of the identity field from the
//! annotations of a record type.
//!
//! A host lexes the annotations into [`token`]s. [`parse`] reads them by
//! the grammar of [`attr`]; [`meta`] reads typed values out of literals;
//! [`index`] builds the index specifications; [`case`] renames fields;
//! [`identity`] finds the identity field; [`option`] reads which option
//! methods the user implements; [`doc`] puts these together for one type.

pub mod attr;
pub mod case;
pub mod doc;
pub mod error;
pub mod identity;
pub mod index;
pub mod meta;
pub mod option;
pub mod parse;
pub mod token;
