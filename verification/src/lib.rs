//! The verified core of an object-document mapper for MongoDB.
//!
//! [`schema`] derives, from the annotations of a record type, the indexes
//! of its collection and the field that holds its identity. The other
//! modules hold what the mapper computes at run time on plain values: error
//! kinds and chains, the small typed constants of the query language, and
//! the reading of the counts that the database reports.
//!
//! Nothing here touches the database, the compiler's token trees or
//! floating-point numbers: a host hands over tokens and takes back
//! descriptions.

use vstd::prelude::*;

pub mod coll;
pub mod error;
pub mod literal;
pub mod schema;
pub mod text;
pub mod utils;
