//! A verified parser and serializer for a plaintext, line-oriented
//! accounting-journal format (ledger syntax).
//!
//! The library turns raw text into a [`Ledger`] document tree and writes such
//! a tree back out under a [`SerializerSettings`] configuration.  Every parse
//! and serialization function carries a contract relating it to a spec-level
//! description of the grammar.

mod dates;
mod laws;
mod decimal;
mod model;
pub mod parser;
mod serializer;
pub mod simple;
mod text;

pub use dates::{Date, DateTime};
pub use decimal::Decimal;
pub use model::{
    Amount, Balance, Commodity, CommodityPosition, CommodityPrice, Ledger, LedgerItem, Posting,
    PostingAmount, PostingMetadata, Price, Reality, Tag, TagValue, Transaction, TransactionStatus,
};
pub use parser::{parse, parse_ledger, LedgerError, ParseError, ParseErrorKind};
pub use serializer::{SerializerSettings, Serializer};
