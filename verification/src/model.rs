//! The document model: the typed tree of ledger constructs that the parser
//! produces and the serializer reads, together with its spec-level mirror
//! (`Spec*` types over `Seq<char>` instead of `String`).

use vstd::prelude::*;

use crate::dates::{Date, DateTime};
use crate::decimal::Decimal;

verus! {

/// Main document: an ordered sequence of items.
#[derive(Debug, Clone, PartialEq)]
pub struct Ledger {
    pub items: Vec<LedgerItem>,
}

/// One top-level construct of a document.
#[derive(Debug, Clone, PartialEq)]
pub enum LedgerItem {
    EmptyLine,
    LineComment(String),
    Transaction(Transaction),
    CommodityPrice(CommodityPrice),
    Include(String),
}

/// A transaction: a dated header followed by one or more postings.
#[derive(Debug, Clone, PartialEq)]
pub struct Transaction {
    pub comment: Option<String>,
    pub date: Date,
    pub effective_date: Option<Date>,
    pub status: Option<TransactionStatus>,
    pub code: Option<String>,
    pub description: Option<String>,
    pub posting_metadata: PostingMetadata,
    pub postings: Vec<Posting>,
}

#[derive(Debug, Clone, Copy, PartialEq, Eq, Structural)]
pub enum TransactionStatus {
    Pending,
    Cleared,
}

/// One account line within a transaction.
#[derive(Debug, Clone, PartialEq)]
pub struct Posting {
    pub account: String,
    pub reality: Reality,
    pub amount: Option<PostingAmount>,
    pub balance: Option<Balance>,
    pub status: Option<TransactionStatus>,
    pub comment: Option<String>,
    pub metadata: PostingMetadata,
}

/// Whether a posting affects a real account, a balanced virtual account
/// (written `[...]`), or an unbalanced virtual account (written `(...)`).
#[derive(Debug, Clone, Copy, PartialEq, Eq, Structural)]
pub enum Reality {
    Real,
    BalancedVirtual,
    UnbalancedVirtual,
}

/// An amount on a posting, with optional cost-basis and price annotations.
#[derive(Debug, Clone, PartialEq)]
pub struct PostingAmount {
    pub amount: Amount,
    pub lot_price: Option<Price>,
    pub price: Option<Price>,
}

/// An exact quantity of a commodity.
#[derive(Debug, Clone, PartialEq)]
pub struct Amount {
    pub quantity: Decimal,
    pub commodity: Commodity,
}

#[derive(Debug, Clone, PartialEq)]
pub struct Commodity {
    pub name: String,
    pub position: CommodityPosition,
}

/// Whether a commodity symbol is written before (`$1.20`) or after
/// (`1.20 USD`) its quantity.
#[derive(Debug, Clone, Copy, PartialEq, Eq, Structural)]
pub enum CommodityPosition {
    Left,
    Right,
}

/// A cost or rate: per unit, or for the whole posting.
#[derive(Debug, Clone, PartialEq)]
pub enum Price {
    Unit(Amount),
    Total(Amount),
}

/// A balance assertion written after `=` on a posting.
#[derive(Debug, Clone, PartialEq)]
pub enum Balance {
    Zero,
    Amount(Amount),
}

/// A point-in-time commodity price record (a `P` line).
#[derive(Debug, Clone, PartialEq)]
pub struct CommodityPrice {
    pub datetime: DateTime,
    pub commodity_name: String,
    pub amount: Amount,
}

/// Metadata declared in comment lines under a transaction header or posting.
#[derive(Debug, Clone, PartialEq)]
pub struct PostingMetadata {
    pub date: Option<Date>,
    pub effective_date: Option<Date>,
    pub tags: Vec<Tag>,
}

#[derive(Debug, Clone, PartialEq)]
pub struct Tag {
    pub name: String,
    pub value: Option<TagValue>,
}

/// A typed tag value.  Fractional values are held as exact decimals.
#[derive(Debug, Clone, PartialEq)]
pub enum TagValue {
    String(String),
    Integer(i64),
    Float(Decimal),
    Date(Date),
}

// --- The spec-level mirror of the model --------------------------------

pub struct SpecLedger {
    pub items: Seq<SpecLedgerItem>,
}

pub enum SpecLedgerItem {
    EmptyLine,
    LineComment(Seq<char>),
    Transaction(SpecTransaction),
    CommodityPrice(SpecCommodityPrice),
    Include(Seq<char>),
}

pub struct SpecTransaction {
    pub comment: Option<Seq<char>>,
    pub date: Date,
    pub effective_date: Option<Date>,
    pub status: Option<TransactionStatus>,
    pub code: Option<Seq<char>>,
    pub description: Option<Seq<char>>,
    pub posting_metadata: SpecPostingMetadata,
    pub postings: Seq<SpecPosting>,
}

pub struct SpecPosting {
    pub account: Seq<char>,
    pub reality: Reality,
    pub amount: Option<SpecPostingAmount>,
    pub balance: Option<SpecBalance>,
    pub status: Option<TransactionStatus>,
    pub comment: Option<Seq<char>>,
    pub metadata: SpecPostingMetadata,
}

pub struct SpecPostingAmount {
    pub amount: SpecAmount,
    pub lot_price: Option<SpecPrice>,
    pub price: Option<SpecPrice>,
}

pub struct SpecAmount {
    pub quantity: Decimal,
    pub commodity: SpecCommodity,
}

pub struct SpecCommodity {
    pub name: Seq<char>,
    pub position: CommodityPosition,
}

pub enum SpecPrice {
    Unit(SpecAmount),
    Total(SpecAmount),
}

pub enum SpecBalance {
    Zero,
    Amount(SpecAmount),
}

pub struct SpecCommodityPrice {
    pub datetime: DateTime,
    pub commodity_name: Seq<char>,
    pub amount: SpecAmount,
}

pub struct SpecPostingMetadata {
    pub date: Option<Date>,
    pub effective_date: Option<Date>,
    pub tags: Seq<SpecTag>,
}

pub struct SpecTag {
    pub name: Seq<char>,
    pub value: Option<SpecTagValue>,
}

pub enum SpecTagValue {
    String(Seq<char>),
    Integer(i64),
    Float(Decimal),
    Date(Date),
}

pub open spec fn view_opt_str(o: Option<String>) -> Option<Seq<char>> {
    match o {
        Some(s) => Some(s@),
        None => None,
    }
}

// --- View impls tying the executable model to the spec model -----------

impl View for Commodity {
    type V = SpecCommodity;

    open spec fn view(&self) -> SpecCommodity {
        SpecCommodity { name: self.name@, position: self.position }
    }
}

impl View for Amount {
    type V = SpecAmount;

    open spec fn view(&self) -> SpecAmount {
        SpecAmount { quantity: self.quantity, commodity: self.commodity@ }
    }
}

impl View for Price {
    type V = SpecPrice;

    open spec fn view(&self) -> SpecPrice {
        match self {
            Price::Unit(a) => SpecPrice::Unit(a@),
            Price::Total(a) => SpecPrice::Total(a@),
        }
    }
}

impl View for Balance {
    type V = SpecBalance;

    open spec fn view(&self) -> SpecBalance {
        match self {
            Balance::Zero => SpecBalance::Zero,
            Balance::Amount(a) => SpecBalance::Amount(a@),
        }
    }
}

impl View for PostingAmount {
    type V = SpecPostingAmount;

    open spec fn view(&self) -> SpecPostingAmount {
        SpecPostingAmount {
            amount: self.amount@,
            lot_price: match self.lot_price {
                Some(p) => Some(p@),
                None => None,
            },
            price: match self.price {
                Some(p) => Some(p@),
                None => None,
            },
        }
    }
}

impl View for TagValue {
    type V = SpecTagValue;

    open spec fn view(&self) -> SpecTagValue {
        match self {
            TagValue::String(s) => SpecTagValue::String(s@),
            TagValue::Integer(i) => SpecTagValue::Integer(*i),
            TagValue::Float(d) => SpecTagValue::Float(*d),
            TagValue::Date(d) => SpecTagValue::Date(*d),
        }
    }
}

impl View for Tag {
    type V = SpecTag;

    open spec fn view(&self) -> SpecTag {
        SpecTag {
            name: self.name@,
            value: match self.value {
                Some(v) => Some(v@),
                None => None,
            },
        }
    }
}

impl View for PostingMetadata {
    type V = SpecPostingMetadata;

    open spec fn view(&self) -> SpecPostingMetadata {
        SpecPostingMetadata {
            date: self.date,
            effective_date: self.effective_date,
            tags: self.tags@.map_values(|t: Tag| t@),
        }
    }
}

impl View for Posting {
    type V = SpecPosting;

    open spec fn view(&self) -> SpecPosting {
        SpecPosting {
            account: self.account@,
            reality: self.reality,
            amount: match self.amount {
                Some(a) => Some(a@),
                None => None,
            },
            balance: match self.balance {
                Some(b) => Some(b@),
                None => None,
            },
            status: self.status,
            comment: view_opt_str(self.comment),
            metadata: self.metadata@,
        }
    }
}

impl View for Transaction {
    type V = SpecTransaction;

    open spec fn view(&self) -> SpecTransaction {
        SpecTransaction {
            comment: view_opt_str(self.comment),
            date: self.date,
            effective_date: self.effective_date,
            status: self.status,
            code: view_opt_str(self.code),
            description: view_opt_str(self.description),
            posting_metadata: self.posting_metadata@,
            postings: self.postings@.map_values(|p: Posting| p@),
        }
    }
}

impl View for CommodityPrice {
    type V = SpecCommodityPrice;

    open spec fn view(&self) -> SpecCommodityPrice {
        SpecCommodityPrice {
            datetime: self.datetime,
            commodity_name: self.commodity_name@,
            amount: self.amount@,
        }
    }
}

impl View for LedgerItem {
    type V = SpecLedgerItem;

    open spec fn view(&self) -> SpecLedgerItem {
        match self {
            LedgerItem::EmptyLine => SpecLedgerItem::EmptyLine,
            LedgerItem::LineComment(s) => SpecLedgerItem::LineComment(s@),
            LedgerItem::Transaction(t) => SpecLedgerItem::Transaction(t@),
            LedgerItem::CommodityPrice(p) => SpecLedgerItem::CommodityPrice(p@),
            LedgerItem::Include(s) => SpecLedgerItem::Include(s@),
        }
    }
}

impl View for Ledger {
    type V = SpecLedger;

    open spec fn view(&self) -> SpecLedger {
        SpecLedger { items: self.items@.map_values(|i: LedgerItem| i@) }
    }
}

// --- Well-formedness of the decimals held in a document ----------------

impl SpecAmount {
    pub open spec fn wf(self) -> bool {
        self.quantity.wf()
    }
}

impl SpecPrice {
    pub open spec fn wf(self) -> bool {
        match self {
            SpecPrice::Unit(a) => a.wf(),
            SpecPrice::Total(a) => a.wf(),
        }
    }
}

impl SpecBalance {
    pub open spec fn wf(self) -> bool {
        match self {
            SpecBalance::Zero => true,
            SpecBalance::Amount(a) => a.wf(),
        }
    }
}

impl SpecPostingAmount {
    pub open spec fn wf(self) -> bool {
        &&& self.amount.wf()
        &&& match self.lot_price {
            Some(p) => p.wf(),
            None => true,
        }
        &&& match self.price {
            Some(p) => p.wf(),
            None => true,
        }
    }
}

impl SpecTag {
    pub open spec fn wf(self) -> bool {
        match self.value {
            Some(SpecTagValue::Float(d)) => d.wf(),
            _ => true,
        }
    }
}

impl SpecPostingMetadata {
    pub open spec fn wf(self) -> bool {
        forall|i: int| 0 <= i < self.tags.len() ==> (#[trigger] self.tags[i]).wf()
    }
}

impl SpecPosting {
    pub open spec fn wf(self) -> bool {
        &&& match self.amount {
            Some(a) => a.wf(),
            None => true,
        }
        &&& match self.balance {
            Some(b) => b.wf(),
            None => true,
        }
        &&& self.metadata.wf()
    }
}

impl SpecTransaction {
    pub open spec fn wf(self) -> bool {
        &&& self.posting_metadata.wf()
        &&& forall|i: int| 0 <= i < self.postings.len() ==> (#[trigger] self.postings[i]).wf()
    }
}

impl SpecCommodityPrice {
    pub open spec fn wf(self) -> bool {
        self.amount.wf()
    }
}

impl SpecLedgerItem {
    pub open spec fn wf(self) -> bool {
        match self {
            SpecLedgerItem::Transaction(t) => t.wf(),
            SpecLedgerItem::CommodityPrice(p) => p.wf(),
            _ => true,
        }
    }
}

impl SpecLedger {
    pub open spec fn wf(self) -> bool {
        forall|i: int| 0 <= i < self.items.len() ==> (#[trigger] self.items[i]).wf()
    }
}

} // verus!
