//! A simplified, flattened document model: transactions and commodity
//! prices only, with free-standing comment blocks attached to the
//! transaction that follows them, and every posting carrying an amount.

use vstd::prelude::*;
use vstd::string::StringExecFns;

use crate::dates::Date;
use crate::model::{
    Amount, CommodityPrice, SpecAmount, SpecCommodityPrice, SpecLedger, SpecLedgerItem,
    SpecPosting, SpecTransaction, TransactionStatus,
};
use crate::model::view_opt_str;
use crate::parser::{sp_ledger, ParseError, ParseErrorKind};

verus! {

/// The flattened document.
#[derive(Debug, Clone, PartialEq)]
pub struct Ledger {
    pub transactions: Vec<Transaction>,
    pub commodity_prices: Vec<CommodityPrice>,
}

/// A transaction whose attached comment block has been folded in.
#[derive(Debug, Clone, PartialEq)]
pub struct Transaction {
    pub comment: Option<String>,
    pub date: Date,
    pub effective_date: Option<Date>,
    pub status: Option<TransactionStatus>,
    pub code: Option<String>,
    pub description: Option<String>,
    pub postings: Vec<Posting>,
}

/// A posting with a mandatory amount.
#[derive(Debug, Clone, PartialEq)]
pub struct Posting {
    pub account: String,
    pub amount: Amount,
    pub status: Option<TransactionStatus>,
    pub comment: Option<String>,
}

/// Why a document could not be flattened.
#[derive(Debug, Clone, Copy, PartialEq, Eq, Structural)]
pub enum ConvertError {
    /// A posting carries no amount, so the flattened model cannot hold it.
    MissingAmount,
}

/// A failure of [`parse`]: either the text did not parse, or the parsed
/// document could not be flattened.
#[derive(Debug)]
pub enum Error {
    ParseError(ParseError),
    ConvertError(ConvertError),
}

// --- Spec-level mirror ---------------------------------------------------

pub struct SpecSimplePosting {
    pub account: Seq<char>,
    pub amount: SpecAmount,
    pub status: Option<TransactionStatus>,
    pub comment: Option<Seq<char>>,
}

pub struct SpecSimpleTransaction {
    pub comment: Option<Seq<char>>,
    pub date: Date,
    pub effective_date: Option<Date>,
    pub status: Option<TransactionStatus>,
    pub code: Option<Seq<char>>,
    pub description: Option<Seq<char>>,
    pub postings: Seq<SpecSimplePosting>,
}

pub struct SpecSimpleLedger {
    pub transactions: Seq<SpecSimpleTransaction>,
    pub commodity_prices: Seq<SpecCommodityPrice>,
}

impl View for Posting {
    type V = SpecSimplePosting;

    open spec fn view(&self) -> SpecSimplePosting {
        SpecSimplePosting {
            account: self.account@,
            amount: self.amount@,
            status: self.status,
            comment: view_opt_str(self.comment),
        }
    }
}

impl View for Transaction {
    type V = SpecSimpleTransaction;

    open spec fn view(&self) -> SpecSimpleTransaction {
        SpecSimpleTransaction {
            comment: view_opt_str(self.comment),
            date: self.date,
            effective_date: self.effective_date,
            status: self.status,
            code: view_opt_str(self.code),
            description: view_opt_str(self.description),
            postings: self.postings@.map_values(|p: Posting| p@),
        }
    }
}

impl View for Ledger {
    type V = SpecSimpleLedger;

    open spec fn view(&self) -> SpecSimpleLedger {
        SpecSimpleLedger {
            transactions: self.transactions@.map_values(|t: Transaction| t@),
            commodity_prices: self.commodity_prices@.map_values(|c: CommodityPrice| c@),
        }
    }
}

// --- The flattening, in spec ----------------------------------------------

pub open spec fn conv_posting(p: SpecPosting) -> Result<SpecSimplePosting, ConvertError> {
    match p.amount {
        Some(pa) => Ok(
            SpecSimplePosting {
                account: p.account,
                amount: pa.amount,
                status: p.status,
                comment: p.comment,
            },
        ),
        None => Err(ConvertError::MissingAmount),
    }
}

pub open spec fn conv_postings(ps: Seq<SpecPosting>, acc: Seq<SpecSimplePosting>) -> Result<
    Seq<SpecSimplePosting>,
    ConvertError,
>
    decreases ps.len(),
{
    if ps.len() == 0 {
        Ok(acc)
    } else {
        match conv_posting(ps[0]) {
            Ok(sp) => conv_postings(ps.drop_first(), acc.push(sp)),
            Err(e) => Err(e),
        }
    }
}

/// Join a pending comment block with a transaction's own comment.
pub open spec fn join_comment(pending: Option<Seq<char>>, own: Option<Seq<char>>) -> Option<
    Seq<char>,
> {
    match (pending, own) {
        (Some(a), Some(b)) => Some(a + seq!['\n'] + b),
        (Some(a), None) => Some(a),
        (None, b) => b,
    }
}

pub open spec fn conv_transaction(t: SpecTransaction, pending: Option<Seq<char>>) -> Result<
    SpecSimpleTransaction,
    ConvertError,
> {
    match conv_postings(t.postings, Seq::empty()) {
        Ok(ps) => Ok(
            SpecSimpleTransaction {
                comment: join_comment(pending, t.comment),
                date: t.date,
                effective_date: t.effective_date,
                status: t.status,
                code: t.code,
                description: t.description,
                postings: ps,
            },
        ),
        Err(e) => Err(e),
    }
}

/// Fold over the items: empty lines reset the pending comment, line comments
/// extend it, a transaction absorbs it, a commodity price clears it, and a
/// file directive leaves it untouched.
pub open spec fn conv_items(
    rem: Seq<SpecLedgerItem>,
    pending: Option<Seq<char>>,
    txs: Seq<SpecSimpleTransaction>,
    cps: Seq<SpecCommodityPrice>,
) -> Result<(Seq<SpecSimpleTransaction>, Seq<SpecCommodityPrice>), ConvertError>
    decreases rem.len(),
{
    if rem.len() == 0 {
        Ok((txs, cps))
    } else {
        let rest = rem.drop_first();
        match rem[0] {
            SpecLedgerItem::EmptyLine => conv_items(rest, None, txs, cps),
            SpecLedgerItem::LineComment(c) => {
                let p2: Option<Seq<char>> = match pending {
                    Some(a) => Some(a + seq!['\n'] + c),
                    None => Some(c),
                };
                conv_items(rest, p2, txs, cps)
            },
            SpecLedgerItem::Transaction(t) => match conv_transaction(t, pending) {
                Ok(st) => conv_items(rest, None, txs.push(st), cps),
                Err(e) => Err(e),
            },
            SpecLedgerItem::CommodityPrice(cp) => conv_items(rest, None, txs, cps.push(cp)),
            SpecLedgerItem::Include(_) => conv_items(rest, pending, txs, cps),
        }
    }
}

pub open spec fn conv_ledger(l: SpecLedger) -> Result<SpecSimpleLedger, ConvertError> {
    match conv_items(l.items, None, Seq::empty(), Seq::empty()) {
        Ok((txs, cps)) => Ok(SpecSimpleLedger { transactions: txs, commodity_prices: cps }),
        Err(e) => Err(e),
    }
}

// --- The flattening, executable ---------------------------------------------

impl Transaction {
    /// Flatten one transaction, folding in a pending comment block.
    pub fn try_from(t: crate::model::Transaction, pending: Option<String>) -> (r: Result<
        Transaction,
        ConvertError,
    >)
        ensures
            match (r, conv_transaction(t@, view_opt_str(pending))) {
                (Ok(st), Ok(sst)) => st@ == sst,
                (Err(e1), Err(e2)) => e1 == e2,
                _ => false,
            },
    {
        let ghost gt = t@;
        let ghost gp = view_opt_str(pending);
        let comment: Option<String> = match (pending, t.comment) {
            (Some(a), Some(b)) => {
                let ghost ga = a@;
                let mut c = a;
                c.append("\n");
                c.append(b.as_str());
                proof {
                    reveal_strlit("\n");
                    assert(c@ =~= ga + seq!['\n'] + b@);
                }
                Some(c)
            },
            (Some(a), None) => Some(a),
            (None, b) => b,
        };
        proof {
            assert(view_opt_str(comment) == join_comment(gp, gt.comment));
        }
        let mut postings: Vec<Posting> = Vec::new();
        let mut src = t.postings;
        let ghost fp = |p: Posting| p@;
        let ghost src0 = src@.map_values(|p: crate::model::Posting| p@);
        let mut failed = false;
        proof {
            assert(postings@.map_values(fp) =~= Seq::<SpecSimplePosting>::empty());
        }
        loop
            invariant
                fp == (|p: Posting| p@),
                !failed ==> conv_postings(src0, Seq::empty()) == conv_postings(
                    src@.map_values(|p: crate::model::Posting| p@),
                    postings@.map_values(fp),
                ),
                failed ==> conv_postings(src0, Seq::empty()) == Err::<
                    Seq<SpecSimplePosting>,
                    ConvertError,
                >(ConvertError::MissingAmount),
            ensures
                if failed {
                    conv_postings(src0, Seq::empty()) == Err::<Seq<SpecSimplePosting>, ConvertError>(
                        ConvertError::MissingAmount,
                    )
                } else {
                    conv_postings(src0, Seq::empty()) == Ok::<Seq<SpecSimplePosting>, ConvertError>(
                        postings@.map_values(fp),
                    )
                },
            decreases src.len(),
        {
            if src.len() == 0 {
                proof {
                    assert(src@.map_values(|p: crate::model::Posting| p@).len() == 0);
                }
                break ;
            }
            let ghost pre_src = src@.map_values(|p: crate::model::Posting| p@);
            let p = src.remove(0);
            proof {
                assert(src@.map_values(|x: crate::model::Posting| x@) =~= pre_src.drop_first());
                assert(p@ == pre_src[0]);
            }
            match p.amount {
                Some(pa) => {
                    let sp = Posting {
                        account: p.account,
                        amount: pa.amount,
                        status: p.status,
                        comment: p.comment,
                    };
                    proof {
                        assert(conv_posting(pre_src[0]) == Ok::<SpecSimplePosting, ConvertError>(
                            sp@,
                        ));
                        assert(postings@.push(sp).map_values(fp) =~= postings@.map_values(
                            fp,
                        ).push(sp@));
                    }
                    postings.push(sp);
                },
                None => {
                    proof {
                        assert(conv_posting(pre_src[0]) == Err::<SpecSimplePosting, ConvertError>(
                            ConvertError::MissingAmount,
                        ));
                    }
                    failed = true;
                    break ;
                },
            }
        }
        if failed {
            return Err(ConvertError::MissingAmount);
        }
        Ok(
            Transaction {
                comment,
                date: t.date,
                effective_date: t.effective_date,
                status: t.status,
                code: t.code,
                description: t.description,
                postings,
            },
        )
    }
}

impl Ledger {
    /// Flatten a parsed document: attach free-standing comment blocks to the
    /// transaction that follows them and split the items into transactions
    /// and commodity prices.
    pub fn try_from(value: crate::model::Ledger) -> (r: Result<Ledger, ConvertError>)
        ensures
            match (r, conv_ledger(value@)) {
                (Ok(l), Ok(sl)) => l@ == sl,
                (Err(e1), Err(e2)) => e1 == e2,
                _ => false,
            },
    {
        let ghost items0 = value@.items;
        let mut items = value.items;
        let mut pending: Option<String> = None;
        let mut transactions: Vec<Transaction> = Vec::new();
        let mut commodity_prices: Vec<CommodityPrice> = Vec::new();
        let mut failure: Option<ConvertError> = None;
        let ghost ftx = |t: Transaction| t@;
        let ghost fcp = |c: CommodityPrice| c@;
        proof {
            assert(transactions@.map_values(ftx) =~= Seq::<SpecSimpleTransaction>::empty());
            assert(commodity_prices@.map_values(fcp) =~= Seq::<SpecCommodityPrice>::empty());
        }
        loop
            invariant
                ftx == (|t: Transaction| t@),
                fcp == (|c: CommodityPrice| c@),
                failure is None ==> conv_items(items0, None, Seq::empty(), Seq::empty())
                    == conv_items(
                    items@.map_values(|it: crate::model::LedgerItem| it@),
                    view_opt_str(pending),
                    transactions@.map_values(ftx),
                    commodity_prices@.map_values(fcp),
                ),
                failure matches Some(e) ==> conv_items(items0, None, Seq::empty(), Seq::empty())
                    == Err::<(Seq<SpecSimpleTransaction>, Seq<SpecCommodityPrice>), ConvertError>(e),
            ensures
                match failure {
                    Some(e) => conv_items(items0, None, Seq::empty(), Seq::empty()) == Err::<
                        (Seq<SpecSimpleTransaction>, Seq<SpecCommodityPrice>),
                        ConvertError,
                    >(e),
                    None => conv_items(items0, None, Seq::empty(), Seq::empty()) == Ok::<
                        (Seq<SpecSimpleTransaction>, Seq<SpecCommodityPrice>),
                        ConvertError,
                    >((transactions@.map_values(ftx), commodity_prices@.map_values(fcp))),
                },
            decreases items.len(),
        {
            if items.len() == 0 {
                proof {
                    assert(items@.map_values(|it: crate::model::LedgerItem| it@).len() == 0);
                }
                break ;
            }
            let ghost pre_items = items@.map_values(|it: crate::model::LedgerItem| it@);
            let it = items.remove(0);
            proof {
                assert(items@.map_values(|x: crate::model::LedgerItem| x@) =~= pre_items.drop_first(
                ));
                assert(it@ == pre_items[0]);
            }
            match it {
                crate::model::LedgerItem::EmptyLine => {
                    pending = None;
                },
                crate::model::LedgerItem::LineComment(c) => {
                    pending = match pending {
                        Some(a) => {
                            let ghost ga = a@;
                            let mut s = a;
                            s.append("\n");
                            s.append(c.as_str());
                            proof {
                                reveal_strlit("\n");
                                assert(s@ =~= ga + seq!['\n'] + c@);
                            }
                            Some(s)
                        },
                        None => Some(c),
                    };
                },
                crate::model::LedgerItem::Transaction(t) => {
                    let ghost gp = view_opt_str(pending);
                    match Transaction::try_from(t, pending) {
                        Ok(st) => {
                            proof {
                                assert(transactions@.push(st).map_values(ftx)
                                    =~= transactions@.map_values(ftx).push(st@));
                            }
                            transactions.push(st);
                            pending = None;
                        },
                        Err(e) => {
                            failure = Some(e);
                            break ;
                        },
                    }
                },
                crate::model::LedgerItem::CommodityPrice(cp) => {
                    proof {
                        assert(commodity_prices@.push(cp).map_values(fcp)
                            =~= commodity_prices@.map_values(fcp).push(cp@));
                    }
                    commodity_prices.push(cp);
                    pending = None;
                },
                crate::model::LedgerItem::Include(_) => {},
            }
        }
        match failure {
            Some(e) => Err(e),
            None => Ok(Ledger { transactions, commodity_prices }),
        }
    }
}

/// Parse a document and flatten it in one step.
pub fn parse(input: &str) -> (r: Result<Ledger, Error>)
    ensures
        match sp_ledger(input@) {
            Ok(sl) => match (r, conv_ledger(sl)) {
                (Ok(l), Ok(ssl)) => l@ == ssl,
                (Err(Error::ConvertError(e1)), Err(e2)) => e1 == e2,
                _ => false,
            },
            Err((p, k)) => r matches Err(Error::ParseError(ParseError::String(m))) && m@
                == crate::parser::err_msg(p, k),
        },
{
    let l = match crate::parser::parse(input) {
        Ok(l) => l,
        Err(e) => {
            return Err(Error::ParseError(e));
        },
    };
    match Ledger::try_from(l) {
        Ok(sl) => Ok(sl),
        Err(e) => Err(Error::ConvertError(e)),
    }
}

} // verus!
