//! The serializer: a pure function from the document model and a
//! configuration to text.  Each construct has a spec-level rendering
//! function; every writer is proved to produce exactly that text.

use vstd::prelude::*;
use vstd::string::StrSliceExecFns;

use crate::dates::{Date, DateTime};
use crate::decimal::{pow10, Decimal};
use crate::model::{
    Amount, Balance, CommodityPrice, Ledger, LedgerItem, Posting, PostingAmount, Price,
    SpecAmount, SpecBalance, SpecCommodityPrice, SpecLedger, SpecLedgerItem, SpecPosting,
    SpecPostingAmount, SpecPrice, SpecTag, SpecTagValue, SpecTransaction, Tag, TagValue,
    Transaction, TransactionStatus,
};
use crate::text::{
    chars_to_string, pad_dec, push_pad_dec, push_range, push_u_dec, to_chars, u_dec,
};

verus! {

// --- Settings -----------------------------------------------------------------

/// Serialization options: indentation, line ending, date format patterns,
/// and whether a single-line posting comment stays on the posting's line.
pub struct SerializerSettings {
    pub indent: String,
    pub eol: String,
    pub transaction_date_format: String,
    pub commodity_date_format: String,
    pub posting_comments_sameline: bool,
}

pub struct SpecSettings {
    pub indent: Seq<char>,
    pub eol: Seq<char>,
    pub transaction_date_format: Seq<char>,
    pub commodity_date_format: Seq<char>,
    pub posting_comments_sameline: bool,
}

impl View for SerializerSettings {
    type V = SpecSettings;

    open spec fn view(&self) -> SpecSettings {
        SpecSettings {
            indent: self.indent@,
            eol: self.eol@,
            transaction_date_format: self.transaction_date_format@,
            commodity_date_format: self.commodity_date_format@,
            posting_comments_sameline: self.posting_comments_sameline,
        }
    }
}

/// Two spaces of indentation, `\n` line endings, ISO-style date patterns,
/// posting comments on their own lines.
pub open spec fn spec_default_settings() -> SpecSettings {
    SpecSettings {
        indent: "  "@,
        eol: "\n"@,
        transaction_date_format: "%Y-%m-%d"@,
        commodity_date_format: "%Y-%m-%d %H:%M:%S"@,
        posting_comments_sameline: false,
    }
}

impl SerializerSettings {
    /// The same settings with another indentation string.
    pub fn with_indent(self, indent: &str) -> (r: Self)
        ensures
            r@ == (SpecSettings { indent: indent@, ..self@ }),
    {
        SerializerSettings { indent: indent.to_owned(), ..self }
    }

    /// The same settings with another line-ending string.
    pub fn with_eol(self, eol: &str) -> (r: Self)
        ensures
            r@ == (SpecSettings { eol: eol@, ..self@ }),
    {
        SerializerSettings { eol: eol.to_owned(), ..self }
    }
}

impl Default for SerializerSettings {
    fn default() -> (r: Self)
        ensures
            r@ == spec_default_settings(),
    {
        SerializerSettings {
            indent: "  ".to_owned(),
            eol: "\n".to_owned(),
            transaction_date_format: "%Y-%m-%d".to_owned(),
            commodity_date_format: "%Y-%m-%d %H:%M:%S".to_owned(),
            posting_comments_sameline: false,
        }
    }
}

// --- Dates under a format pattern -----------------------------------------------

/// Render a date-time under a pattern: `%Y`, `%m`, `%d`, `%H`, `%M`, `%S`
/// emit zero-padded fields; any other character (and any unrecognized
/// `%`-pair) is emitted as it stands.
pub open spec fn fmt_dt(dt: DateTime, pat: Seq<char>) -> Seq<char>
    decreases pat.len(),
{
    if pat.len() == 0 {
        Seq::empty()
    } else if pat.len() >= 2 && pat[0] == '%' {
        let piece: Seq<char> = if pat[1] == 'Y' {
            pad_dec(dt.date.year as int, 4)
        } else if pat[1] == 'm' {
            pad_dec(dt.date.month as int, 2)
        } else if pat[1] == 'd' {
            pad_dec(dt.date.day as int, 2)
        } else if pat[1] == 'H' {
            pad_dec(dt.hour as int, 2)
        } else if pat[1] == 'M' {
            pad_dec(dt.minute as int, 2)
        } else if pat[1] == 'S' {
            pad_dec(dt.second as int, 2)
        } else {
            pat.subrange(0, 2)
        };
        piece + fmt_dt(dt, pat.subrange(2, pat.len() as int))
    } else {
        seq![pat[0]] + fmt_dt(dt, pat.drop_first())
    }
}

/// A date at midnight, for date-only patterns.
pub open spec fn date_at_midnight(d: Date) -> DateTime {
    DateTime { date: d, hour: 0, minute: 0, second: 0 }
}

/// The fixed `[YYYY-MM-DD]`-style body used for date tag values.
pub open spec fn iso_date(d: Date) -> Seq<char> {
    pad_dec(d.year as int, 4) + seq!['-'] + pad_dec(d.month as int, 2) + seq!['-'] + pad_dec(
        d.day as int,
        2,
    )
}

fn push_fmt_dt(out: &mut Vec<char>, dt: DateTime, pat: &Vec<char>)
    ensures
        final(out)@ == old(out)@ + fmt_dt(dt, pat@),
{
    let mut k: usize = 0;
    let ghost base = out@;
    proof {
        assert(pat@.subrange(0, pat@.len() as int) =~= pat@);
    }
    while k < pat.len()
        invariant
            k <= pat.len(),
            base + fmt_dt(dt, pat@) == out@ + fmt_dt(dt, pat@.subrange(k as int, pat@.len() as int)),
        decreases pat.len() - k,
    {
        let ghost pre = out@;
        let ghost remaining = pat@.subrange(k as int, pat@.len() as int);
        if pat.len() - k >= 2 && pat[k] == '%' {
            let spec2 = pat[k + 1];
            let ghost rest = pat@.subrange((k + 2) as int, pat@.len() as int);
            let ghost piece: Seq<char> = if spec2 == 'Y' {
                pad_dec(dt.date.year as int, 4)
            } else if spec2 == 'm' {
                pad_dec(dt.date.month as int, 2)
            } else if spec2 == 'd' {
                pad_dec(dt.date.day as int, 2)
            } else if spec2 == 'H' {
                pad_dec(dt.hour as int, 2)
            } else if spec2 == 'M' {
                pad_dec(dt.minute as int, 2)
            } else if spec2 == 'S' {
                pad_dec(dt.second as int, 2)
            } else {
                remaining.subrange(0, 2)
            };
            proof {
                assert(remaining.len() >= 2);
                assert(remaining[0] == '%');
                assert(remaining[1] == pat@[(k + 1) as int]);
                assert(remaining.subrange(2, remaining.len() as int) =~= rest);
                assert(fmt_dt(dt, remaining) == piece + fmt_dt(dt, rest));
            }
            if spec2 == 'Y' {
                push_pad_dec(out, dt.date.year as u128, 4);
            } else if spec2 == 'm' {
                push_pad_dec(out, dt.date.month as u128, 2);
            } else if spec2 == 'd' {
                push_pad_dec(out, dt.date.day as u128, 2);
            } else if spec2 == 'H' {
                push_pad_dec(out, dt.hour as u128, 2);
            } else if spec2 == 'M' {
                push_pad_dec(out, dt.minute as u128, 2);
            } else if spec2 == 'S' {
                push_pad_dec(out, dt.second as u128, 2);
            } else {
                out.push(pat[k]);
                out.push(pat[k + 1]);
                proof {
                    assert(remaining.subrange(0, 2) =~= seq![
                        pat@[k as int],
                        pat@[(k + 1) as int],
                    ]);
                    assert(out@ =~= pre + remaining.subrange(0, 2));
                }
            }
            proof {
                assert(out@ == pre + piece);
                assert(out@ + fmt_dt(dt, rest) =~= pre + fmt_dt(dt, remaining));
            }
            k = k + 2;
        } else {
            out.push(pat[k]);
            proof {
                let rest = pat@.subrange((k + 1) as int, pat@.len() as int);
                assert(remaining.drop_first() =~= rest);
                assert(remaining[0] == pat@[k as int]);
                assert(fmt_dt(dt, remaining) == seq![remaining[0]] + fmt_dt(dt, rest));
                assert(out@ =~= pre + seq![remaining[0]]);
                assert(out@ + fmt_dt(dt, rest) =~= pre + fmt_dt(dt, remaining));
            }
            k = k + 1;
        }
    }
    proof {
        assert(pat@.subrange(pat@.len() as int, pat@.len() as int) =~= Seq::<char>::empty());
    }
}

} // verus!

verus! {

// --- Rendered text of the value types -----------------------------------------

/// The canonical text of a decimal: the mantissa with a decimal point
/// inserted `scale` digits from the right, zero-padded (`0.1`, `6.00`).
#[verifier::opaque]
pub open spec fn dec_str(d: Decimal) -> Seq<char> {
    let a: int = if d.mantissa < 0 {
        -d.mantissa
    } else {
        d.mantissa as int
    };
    let sgn: Seq<char> = if d.mantissa < 0 {
        seq!['-']
    } else {
        Seq::empty()
    };
    if d.scale == 0 {
        sgn + u_dec(a)
    } else {
        sgn + u_dec(a / pow10(d.scale as nat)) + seq!['.'] + pad_dec(
            a % pow10(d.scale as nat),
            d.scale as int,
        )
    }
}

/// A signed integer in decimal.
pub open spec fn int_str(i: int) -> Seq<char> {
    if i < 0 {
        seq!['-'] + u_dec(-i)
    } else {
        u_dec(i)
    }
}

pub open spec fn ser_amount(a: SpecAmount) -> Seq<char> {
    match a.commodity.position {
        crate::model::CommodityPosition::Left => a.commodity.name + dec_str(a.quantity),
        crate::model::CommodityPosition::Right => dec_str(a.quantity) + seq![' ']
            + a.commodity.name,
    }
}

/// The lot-price suffix of a posting amount, if any.
pub open spec fn ser_lot_opt(lp: Option<SpecPrice>) -> Seq<char> {
    match lp {
        Some(SpecPrice::Unit(a)) => seq![' ', '{'] + ser_amount(a) + seq!['}'],
        Some(SpecPrice::Total(a)) => seq![' ', '{', '{'] + ser_amount(a) + seq!['}', '}'],
        None => Seq::empty(),
    }
}

/// The price suffix of a posting amount, if any.
pub open spec fn ser_price_opt(pr: Option<SpecPrice>) -> Seq<char> {
    match pr {
        Some(SpecPrice::Unit(a)) => seq![' ', '@', ' '] + ser_amount(a),
        Some(SpecPrice::Total(a)) => seq![' ', '@', '@', ' '] + ser_amount(a),
        None => Seq::empty(),
    }
}

pub open spec fn ser_posting_amount(pa: SpecPostingAmount) -> Seq<char> {
    ser_amount(pa.amount) + ser_lot_opt(pa.lot_price) + ser_price_opt(pa.price)
}

pub open spec fn ser_balance(b: SpecBalance) -> Seq<char> {
    match b {
        SpecBalance::Zero => seq!['0'],
        SpecBalance::Amount(a) => ser_amount(a),
    }
}

pub open spec fn ser_status(st: TransactionStatus) -> Seq<char> {
    match st {
        TransactionStatus::Pending => seq!['!'],
        TransactionStatus::Cleared => seq!['*'],
    }
}

pub open spec fn ser_tag_value(v: SpecTagValue) -> Seq<char> {
    match v {
        SpecTagValue::String(s) => s,
        SpecTagValue::Integer(i) => int_str(i as int),
        SpecTagValue::Float(d) => dec_str(d),
        SpecTagValue::Date(d) => seq!['['] + iso_date(d) + seq![']'],
    }
}

/// A tag as written on its comment line: the name, then `: value` when the
/// tag carries a value.
pub open spec fn ser_tag_inline(t: SpecTag) -> Seq<char> {
    match t.value {
        Some(v) => t.name + seq![':', ' '] + ser_tag_value(v),
        None => t.name,
    }
}

// --- Executable writers for the value types ------------------------------------

/// Append the characters of `s` to `out`.
fn push_str(out: &mut Vec<char>, s: &str)
    ensures
        final(out)@ == old(out)@ + s@,
{
    let v = to_chars(s);
    push_range(out, &v, 0, v.len());
    proof {
        assert(v@.subrange(0, v@.len() as int) =~= v@);
    }
}

fn push_decimal(out: &mut Vec<char>, d: Decimal)
    requires
        d.wf(),
    ensures
        final(out)@ == old(out)@ + dec_str(d),
{
    proof {
        reveal(dec_str);
    }
    let neg = d.mantissa < 0;
    if neg {
        out.push('-');
    }
    let a: u128 = if neg {
        (-d.mantissa) as u128
    } else {
        d.mantissa as u128
    };
    let ghost pre = out@;
    if d.scale == 0 {
        push_u_dec(out, a);
        proof {
            if neg {
                assert(pre =~= old(out)@ + seq!['-']);
                assert(out@ =~= old(out)@ + dec_str(d));
            } else {
                assert(out@ =~= old(out)@ + dec_str(d));
            }
        }
    } else {
        let p128 = crate::decimal::pow10_i128(d.scale);
        proof {
            crate::decimal::lemma_pow10_pos(d.scale as nat);
        }
        let p = p128 as u128;
        push_u_dec(out, a / p);
        out.push('.');
        push_pad_dec(out, a % p, d.scale);
        proof {
            let av: int = if d.mantissa < 0 {
                -d.mantissa
            } else {
                d.mantissa as int
            };
            let pw = pow10(d.scale as nat);
            assert((a / p) as int == av / pw);
            assert((a % p) as int == av % pw);
            assert(out@ =~= pre + u_dec(av / pw) + seq!['.'] + pad_dec(av % pw, d.scale as int));
            if neg {
                assert(pre =~= old(out)@ + seq!['-']);
            }
            assert(out@ =~= old(out)@ + dec_str(d));
        }
    }
}

fn push_amount(out: &mut Vec<char>, a: &Amount)
    requires
        a.quantity.wf(),
    ensures
        final(out)@ == old(out)@ + ser_amount(a@),
{
    match a.commodity.position {
        crate::model::CommodityPosition::Left => {
            push_str(out, a.commodity.name.as_str());
            push_decimal(out, a.quantity);
            proof {
                assert(out@ =~= old(out)@ + ser_amount(a@));
            }
        },
        crate::model::CommodityPosition::Right => {
            push_decimal(out, a.quantity);
            out.push(' ');
            push_str(out, a.commodity.name.as_str());
            proof {
                assert(out@ =~= old(out)@ + ser_amount(a@));
            }
        },
    }
}

fn push_lot_opt(out: &mut Vec<char>, lp: &Option<Price>)
    requires
        lp matches Some(p) ==> p@.wf(),
    ensures
        final(out)@ == old(out)@ + ser_lot_opt(match lp {
            Some(p) => Some(p@),
            None => None,
        }),
{
    match lp {
        Some(Price::Unit(a)) => {
            out.push(' ');
            out.push('{');
            push_amount(out, a);
            out.push('}');
            proof {
                assert(out@ =~= old(out)@ + (seq![' ', '{'] + ser_amount(a@) + seq!['}']));
            }
        },
        Some(Price::Total(a)) => {
            out.push(' ');
            out.push('{');
            out.push('{');
            push_amount(out, a);
            out.push('}');
            out.push('}');
            proof {
                assert(out@ =~= old(out)@ + (seq![' ', '{', '{'] + ser_amount(a@) + seq![
                    '}',
                    '}',
                ]));
            }
        },
        None => {
            proof {
                assert(out@ =~= old(out)@ + Seq::<char>::empty());
            }
        },
    }
}

fn push_price_opt(out: &mut Vec<char>, pr: &Option<Price>)
    requires
        pr matches Some(p) ==> p@.wf(),
    ensures
        final(out)@ == old(out)@ + ser_price_opt(match pr {
            Some(p) => Some(p@),
            None => None,
        }),
{
    match pr {
        Some(Price::Unit(a)) => {
            out.push(' ');
            out.push('@');
            out.push(' ');
            push_amount(out, a);
            proof {
                assert(out@ =~= old(out)@ + (seq![' ', '@', ' '] + ser_amount(a@)));
            }
        },
        Some(Price::Total(a)) => {
            out.push(' ');
            out.push('@');
            out.push('@');
            out.push(' ');
            push_amount(out, a);
            proof {
                assert(out@ =~= old(out)@ + (seq![' ', '@', '@', ' '] + ser_amount(a@)));
            }
        },
        None => {
            proof {
                assert(out@ =~= old(out)@ + Seq::<char>::empty());
            }
        },
    }
}

fn push_posting_amount(out: &mut Vec<char>, pa: &PostingAmount)
    requires
        pa@.wf(),
    ensures
        final(out)@ == old(out)@ + ser_posting_amount(pa@),
{
    push_amount(out, &pa.amount);
    push_lot_opt(out, &pa.lot_price);
    push_price_opt(out, &pa.price);
    proof {
        assert(out@ =~= old(out)@ + ser_posting_amount(pa@));
    }
}

fn push_balance(out: &mut Vec<char>, b: &Balance)
    requires
        b@.wf(),
    ensures
        final(out)@ == old(out)@ + ser_balance(b@),
{
    match b {
        Balance::Zero => {
            out.push('0');
            proof {
                assert(out@ =~= old(out)@ + ser_balance(b@));
            }
        },
        Balance::Amount(a) => {
            push_amount(out, a);
        },
    }
}

fn push_status(out: &mut Vec<char>, st: TransactionStatus)
    ensures
        final(out)@ == old(out)@ + ser_status(st),
{
    match st {
        TransactionStatus::Pending => out.push('!'),
        TransactionStatus::Cleared => out.push('*'),
    }
    proof {
        assert(out@ =~= old(out)@ + ser_status(st));
    }
}

fn push_tag_value(out: &mut Vec<char>, v: &TagValue)
    requires
        v@ matches SpecTagValue::Float(d) ==> d.wf(),
    ensures
        final(out)@ == old(out)@ + ser_tag_value(v@),
{
    match v {
        TagValue::String(s) => {
            push_str(out, s.as_str());
        },
        TagValue::Integer(i) => {
            let neg = *i < 0;
            if neg {
                out.push('-');
            }
            let a: u128 = if *i == i64::MIN {
                9223372036854775808u128
            } else if neg {
                (-*i) as u128
            } else {
                *i as u128
            };
            let ghost pre = out@;
            push_u_dec(out, a);
            proof {
                if neg {
                    assert(pre =~= old(out)@ + seq!['-']);
                }
                assert(out@ =~= old(out)@ + ser_tag_value(v@));
            }
        },
        TagValue::Float(d) => {
            push_decimal(out, *d);
        },
        TagValue::Date(d) => {
            out.push('[');
            push_pad_dec(out, d.year as u128, 4);
            out.push('-');
            push_pad_dec(out, d.month as u128, 2);
            out.push('-');
            push_pad_dec(out, d.day as u128, 2);
            out.push(']');
            proof {
                assert(out@ =~= old(out)@ + ser_tag_value(v@));
            }
        },
    }
}

fn push_tag_inline(out: &mut Vec<char>, t: &Tag)
    requires
        t@.wf(),
    ensures
        final(out)@ == old(out)@ + ser_tag_inline(t@),
{
    push_str(out, t.name.as_str());
    match &t.value {
        Some(v) => {
            out.push(':');
            out.push(' ');
            push_tag_value(out, v);
        },
        None => {},
    }
    proof {
        assert(out@ =~= old(out)@ + ser_tag_inline(t@));
    }
}

} // verus!

verus! {

// --- Composite renderings -------------------------------------------------------

/// Comment text written one line per `\n`-separated piece, each as
/// `<eol><indent>; <piece>`.
pub open spec fn ser_comment_lines_at(c: Seq<char>, i: int, eol: Seq<char>, indent: Seq<char>) -> Seq<
    char,
>
    decreases c.len() - i,
{
    let k = crate::text::run_end(c, i, |ch: char| ch != '\n');
    let piece = eol + indent + seq![';', ' '] + c.subrange(i, k);
    if i <= k < c.len() {
        piece + ser_comment_lines_at(c, k + 1, eol, indent)
    } else {
        piece
    }
}

/// Transaction-level tags, each on its own line.
pub open spec fn ser_tx_tags(tags: Seq<SpecTag>, i: int, eol: Seq<char>, indent: Seq<char>) -> Seq<
    char,
>
    decreases tags.len() - i,
{
    if 0 <= i < tags.len() {
        eol + indent + seq![';', ' '] + ser_tag_inline(tags[i]) + ser_tx_tags(
            tags,
            i + 1,
            eol,
            indent,
        )
    } else {
        Seq::empty()
    }
}

/// Posting-level tags, written inline after the posting.
pub open spec fn ser_posting_tags(tags: Seq<SpecTag>, i: int, indent: Seq<char>) -> Seq<char>
    decreases tags.len() - i,
{
    if 0 <= i < tags.len() {
        indent + seq![';', ' '] + ser_tag_inline(tags[i]) + ser_posting_tags(tags, i + 1, indent)
    } else {
        Seq::empty()
    }
}

/// The comment of a posting: inline when single-line and configured so,
/// otherwise one line per piece.
pub open spec fn ser_posting_comment(c: Option<Seq<char>>, st: SpecSettings) -> Seq<char> {
    match c {
        Some(t) => if crate::text::run_end(t, 0, |ch: char| ch != '\n') == t.len()
            && st.posting_comments_sameline {
            st.indent + seq![';', ' '] + t
        } else {
            ser_comment_lines_at(t, 0, st.eol, st.indent)
        },
        None => Seq::empty(),
    }
}

/// The start of a posting line: the status mark and the bracketed account.
pub open spec fn ser_posting_pre(p: SpecPosting) -> Seq<char> {
    let stp: Seq<char> = match p.status {
        Some(x) => ser_status(x) + seq![' '],
        None => Seq::empty(),
    };
    let acct: Seq<char> = match p.reality {
        crate::model::Reality::Real => p.account,
        crate::model::Reality::BalancedVirtual => seq!['['] + p.account + seq![']'],
        crate::model::Reality::UnbalancedVirtual => seq!['('] + p.account + seq![')'],
    };
    stp + acct
}

/// The value part of a posting line: the indent separator, the amount, and
/// the balance assertion.
pub open spec fn ser_posting_val(p: SpecPosting, st: SpecSettings) -> Seq<char> {
    let sep: Seq<char> = if p.amount is Some || p.balance is Some {
        st.indent
    } else {
        Seq::empty()
    };
    let am: Seq<char> = match p.amount {
        Some(pa) => ser_posting_amount(pa),
        None => Seq::empty(),
    };
    let bl: Seq<char> = match p.balance {
        Some(b) => seq![' ', '=', ' '] + ser_balance(b),
        None => Seq::empty(),
    };
    sep + am + bl
}

/// The head of a posting line: status, bracketed account, then amount and
/// balance behind an indent.
pub open spec fn ser_posting_head(p: SpecPosting, st: SpecSettings) -> Seq<char> {
    ser_posting_pre(p) + ser_posting_val(p, st)
}

/// One posting line: its head, inline tags, then its comment.
pub open spec fn ser_posting(p: SpecPosting, st: SpecSettings) -> Seq<char> {
    ser_posting_head(p, st) + ser_posting_tags(p.metadata.tags, 0, st.indent)
        + ser_posting_comment(p.comment, st)
}

/// The postings of a transaction, each as `<eol><indent><posting>`.
pub open spec fn ser_postings(ps: Seq<SpecPosting>, i: int, st: SpecSettings) -> Seq<char>
    decreases ps.len() - i,
{
    if 0 <= i < ps.len() {
        st.eol + st.indent + ser_posting(ps[i], st) + ser_postings(ps, i + 1, st)
    } else {
        Seq::empty()
    }
}

/// The dated part of a transaction header: date, effective date, status
/// mark, and code.
pub open spec fn ser_tx_dates(t: SpecTransaction, st: SpecSettings) -> Seq<char> {
    let dt = fmt_dt(date_at_midnight(t.date), st.transaction_date_format);
    let ed: Seq<char> = match t.effective_date {
        Some(d) => seq!['='] + fmt_dt(date_at_midnight(d), st.transaction_date_format),
        None => Seq::empty(),
    };
    let stp: Seq<char> = match t.status {
        Some(x) => seq![' '] + ser_status(x),
        None => Seq::empty(),
    };
    let cd: Seq<char> = match t.code {
        Some(c) => seq![' ', '('] + c + seq![')'],
        None => Seq::empty(),
    };
    dt + ed + stp + cd
}

/// The free-text part of a transaction header: the description and the
/// header comment lines.
pub open spec fn ser_tx_desc(t: SpecTransaction, st: SpecSettings) -> Seq<char> {
    let ds: Seq<char> = match t.description {
        Some(d) => if d.len() > 0 {
            seq![' '] + d
        } else {
            Seq::empty()
        },
        None => Seq::empty(),
    };
    let cm: Seq<char> = match t.comment {
        Some(c) => ser_comment_lines_at(c, 0, st.eol, st.indent),
        None => Seq::empty(),
    };
    ds + cm
}

/// The header of a transaction: date, effective date, status, code,
/// description, and the header comment lines.
pub open spec fn ser_tx_header(t: SpecTransaction, st: SpecSettings) -> Seq<char> {
    ser_tx_dates(t, st) + ser_tx_desc(t, st)
}

/// A transaction: its header, the header tags, then the postings.
pub open spec fn ser_transaction(t: SpecTransaction, st: SpecSettings) -> Seq<char> {
    ser_tx_header(t, st) + ser_tx_tags(t.posting_metadata.tags, 0, st.eol, st.indent)
        + ser_postings(t.postings, 0, st)
}

/// A commodity price line: `P <datetime> <commodity> <amount>`.
pub open spec fn ser_cprice(cp: SpecCommodityPrice, st: SpecSettings) -> Seq<char> {
    seq!['P', ' '] + fmt_dt(cp.datetime, st.commodity_date_format) + seq![' ']
        + cp.commodity_name + seq![' '] + ser_amount(cp.amount)
}

/// One top-level item, terminated by the configured line ending.
pub open spec fn ser_item(it: SpecLedgerItem, st: SpecSettings) -> Seq<char> {
    match it {
        SpecLedgerItem::EmptyLine => st.eol,
        SpecLedgerItem::LineComment(c) => seq![';', ' '] + c + st.eol,
        SpecLedgerItem::Transaction(t) => ser_transaction(t, st) + st.eol,
        SpecLedgerItem::CommodityPrice(cp) => ser_cprice(cp, st) + st.eol,
        SpecLedgerItem::Include(p) => seq!['i', 'n', 'c', 'l', 'u', 'd', 'e', ' '] + p + st.eol,
    }
}

pub open spec fn ser_items(items: Seq<SpecLedgerItem>, i: int, st: SpecSettings) -> Seq<char>
    decreases items.len() - i,
{
    if 0 <= i < items.len() {
        ser_item(items[i], st) + ser_items(items, i + 1, st)
    } else {
        Seq::empty()
    }
}

/// A whole document: its items, in order.
pub open spec fn ser_ledger(l: SpecLedger, st: SpecSettings) -> Seq<char> {
    ser_items(l.items, 0, st)
}

// --- Executable composite writers ----------------------------------------------

fn push_comment_lines(out: &mut Vec<char>, c: &Vec<char>, eol: &Vec<char>, indent: &Vec<char>)
    ensures
        final(out)@ == old(out)@ + ser_comment_lines_at(c@, 0, eol@, indent@),
{
    let ghost f = |ch: char| ch != '\n';
    let mut i: usize = 0;
    let ghost base = out@;
    loop
        invariant_except_break
            base + ser_comment_lines_at(c@, 0, eol@, indent@) == out@ + ser_comment_lines_at(
                c@,
                i as int,
                eol@,
                indent@,
            ),
        invariant
            i <= c.len(),
            f == (|ch: char| ch != '\n'),
        ensures
            out@ == base + ser_comment_lines_at(c@, 0, eol@, indent@),
        decreases c.len() - i,
    {
        let ghost pre = out@;
        let mut k = i;
        while k < c.len() && c[k] != '\n'
            invariant
                i <= k <= c.len(),
                f == (|ch: char| ch != '\n'),
                crate::text::run_end(c@, i as int, f) == crate::text::run_end(c@, k as int, f),
            decreases c.len() - k,
        {
            proof {
                crate::text::lemma_run_end_step(c@, k as int, k as int, f);
            }
            k = k + 1;
        }
        push_range(out, eol, 0, eol.len());
        push_range(out, indent, 0, indent.len());
        out.push(';');
        out.push(' ');
        push_range(out, c, i, k);
        proof {
            assert(eol@.subrange(0, eol@.len() as int) =~= eol@);
            assert(indent@.subrange(0, indent@.len() as int) =~= indent@);
            let piece = eol@ + indent@ + seq![';', ' '] + c@.subrange(i as int, k as int);
            assert(out@ =~= pre + piece);
        }
        if k < c.len() {
            proof {
                let piece = eol@ + indent@ + seq![';', ' '] + c@.subrange(i as int, k as int);
                assert(ser_comment_lines_at(c@, i as int, eol@, indent@) == piece
                    + ser_comment_lines_at(c@, (k + 1) as int, eol@, indent@));
                assert(out@ + ser_comment_lines_at(c@, (k + 1) as int, eol@, indent@) =~= pre
                    + ser_comment_lines_at(c@, i as int, eol@, indent@));
            }
            i = k + 1;
        } else {
            proof {
                let piece = eol@ + indent@ + seq![';', ' '] + c@.subrange(i as int, k as int);
                assert(ser_comment_lines_at(c@, i as int, eol@, indent@) == piece);
                assert(out@ =~= pre + ser_comment_lines_at(c@, i as int, eol@, indent@));
            }
            break ;
        }
    }
}

fn push_posting_pre(out: &mut Vec<char>, p: &Posting)
    ensures
        final(out)@ == old(out)@ + ser_posting_pre(p@),
{
    let ghost g0 = out@;
    let ghost stp: Seq<char> = match p@.status {
        Some(x) => ser_status(x) + seq![' '],
        None => Seq::empty(),
    };
    match p.status {
        Some(x) => {
            push_status(out, x);
            out.push(' ');
            proof {
                assert(out@ =~= g0 + stp);
            }
        },
        None => {
            proof {
                assert(out@ =~= g0 + stp);
            }
        },
    }
    let ghost acct: Seq<char> = match p@.reality {
        crate::model::Reality::Real => p@.account,
        crate::model::Reality::BalancedVirtual => seq!['['] + p@.account + seq![']'],
        crate::model::Reality::UnbalancedVirtual => seq!['('] + p@.account + seq![')'],
    };
    let ghost g1 = out@;
    match p.reality {
        crate::model::Reality::Real => {
            push_str(out, p.account.as_str());
            proof {
                assert(out@ =~= g1 + acct);
            }
        },
        crate::model::Reality::BalancedVirtual => {
            out.push('[');
            push_str(out, p.account.as_str());
            out.push(']');
            proof {
                assert(out@ =~= g1 + acct);
            }
        },
        crate::model::Reality::UnbalancedVirtual => {
            out.push('(');
            push_str(out, p.account.as_str());
            out.push(')');
            proof {
                assert(out@ =~= g1 + acct);
            }
        },
    }
    proof {
        assert(out@ =~= old(out)@ + (stp + acct));
    }
}

fn push_posting_val(out: &mut Vec<char>, p: &Posting, st: &SerializerSettings, indent: &Vec<char>)
    requires
        p@.wf(),
        indent@ == st@.indent,
    ensures
        final(out)@ == old(out)@ + ser_posting_val(p@, st@),
{
    let ghost sep: Seq<char> = if p@.amount is Some || p@.balance is Some {
        st@.indent
    } else {
        Seq::empty()
    };
    let ghost g2 = out@;
    if p.amount.is_some() || p.balance.is_some() {
        push_range(out, indent, 0, indent.len());
        proof {
            assert(indent@.subrange(0, indent@.len() as int) =~= indent@);
            assert(out@ =~= g2 + sep);
        }
    } else {
        proof {
            assert(out@ =~= g2 + sep);
        }
    }
    let ghost am: Seq<char> = match p@.amount {
        Some(pa) => ser_posting_amount(pa),
        None => Seq::empty(),
    };
    let ghost g3 = out@;
    match &p.amount {
        Some(pa) => {
            push_posting_amount(out, pa);
            proof {
                assert(out@ =~= g3 + am);
            }
        },
        None => {
            proof {
                assert(out@ =~= g3 + am);
            }
        },
    }
    let ghost bl: Seq<char> = match p@.balance {
        Some(b) => seq![' ', '=', ' '] + ser_balance(b),
        None => Seq::empty(),
    };
    let ghost g4 = out@;
    match &p.balance {
        Some(b) => {
            out.push(' ');
            out.push('=');
            out.push(' ');
            push_balance(out, b);
            proof {
                assert(out@ =~= g4 + bl);
            }
        },
        None => {
            proof {
                assert(out@ =~= g4 + bl);
            }
        },
    }
    proof {
        assert(out@ =~= old(out)@ + (sep + am + bl));
    }
}

fn push_posting_head(out: &mut Vec<char>, p: &Posting, st: &SerializerSettings, indent: &Vec<char>)
    requires
        p@.wf(),
        indent@ == st@.indent,
    ensures
        final(out)@ == old(out)@ + ser_posting_head(p@, st@),
{
    push_posting_pre(out, p);
    push_posting_val(out, p, st, indent);
    proof {
        assert(out@ =~= old(out)@ + ser_posting_head(p@, st@));
    }
}

#[verifier::rlimit(60)]
fn push_posting_comment(
    out: &mut Vec<char>,
    c: &Option<String>,
    st: &SerializerSettings,
    indent: &Vec<char>,
    eol: &Vec<char>,
)
    requires
        indent@ == st@.indent,
        eol@ == st@.eol,
    ensures
        final(out)@ == old(out)@ + ser_posting_comment(crate::model::view_opt_str(*c), st@),
{
    match c {
        Some(cs) => {
            let cv = to_chars(cs.as_str());
            let ghost f = |ch: char| ch != '\n';
            let mut k: usize = 0;
            while k < cv.len() && cv[k] != '\n'
                invariant
                    k <= cv.len(),
                    f == (|ch: char| ch != '\n'),
                    crate::text::run_end(cv@, 0, f) == crate::text::run_end(cv@, k as int, f),
                decreases cv.len() - k,
            {
                proof {
                    crate::text::lemma_run_end_step(cv@, k as int, k as int, f);
                }
                k = k + 1;
            }
            if k == cv.len() && st.posting_comments_sameline {
                push_range(out, indent, 0, indent.len());
                out.push(';');
                out.push(' ');
                push_range(out, &cv, 0, cv.len());
                proof {
                    assert(indent@.subrange(0, indent@.len() as int) =~= indent@);
                    assert(cv@.subrange(0, cv@.len() as int) =~= cv@);
                    assert(out@ =~= old(out)@ + ser_posting_comment(
                        crate::model::view_opt_str(*c),
                        st@,
                    ));
                }
            } else {
                push_comment_lines(out, &cv, eol, indent);
            }
        },
        None => {
            proof {
                assert(out@ =~= old(out)@ + Seq::<char>::empty());
            }
        },
    }
}

fn push_posting(out: &mut Vec<char>, p: &Posting, st: &SerializerSettings, indent: &Vec<char>, eol: &Vec<char>)
    requires
        p@.wf(),
        indent@ == st@.indent,
        eol@ == st@.eol,
    ensures
        final(out)@ == old(out)@ + ser_posting(p@, st@),
{
    push_posting_head(out, p, st, indent);
    // inline tags
    let ghost tags_base = out@;
    let mut ti: usize = 0;
    let ghost stags = p@.metadata.tags;
    loop
        invariant
            ti <= p.metadata.tags.len(),
            stags == p@.metadata.tags,
            p@.wf(),
            indent@ == st@.indent,
            tags_base + ser_posting_tags(stags, 0, st@.indent) == out@ + ser_posting_tags(
                stags,
                ti as int,
                st@.indent,
            ),
        ensures
            out@ == tags_base + ser_posting_tags(stags, 0, st@.indent),
        decreases p.metadata.tags.len() - ti,
    {
        if ti >= p.metadata.tags.len() {
            break ;
        }
        let ghost pre = out@;
        push_range(out, indent, 0, indent.len());
        out.push(';');
        out.push(' ');
        push_tag_inline(out, &p.metadata.tags[ti]);
        proof {
            assert(indent@.subrange(0, indent@.len() as int) =~= indent@);
            assert(stags[ti as int] == p.metadata.tags@.map_values(|t: Tag| t@)[ti as int]);
            let piece = st@.indent + seq![';', ' '] + ser_tag_inline(stags[ti as int]);
            assert(out@ =~= pre + piece);
            assert(out@ + ser_posting_tags(stags, (ti + 1) as int, st@.indent) =~= pre
                + ser_posting_tags(stags, ti as int, st@.indent));
        }
        ti = ti + 1;
    }
    push_posting_comment(out, &p.comment, st, indent, eol);
    proof {
        assert(out@ =~= old(out)@ + ser_posting(p@, st@));
    }
}

fn push_tx_dates(out: &mut Vec<char>, t: &Transaction, st: &SerializerSettings, pat: &Vec<char>)
    requires
        pat@ == st@.transaction_date_format,
    ensures
        final(out)@ == old(out)@ + ser_tx_dates(t@, st@),
{
    let ghost g0 = out@;
    push_fmt_dt(out, crate::dates::DateTime { date: t.date, hour: 0, minute: 0, second: 0 }, pat);
    let ghost dts = fmt_dt(date_at_midnight(t@.date), st@.transaction_date_format);
    proof {
        assert(out@ =~= g0 + dts);
    }
    let ghost ed: Seq<char> = match t@.effective_date {
        Some(d) => seq!['='] + fmt_dt(date_at_midnight(d), st@.transaction_date_format),
        None => Seq::empty(),
    };
    let ghost g1 = out@;
    match t.effective_date {
        Some(d) => {
            out.push('=');
            push_fmt_dt(out, crate::dates::DateTime { date: d, hour: 0, minute: 0, second: 0 }, pat);
            proof {
                assert(out@ =~= g1 + ed);
            }
        },
        None => {
            proof {
                assert(out@ =~= g1 + ed);
            }
        },
    }
    let ghost stp: Seq<char> = match t@.status {
        Some(x) => seq![' '] + ser_status(x),
        None => Seq::empty(),
    };
    let ghost g2 = out@;
    match t.status {
        Some(x) => {
            out.push(' ');
            push_status(out, x);
            proof {
                assert(out@ =~= g2 + stp);
            }
        },
        None => {
            proof {
                assert(out@ =~= g2 + stp);
            }
        },
    }
    let ghost cd: Seq<char> = match t@.code {
        Some(c) => seq![' ', '('] + c + seq![')'],
        None => Seq::empty(),
    };
    let ghost g3 = out@;
    match &t.code {
        Some(c) => {
            out.push(' ');
            out.push('(');
            push_str(out, c.as_str());
            out.push(')');
            proof {
                assert(out@ =~= g3 + cd);
            }
        },
        None => {
            proof {
                assert(out@ =~= g3 + cd);
            }
        },
    }
    proof {
        assert(out@ =~= old(out)@ + (dts + ed + stp + cd));
    }
}

fn push_tx_desc(
    out: &mut Vec<char>,
    t: &Transaction,
    st: &SerializerSettings,
    indent: &Vec<char>,
    eol: &Vec<char>,
)
    requires
        indent@ == st@.indent,
        eol@ == st@.eol,
    ensures
        final(out)@ == old(out)@ + ser_tx_desc(t@, st@),
{
    let ghost ds: Seq<char> = match t@.description {
        Some(d) => if d.len() > 0 {
            seq![' '] + d
        } else {
            Seq::empty()
        },
        None => Seq::empty(),
    };
    let ghost g4 = out@;
    match &t.description {
        Some(d) => {
            if d.as_str().unicode_len() > 0 {
                out.push(' ');
                push_str(out, d.as_str());
                proof {
                    assert(out@ =~= g4 + ds);
                }
            } else {
                proof {
                    assert(out@ =~= g4 + ds);
                }
            }
        },
        None => {
            proof {
                assert(out@ =~= g4 + ds);
            }
        },
    }
    let ghost cm: Seq<char> = match t@.comment {
        Some(c) => ser_comment_lines_at(c, 0, st@.eol, st@.indent),
        None => Seq::empty(),
    };
    let ghost g5 = out@;
    match &t.comment {
        Some(c) => {
            let cv = to_chars(c.as_str());
            push_comment_lines(out, &cv, eol, indent);
            proof {
                assert(out@ =~= g5 + cm);
            }
        },
        None => {
            proof {
                assert(out@ =~= g5 + cm);
            }
        },
    }
    proof {
        assert(out@ =~= old(out)@ + (ds + cm));
    }
}

fn push_tx_header(
    out: &mut Vec<char>,
    t: &Transaction,
    st: &SerializerSettings,
    indent: &Vec<char>,
    eol: &Vec<char>,
    pat: &Vec<char>,
)
    requires
        indent@ == st@.indent,
        eol@ == st@.eol,
        pat@ == st@.transaction_date_format,
    ensures
        final(out)@ == old(out)@ + ser_tx_header(t@, st@),
{
    push_tx_dates(out, t, st, pat);
    push_tx_desc(out, t, st, indent, eol);
    proof {
        assert(out@ =~= old(out)@ + ser_tx_header(t@, st@));
    }
}

fn push_transaction(
    out: &mut Vec<char>,
    t: &Transaction,
    st: &SerializerSettings,
    indent: &Vec<char>,
    eol: &Vec<char>,
    pat: &Vec<char>,
)
    requires
        t@.wf(),
        indent@ == st@.indent,
        eol@ == st@.eol,
        pat@ == st@.transaction_date_format,
    ensures
        final(out)@ == old(out)@ + ser_transaction(t@, st@),
{
    push_tx_header(out, t, st, indent, eol, pat);
    // tags
    let ghost tags_base = out@;
    let ghost stags = t@.posting_metadata.tags;
    let mut ti: usize = 0;
    loop
        invariant
            ti <= t.posting_metadata.tags.len(),
            stags == t@.posting_metadata.tags,
            t@.wf(),
            indent@ == st@.indent,
            eol@ == st@.eol,
            tags_base + ser_tx_tags(stags, 0, st@.eol, st@.indent) == out@ + ser_tx_tags(
                stags,
                ti as int,
                st@.eol,
                st@.indent,
            ),
        ensures
            out@ == tags_base + ser_tx_tags(stags, 0, st@.eol, st@.indent),
        decreases t.posting_metadata.tags.len() - ti,
    {
        if ti >= t.posting_metadata.tags.len() {
            break ;
        }
        let ghost pre = out@;
        push_range(out, eol, 0, eol.len());
        push_range(out, indent, 0, indent.len());
        out.push(';');
        out.push(' ');
        push_tag_inline(out, &t.posting_metadata.tags[ti]);
        proof {
            assert(eol@.subrange(0, eol@.len() as int) =~= eol@);
            assert(indent@.subrange(0, indent@.len() as int) =~= indent@);
            assert(stags[ti as int] == t.posting_metadata.tags@.map_values(|tg: Tag| tg@)[ti as int]);
            let piece = st@.eol + st@.indent + seq![';', ' '] + ser_tag_inline(stags[ti as int]);
            assert(out@ =~= pre + piece);
            assert(out@ + ser_tx_tags(stags, (ti + 1) as int, st@.eol, st@.indent) =~= pre
                + ser_tx_tags(stags, ti as int, st@.eol, st@.indent));
        }
        ti = ti + 1;
    }
    // postings
    let ghost ps_base = out@;
    let ghost sps = t@.postings;
    let mut pi: usize = 0;
    loop
        invariant
            pi <= t.postings.len(),
            sps == t@.postings,
            t@.wf(),
            indent@ == st@.indent,
            eol@ == st@.eol,
            ps_base + ser_postings(sps, 0, st@) == out@ + ser_postings(sps, pi as int, st@),
        ensures
            out@ == ps_base + ser_postings(sps, 0, st@),
        decreases t.postings.len() - pi,
    {
        if pi >= t.postings.len() {
            break ;
        }
        let ghost pre = out@;
        push_range(out, eol, 0, eol.len());
        push_range(out, indent, 0, indent.len());
        proof {
            assert(eol@.subrange(0, eol@.len() as int) =~= eol@);
            assert(indent@.subrange(0, indent@.len() as int) =~= indent@);
            assert(sps[pi as int] == t.postings@.map_values(|p: Posting| p@)[pi as int]);
            assert((t@.postings)[pi as int].wf());
        }
        push_posting(out, &t.postings[pi], st, indent, eol);
        proof {
            let piece = st@.eol + st@.indent + ser_posting(sps[pi as int], st@);
            assert(out@ =~= pre + piece);
            assert(out@ + ser_postings(sps, (pi + 1) as int, st@) =~= pre + ser_postings(
                sps,
                pi as int,
                st@,
            ));
        }
        pi = pi + 1;
    }
    proof {
        assert(out@ =~= old(out)@ + ser_transaction(t@, st@));
    }
}

fn push_cprice(out: &mut Vec<char>, cp: &CommodityPrice, st: &SerializerSettings, pat: &Vec<char>)
    requires
        cp@.wf(),
        pat@ == st@.commodity_date_format,
    ensures
        final(out)@ == old(out)@ + ser_cprice(cp@, st@),
{
    out.push('P');
    out.push(' ');
    push_fmt_dt(out, cp.datetime, pat);
    out.push(' ');
    push_str(out, cp.commodity_name.as_str());
    out.push(' ');
    push_amount(out, &cp.amount);
    proof {
        assert(out@ =~= old(out)@ + ser_cprice(cp@, st@));
    }
}

fn push_item(out: &mut Vec<char>, it: &LedgerItem, st: &SerializerSettings)
    requires
        it@.wf(),
    ensures
        final(out)@ == old(out)@ + ser_item(it@, st@),
{
    let indent = to_chars(st.indent.as_str());
    let eol = to_chars(st.eol.as_str());
    match it {
        LedgerItem::EmptyLine => {
            push_range(out, &eol, 0, eol.len());
            proof {
                assert(eol@.subrange(0, eol@.len() as int) =~= eol@);
                assert(out@ =~= old(out)@ + ser_item(it@, st@));
            }
        },
        LedgerItem::LineComment(c) => {
            out.push(';');
            out.push(' ');
            push_str(out, c.as_str());
            push_range(out, &eol, 0, eol.len());
            proof {
                assert(eol@.subrange(0, eol@.len() as int) =~= eol@);
                assert(out@ =~= old(out)@ + ser_item(it@, st@));
            }
        },
        LedgerItem::Transaction(t) => {
            let pat = to_chars(st.transaction_date_format.as_str());
            push_transaction(out, t, st, &indent, &eol, &pat);
            push_range(out, &eol, 0, eol.len());
            proof {
                assert(eol@.subrange(0, eol@.len() as int) =~= eol@);
                assert(out@ =~= old(out)@ + ser_item(it@, st@));
            }
        },
        LedgerItem::CommodityPrice(cp) => {
            let pat = to_chars(st.commodity_date_format.as_str());
            push_cprice(out, cp, st, &pat);
            push_range(out, &eol, 0, eol.len());
            proof {
                assert(eol@.subrange(0, eol@.len() as int) =~= eol@);
                assert(out@ =~= old(out)@ + ser_item(it@, st@));
            }
        },
        LedgerItem::Include(p) => {
            out.push('i');
            out.push('n');
            out.push('c');
            out.push('l');
            out.push('u');
            out.push('d');
            out.push('e');
            out.push(' ');
            push_str(out, p.as_str());
            push_range(out, &eol, 0, eol.len());
            proof {
                assert(eol@.subrange(0, eol@.len() as int) =~= eol@);
                assert(out@ =~= old(out)@ + ser_item(it@, st@));
            }
        },
    }
}

// --- The serializer interface ----------------------------------------------------

/// Renders a construct of the document model as text under a configuration.
/// `sser` is the spec-level text; `to_string_pretty` produces exactly it.
pub trait Serializer {
    /// The rendered text.
    spec fn sser(&self, settings: SpecSettings) -> Seq<char>;

    /// The decimals held by the construct are well-formed.
    spec fn ser_wf(&self) -> bool;

    /// Render as text under `settings`.
    fn to_string_pretty(&self, settings: &SerializerSettings) -> (r: String)
        requires
            self.ser_wf(),
        ensures
            r@ == self.sser(settings@),
    ;
}

impl Serializer for Ledger {
    open spec fn sser(&self, settings: SpecSettings) -> Seq<char> {
        ser_ledger(self@, settings)
    }

    open spec fn ser_wf(&self) -> bool {
        self@.wf()
    }

    fn to_string_pretty(&self, settings: &SerializerSettings) -> (r: String) {
        let mut out: Vec<char> = Vec::new();
        let ghost sitems = self@.items;
        let mut i: usize = 0;
        loop
            invariant
                i <= self.items.len(),
                sitems == self@.items,
                self@.wf(),
                ser_items(sitems, 0, settings@) == out@ + ser_items(sitems, i as int, settings@),
            ensures
                out@ == ser_items(sitems, 0, settings@),
            decreases self.items.len() - i,
        {
            if i >= self.items.len() {
                break ;
            }
            let ghost pre = out@;
            proof {
                assert(sitems[i as int] == self.items@.map_values(|x: LedgerItem| x@)[i as int]);
                assert((self@.items)[i as int].wf());
            }
            push_item(&mut out, &self.items[i], settings);
            proof {
                assert(out@ + ser_items(sitems, (i + 1) as int, settings@) =~= pre + ser_items(
                    sitems,
                    i as int,
                    settings@,
                ));
            }
            i = i + 1;
        }
        chars_to_string(&out)
    }
}

impl Serializer for LedgerItem {
    open spec fn sser(&self, settings: SpecSettings) -> Seq<char> {
        ser_item(self@, settings)
    }

    open spec fn ser_wf(&self) -> bool {
        self@.wf()
    }

    fn to_string_pretty(&self, settings: &SerializerSettings) -> (r: String) {
        let mut out: Vec<char> = Vec::new();
        push_item(&mut out, self, settings);
        chars_to_string(&out)
    }
}

impl Serializer for Transaction {
    open spec fn sser(&self, settings: SpecSettings) -> Seq<char> {
        ser_transaction(self@, settings)
    }

    open spec fn ser_wf(&self) -> bool {
        self@.wf()
    }

    fn to_string_pretty(&self, settings: &SerializerSettings) -> (r: String) {
        let mut out: Vec<char> = Vec::new();
        let indent = to_chars(settings.indent.as_str());
        let eol = to_chars(settings.eol.as_str());
        let pat = to_chars(settings.transaction_date_format.as_str());
        push_transaction(&mut out, self, settings, &indent, &eol, &pat);
        chars_to_string(&out)
    }
}

impl Serializer for TransactionStatus {
    open spec fn sser(&self, settings: SpecSettings) -> Seq<char> {
        ser_status(*self)
    }

    open spec fn ser_wf(&self) -> bool {
        true
    }

    fn to_string_pretty(&self, settings: &SerializerSettings) -> (r: String) {
        let mut out: Vec<char> = Vec::new();
        push_status(&mut out, *self);
        chars_to_string(&out)
    }
}

impl Serializer for Posting {
    open spec fn sser(&self, settings: SpecSettings) -> Seq<char> {
        ser_posting(self@, settings)
    }

    open spec fn ser_wf(&self) -> bool {
        self@.wf()
    }

    fn to_string_pretty(&self, settings: &SerializerSettings) -> (r: String) {
        let mut out: Vec<char> = Vec::new();
        let indent = to_chars(settings.indent.as_str());
        let eol = to_chars(settings.eol.as_str());
        push_posting(&mut out, self, settings, &indent, &eol);
        chars_to_string(&out)
    }
}

impl Serializer for PostingAmount {
    open spec fn sser(&self, settings: SpecSettings) -> Seq<char> {
        ser_posting_amount(self@)
    }

    open spec fn ser_wf(&self) -> bool {
        self@.wf()
    }

    fn to_string_pretty(&self, settings: &SerializerSettings) -> (r: String) {
        let mut out: Vec<char> = Vec::new();
        push_posting_amount(&mut out, self);
        chars_to_string(&out)
    }
}

impl Serializer for Amount {
    open spec fn sser(&self, settings: SpecSettings) -> Seq<char> {
        ser_amount(self@)
    }

    open spec fn ser_wf(&self) -> bool {
        self@.wf()
    }

    fn to_string_pretty(&self, settings: &SerializerSettings) -> (r: String) {
        let mut out: Vec<char> = Vec::new();
        push_amount(&mut out, self);
        chars_to_string(&out)
    }
}

impl Serializer for Balance {
    open spec fn sser(&self, settings: SpecSettings) -> Seq<char> {
        ser_balance(self@)
    }

    open spec fn ser_wf(&self) -> bool {
        self@.wf()
    }

    fn to_string_pretty(&self, settings: &SerializerSettings) -> (r: String) {
        let mut out: Vec<char> = Vec::new();
        push_balance(&mut out, self);
        chars_to_string(&out)
    }
}

impl Serializer for CommodityPrice {
    open spec fn sser(&self, settings: SpecSettings) -> Seq<char> {
        ser_cprice(self@, settings)
    }

    open spec fn ser_wf(&self) -> bool {
        self@.wf()
    }

    fn to_string_pretty(&self, settings: &SerializerSettings) -> (r: String) {
        let mut out: Vec<char> = Vec::new();
        let pat = to_chars(settings.commodity_date_format.as_str());
        push_cprice(&mut out, self, settings, &pat);
        chars_to_string(&out)
    }
}

} // verus!
