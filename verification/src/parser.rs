//! The grammar parser.  Each construct is described by a spec-level parse
//! function over a character sequence and a position; each executable parser
//! is proved to return exactly what the spec function says.
//!
//! A spec parse function returns `Some((value, next))` when the construct
//! matches at the given position, where `next` is the position just past the
//! consumed text, and `None` when it does not match.

use vstd::prelude::*;
use vstd::string::{StrSliceExecFns, StringExecFns};

use crate::dates::{Date, DateTime, spec_date_valid};
use crate::decimal::{Decimal, mantissa_limit, pow10};
use crate::model::{
    Amount, Balance, Commodity, CommodityPosition, CommodityPrice, Ledger, LedgerItem, Posting,
    PostingAmount, PostingMetadata, Price, Reality, SpecAmount, SpecBalance, SpecCommodity,
    SpecCommodityPrice, SpecLedger, SpecLedgerItem, SpecPosting, SpecPostingAmount,
    SpecPostingMetadata, SpecPrice, SpecTag, SpecTagValue, SpecTransaction, Tag, TagValue,
    Transaction, TransactionStatus,
};
use crate::text::{
    digit_run_end, digits_val, is_alnum_char, is_commodity_char, is_digit_char, is_space_char,
    alnum_run_end, commodity_run_end, lemma_digits_val_append, lemma_digits_val_bounds,
    lemma_digits_val_extend, lemma_digits_val_upper, lemma_run_end, lemma_run_end_is,
    line_run_end, push_range, run_end, space_run_end, spec_alnum, spec_commodity_char, spec_digit,
    spec_space,
};

verus! {

/// An executable step result agrees with a spec-level one.
pub open spec fn step_eq<T>(r: Option<(T, usize)>, sp: Option<(T, int)>) -> bool {
    match (r, sp) {
        (Some((rv, rj)), Some((v, j))) => rv == v && rj as int == j,
        (None, None) => true,
        _ => false,
    }
}

// --- Line endings ---------------------------------------------------------

/// A line ending (`\n` or `\r\n`) or the end of the input.
pub open spec fn sp_eol(s: Seq<char>, i: int) -> Option<int> {
    if i == s.len() {
        Some(i)
    } else if s[i] == '\n' {
        Some(i + 1)
    } else if s[i] == '\r' && i + 1 < s.len() && s[i + 1] == '\n' {
        Some(i + 2)
    } else {
        None
    }
}

fn p_eol(s: &Vec<char>, i: usize) -> (r: Option<usize>)
    requires
        i <= s.len(),
    ensures
        match (r, sp_eol(s@, i as int)) {
            (Some(rj), Some(j)) => rj as int == j && rj <= s.len(),
            (None, None) => true,
            _ => false,
        },
{
    if i == s.len() {
        Some(i)
    } else if s[i] == '\n' {
        Some(i + 1)
    } else if s[i] == '\r' && i + 1 < s.len() && s[i + 1] == '\n' {
        Some(i + 2)
    } else {
        None
    }
}

/// The rest of the line: everything up to a line ending or the end of input.
/// A bare carriage return not followed by a newline does not match.
pub open spec fn sp_rest_of_line(s: Seq<char>, i: int) -> Option<(Seq<char>, int)> {
    let e = run_end(s, i, |c: char| c != '\r' && c != '\n');
    if e < s.len() && s[e] == '\r' && !(e + 1 < s.len() && s[e + 1] == '\n') {
        None
    } else {
        Some((s.subrange(i, e), e))
    }
}

fn p_rest_of_line(s: &Vec<char>, i: usize) -> (r: Option<(usize, usize)>)
    requires
        i <= s.len(),
    ensures
        match (r, sp_rest_of_line(s@, i as int)) {
            (Some((ra, re)), Some((t, e))) => {
                &&& ra == i
                &&& re as int == e
                &&& i <= re <= s.len()
                &&& t == s@.subrange(i as int, re as int)
            },
            (None, None) => true,
            _ => false,
        },
{
    let e = line_run_end(s, i);
    if e < s.len() && s[e] == '\r' && !(e + 1 < s.len() && s[e + 1] == '\n') {
        None
    } else {
        Some((i, e))
    }
}

// --- Trimming --------------------------------------------------------------

/// `t` with trailing spaces and tabs removed.
pub open spec fn rtrim(t: Seq<char>) -> Seq<char>
    decreases t.len(),
{
    if t.len() > 0 && spec_space(t.last()) {
        rtrim(t.drop_last())
    } else {
        t
    }
}

/// `t` with leading spaces and tabs removed.
pub open spec fn ltrim(t: Seq<char>) -> Seq<char>
    decreases t.len(),
{
    if t.len() > 0 && spec_space(t[0]) {
        ltrim(t.drop_first())
    } else {
        t
    }
}

pub open spec fn trim(t: Seq<char>) -> Seq<char> {
    rtrim(ltrim(t))
}

pub proof fn lemma_rtrim_is(t: Seq<char>, k: int)
    requires
        0 <= k <= t.len(),
        forall|j: int| k <= j < t.len() ==> spec_space(#[trigger] t[j]),
        k == 0 || !spec_space(t[k - 1]),
    ensures
        rtrim(t) == t.subrange(0, k),
    decreases t.len(),
{
    if t.len() > 0 && spec_space(t.last()) {
        assert(k < t.len());
        lemma_rtrim_is(t.drop_last(), k);
        assert(t.drop_last().subrange(0, k) =~= t.subrange(0, k));
    } else {
        assert(k == t.len());
        assert(t.subrange(0, k) =~= t);
    }
}

pub proof fn lemma_ltrim_is(t: Seq<char>, k: int)
    requires
        0 <= k <= t.len(),
        forall|j: int| 0 <= j < k ==> spec_space(#[trigger] t[j]),
        k == t.len() || !spec_space(t[k]),
    ensures
        ltrim(t) == t.subrange(k, t.len() as int),
    decreases t.len(),
{
    if t.len() > 0 && spec_space(t[0]) {
        assert(k > 0);
        lemma_ltrim_is(t.drop_first(), k - 1);
        assert(t.drop_first().subrange(k - 1, t.drop_first().len() as int) =~= t.subrange(
            k,
            t.len() as int,
        ));
    } else {
        assert(k == 0);
        assert(t.subrange(0, t.len() as int) =~= t);
    }
}

/// Walk back from `e` over spaces and tabs; the result `r` satisfies
/// `s[i..r] == rtrim(s[i..e])`.
fn rtrim_end(s: &Vec<char>, i: usize, e: usize) -> (r: usize)
    requires
        i <= e <= s.len(),
    ensures
        i <= r <= e,
        s@.subrange(i as int, r as int) == rtrim(s@.subrange(i as int, e as int)),
{
    let mut r = e;
    while r > i && is_space_char(s[r - 1])
        invariant
            i <= r <= e <= s.len(),
            forall|j: int| r <= j < e ==> spec_space(#[trigger] s@[j]),
        decreases r,
    {
        r = r - 1;
    }
    proof {
        let t = s@.subrange(i as int, e as int);
        lemma_rtrim_is(t, r - i);
        assert(t.subrange(0, r - i) =~= s@.subrange(i as int, r as int));
    }
    r
}

// --- Fixed-width numbers ----------------------------------------------------

/// Exactly `n` digits starting at `i`, read as a number.
pub open spec fn sp_number_n(s: Seq<char>, i: int, n: int) -> Option<(int, int)> {
    if i + n <= s.len() && (forall|k: int| i <= k < i + n ==> spec_digit(#[trigger] s[k])) {
        Some((digits_val(s.subrange(i, i + n)), i + n))
    } else {
        None
    }
}

fn p_number_n(s: &Vec<char>, i: usize, n: usize) -> (r: Option<(u32, usize)>)
    requires
        i <= s.len(),
        1 <= n <= 4,
    ensures
        match (r, sp_number_n(s@, i as int, n as int)) {
            (Some((rv, rj)), Some((v, j))) => rv as int == v && rv < 10000 && rj as int == j && i
                < rj <= s.len(),
            (None, None) => true,
            _ => false,
        },
{
    if s.len() - i < n {
        return None;
    }
    let mut k: usize = 0;
    let mut acc: u32 = 0;
    while k < n
        invariant
            0 <= k <= n <= 4,
            i + n <= s.len(),
            forall|m: int| i <= m < i + k ==> spec_digit(#[trigger] s@[m]),
            acc as int == digits_val(s@.subrange(i as int, i + k)),
            acc < 10000,
        decreases n - k,
    {
        let c = s[i + k];
        if !is_digit_char(c) {
            proof {
                assert(!spec_digit(s@[i + k as int]));
            }
            return None;
        }
        let d = (c as u32) - 48;
        proof {
            let pre = s@.subrange(i as int, i + k as int);
            let post = s@.subrange(i as int, i + k + 1 as int);
            assert(post.drop_last() =~= pre);
            assert(post.last() == s@[i + k as int]);
            lemma_digits_val_bounds(post);
            crate::decimal::lemma_pow10_mono((k + 1) as nat, 4);
            reveal_with_fuel(crate::decimal::pow10, 5);
            lemma_digits_val_upper(post);
        }
        acc = acc * 10 + d;
        k = k + 1;
    }
    Some((acc, i + n))
}

// --- Dates and times --------------------------------------------------------

pub open spec fn spec_date_sep(c: char) -> bool {
    c == '-' || c == '/' || c == '.'
}

/// `YYYY?MM?DD` where each `?` is any of `-`, `/`, `.`; purely syntactic.
pub open spec fn sp_date_syn(s: Seq<char>, i: int) -> Option<((int, int, int), int)> {
    match sp_number_n(s, i, 4) {
        None => None,
        Some((y, j)) => if j < s.len() && spec_date_sep(s[j]) {
            match sp_number_n(s, j + 1, 2) {
                None => None,
                Some((m, j2)) => if j2 < s.len() && spec_date_sep(s[j2]) {
                    match sp_number_n(s, j2 + 1, 2) {
                        None => None,
                        Some((d, j3)) => Some(((y, m, d), j3)),
                    }
                } else {
                    None
                },
            }
        } else {
            None
        },
    }
}

fn p_date_syn(s: &Vec<char>, i: usize) -> (r: Option<((u32, u32, u32), usize)>)
    requires
        i <= s.len(),
    ensures
        match (r, sp_date_syn(s@, i as int)) {
            (Some(((ry, rm, rd), rj)), Some(((y, m, d), j))) => {
                &&& ry as int == y && ry < 10000
                &&& rm as int == m && rm < 10000
                &&& rd as int == d && rd < 10000
                &&& rj as int == j
                &&& i < rj <= s.len()
            },
            (None, None) => true,
            _ => false,
        },
{
    let (y, j) = match p_number_n(s, i, 4) {
        Some(x) => x,
        None => {
            return None;
        },
    };
    if !(j < s.len() && (s[j] == '-' || s[j] == '/' || s[j] == '.')) {
        return None;
    }
    let (m, j2) = match p_number_n(s, j + 1, 2) {
        Some(x) => x,
        None => {
            return None;
        },
    };
    if !(j2 < s.len() && (s[j2] == '-' || s[j2] == '/' || s[j2] == '.')) {
        return None;
    }
    let (d, j3) = match p_number_n(s, j2 + 1, 2) {
        Some(x) => x,
        None => {
            return None;
        },
    };
    Some(((y, m, d), j3))
}

/// `HH:MM:SS`; purely syntactic.
pub open spec fn sp_time_syn(s: Seq<char>, i: int) -> Option<((int, int, int), int)> {
    match sp_number_n(s, i, 2) {
        None => None,
        Some((h, j)) => if j < s.len() && s[j] == ':' {
            match sp_number_n(s, j + 1, 2) {
                None => None,
                Some((m, j2)) => if j2 < s.len() && s[j2] == ':' {
                    match sp_number_n(s, j2 + 1, 2) {
                        None => None,
                        Some((sec, j3)) => Some(((h, m, sec), j3)),
                    }
                } else {
                    None
                },
            }
        } else {
            None
        },
    }
}

fn p_time_syn(s: &Vec<char>, i: usize) -> (r: Option<((u32, u32, u32), usize)>)
    requires
        i <= s.len(),
    ensures
        match (r, sp_time_syn(s@, i as int)) {
            (Some(((rh, rm, rs), rj)), Some(((h, m, sec), j))) => {
                &&& rh as int == h && rh < 10000
                &&& rm as int == m && rm < 10000
                &&& rs as int == sec && rs < 10000
                &&& rj as int == j
                &&& i < rj <= s.len()
            },
            (None, None) => true,
            _ => false,
        },
{
    let (h, j) = match p_number_n(s, i, 2) {
        Some(x) => x,
        None => {
            return None;
        },
    };
    if !(j < s.len() && s[j] == ':') {
        return None;
    }
    let (m, j2) = match p_number_n(s, j + 1, 2) {
        Some(x) => x,
        None => {
            return None;
        },
    };
    if !(j2 < s.len() && s[j2] == ':') {
        return None;
    }
    let (sec, j3) = match p_number_n(s, j2 + 1, 2) {
        Some(x) => x,
        None => {
            return None;
        },
    };
    Some(((h, m, sec), j3))
}

/// A syntactic date that is also a real calendar date.  `None` means no
/// syntactic match; `Some((None, _))` means a syntactic match that fails
/// calendar validation.
pub open spec fn sp_date(s: Seq<char>, i: int) -> Option<(Option<Date>, int)> {
    match sp_date_syn(s, i) {
        None => None,
        Some(((y, m, d), j)) => if spec_date_valid(y, m, d) {
            Some((Some(Date { year: y as u32, month: m as u32, day: d as u32 }), j))
        } else {
            Some((None, j))
        },
    }
}

fn p_date(s: &Vec<char>, i: usize) -> (r: Option<(Option<Date>, usize)>)
    requires
        i <= s.len(),
    ensures
        match (r, sp_date(s@, i as int)) {
            (Some((rd, rj)), Some((d, j))) => rd == d && rj as int == j && i < rj <= s.len() && (
            rd matches Some(dv) ==> dv.valid()),
            (None, None) => true,
            _ => false,
        },
{
    match p_date_syn(s, i) {
        None => None,
        Some(((y, m, d), j)) => {
            match Date::from_ymd_opt(y as i32, m, d) {
                Some(date) => Some((Some(date), j)),
                None => Some((None, j)),
            }
        },
    }
}

/// A syntactic date-time (date, spaces, time) validated against the calendar
/// and the 24-hour clock, with the same shape as [`sp_date`].
pub open spec fn sp_datetime(s: Seq<char>, i: int) -> Option<(Option<DateTime>, int)> {
    match sp_date_syn(s, i) {
        None => None,
        Some(((y, m, d), j)) => {
            let j2 = run_end(s, j, |c: char| spec_space(c));
            if j2 == j {
                None
            } else {
                match sp_time_syn(s, j2) {
                    None => None,
                    Some(((hh, mm, ss), j3)) => if spec_date_valid(y, m, d) && hh < 24 && mm < 60
                        && ss < 60 {
                        Some(
                            (
                                Some(
                                    DateTime {
                                        date: Date {
                                            year: y as u32,
                                            month: m as u32,
                                            day: d as u32,
                                        },
                                        hour: hh as u32,
                                        minute: mm as u32,
                                        second: ss as u32,
                                    },
                                ),
                                j3,
                            ),
                        )
                    } else {
                        Some((None, j3))
                    },
                }
            }
        },
    }
}

fn p_datetime(s: &Vec<char>, i: usize) -> (r: Option<(Option<DateTime>, usize)>)
    requires
        i <= s.len(),
    ensures
        match (r, sp_datetime(s@, i as int)) {
            (Some((rd, rj)), Some((d, j))) => rd == d && rj as int == j && i < rj <= s.len() && (
            rd matches Some(dv) ==> dv.valid()),
            (None, None) => true,
            _ => false,
        },
{
    let ((y, m, d), j) = match p_date_syn(s, i) {
        Some(x) => x,
        None => {
            return None;
        },
    };
    let j2 = space_run_end(s, j);
    if j2 == j {
        return None;
    }
    let ((hh, mm, ss), j3) = match p_time_syn(s, j2) {
        Some(x) => x,
        None => {
            return None;
        },
    };
    match Date::from_ymd_opt(y as i32, m, d) {
        Some(date) => match date.and_hms_opt(hh, mm, ss) {
            Some(dt) => Some((Some(dt), j3)),
            None => Some((None, j3)),
        },
        None => Some((None, j3)),
    }
}

} // verus!

verus! {

// --- Decimal quantities -----------------------------------------------------

/// A thousands group: a comma followed by exactly three digits.
pub open spec fn sp_group_at(s: Seq<char>, j: int) -> bool {
    &&& 0 <= j
    &&& j + 4 <= s.len()
    &&& s[j] == ','
    &&& spec_digit(s[j + 1])
    &&& spec_digit(s[j + 2])
    &&& spec_digit(s[j + 3])
}

/// One or more thousands groups; yields their digits and the end position.
pub open spec fn sp_group_list(s: Seq<char>, j: int) -> Option<(Seq<char>, int)>
    decreases s.len() - j,
{
    if sp_group_at(s, j) {
        let g = s.subrange(j + 1, j + 4);
        match sp_group_list(s, j + 4) {
            Some((rest, e)) => Some((g + rest, e)),
            None => Some((g, j + 4)),
        }
    } else {
        None
    }
}

/// The grouped form of an integer part: one to three leading digits followed
/// by one or more comma-separated three-digit groups.
pub open spec fn sp_grouped_digits(s: Seq<char>, i: int) -> Option<(Seq<char>, int)> {
    let le0 = run_end(s, i, |c: char| spec_digit(c));
    let le = if le0 > i + 3 {
        i + 3
    } else {
        le0
    };
    if le == i {
        None
    } else {
        match sp_group_list(s, le) {
            Some((g, e)) => Some((s.subrange(i, le) + g, e)),
            None => None,
        }
    }
}

/// A decimal quantity: an optional minus sign, an integer part in grouped or
/// plain form, and an optional fraction.  Fails when no digits are present,
/// when the fraction is longer than 28 digits, or when the digits overflow
/// the mantissa.
pub open spec fn sp_quantity(s: Seq<char>, i: int) -> Option<(Decimal, int)> {
    let neg = i < s.len() && s[i] == '-';
    let i1: int = if neg {
        i + 1
    } else {
        i
    };
    let ipj: (Seq<char>, int) = match sp_grouped_digits(s, i1) {
        Some((g, e)) => (g, e),
        None => {
            let e = run_end(s, i1, |c: char| spec_digit(c));
            (s.subrange(i1, e), e)
        },
    };
    let ip = ipj.0;
    let j = ipj.1;
    let fr: (Seq<char>, int, int) = if j < s.len() && s[j] == '.' && run_end(
        s,
        j + 1,
        |c: char| spec_digit(c),
    ) > j + 1 {
        let e2 = run_end(s, j + 1, |c: char| spec_digit(c));
        (ip + s.subrange(j + 1, e2), e2 - (j + 1), e2)
    } else {
        (ip, 0, j)
    };
    let ad = fr.0;
    let sc = fr.1;
    let j2 = fr.2;
    if ad.len() == 0 || sc > 28 || digits_val(ad) >= mantissa_limit() {
        None
    } else {
        Some(
            (
                Decimal {
                    mantissa: (if neg {
                        -digits_val(ad)
                    } else {
                        digits_val(ad)
                    }) as i128,
                    scale: sc as u32,
                },
                j2,
            ),
        )
    }
}

fn has_group(s: &Vec<char>, j: usize) -> (r: bool)
    requires
        j <= s.len(),
    ensures
        r == sp_group_at(s@, j as int),
{
    j < s.len() && s[j] == ',' && s.len() - j >= 4 && is_digit_char(s[j + 1]) && is_digit_char(
        s[j + 2],
    ) && is_digit_char(s[j + 3])
}

proof fn lemma_group_list_bounds(s: Seq<char>, j: int)
    requires
        0 <= j <= s.len(),
    ensures
        sp_group_list(s, j) matches Some((g, e)) ==> j < e <= s.len() && (forall|k: int|
            0 <= k < g.len() ==> spec_digit(#[trigger] g[k])),
    decreases s.len() - j,
{
    if sp_group_at(s, j) {
        lemma_group_list_bounds(s, j + 4);
        let g0 = s.subrange(j + 1, j + 4);
        assert(forall|k: int| 0 <= k < g0.len() ==> spec_digit(#[trigger] g0[k]));
    }
}

/// Collect the integer part (grouped or plain) into `digs`; returns the end
/// position.  Matches the integer-part step of [`sp_quantity`].
fn p_int_part(s: &Vec<char>, i1: usize, digs: &mut Vec<char>) -> (j: usize)
    requires
        i1 <= s.len(),
        old(digs)@ == Seq::<char>::empty(),
    ensures
        i1 <= j <= s.len(),
        forall|k: int| 0 <= k < final(digs)@.len() ==> spec_digit(#[trigger] final(digs)@[k]),
        match sp_grouped_digits(s@, i1 as int) {
            Some((g, e)) => final(digs)@ == g && j as int == e,
            None => final(digs)@ == s@.subrange(
                i1 as int,
                run_end(s@, i1 as int, |c: char| spec_digit(c)),
            ) && j as int == run_end(s@, i1 as int, |c: char| spec_digit(c)),
        },
{
    let ghost fd = |c: char| spec_digit(c);
    let le0 = digit_run_end(s, i1);
    let le = if le0 - i1 > 3 {
        i1 + 3
    } else {
        le0
    };
    proof {
        lemma_run_end(s@, i1 as int, fd);
    }
    if le > i1 && has_group(s, le) {
        push_range(digs, s, i1, le);
        let mut j = le;
        let ghost mut collected: Seq<char> = Seq::empty();
        proof {
            assert(digs@ =~= s@.subrange(i1 as int, le as int) + collected);
            lemma_group_list_bounds(s@, le as int);
            let (r2, e) = sp_group_list(s@, le as int)->Some_0;
            assert(collected + r2 =~= r2);
        }
        while has_group(s, j)
            invariant
                i1 <= le <= j <= s.len(),
                digs@ == s@.subrange(i1 as int, le as int) + collected,
                forall|k: int| 0 <= k < collected.len() ==> spec_digit(#[trigger] collected[k]),
                match sp_group_list(s@, j as int) {
                    Some((r2, e)) => sp_group_list(s@, le as int) == Some((collected + r2, e)),
                    None => sp_group_list(s@, le as int) == Some((collected, j as int)),
                },
            decreases s.len() - j,
        {
            push_range(digs, s, j + 1, j + 4);
            proof {
                let g = s@.subrange(j + 1 as int, j + 4 as int);
                match sp_group_list(s@, j + 4 as int) {
                    Some((r2, e)) => {
                        assert((collected + g) + r2 =~= collected + (g + r2));
                    },
                    None => {},
                }
                collected = collected + g;
                assert(digs@ =~= s@.subrange(i1 as int, le as int) + collected);
            }
            j = j + 4;
        }
        proof {
            assert(sp_group_list(s@, le as int) == Some((collected, j as int)));
            assert(sp_grouped_digits(s@, i1 as int) == Some((digs@, j as int)));
            lemma_group_list_bounds(s@, le as int);
        }
        j
    } else {
        push_range(digs, s, i1, le0);
        proof {
            if le > i1 {
                assert(sp_group_list(s@, le as int) is None);
            }
            assert(sp_grouped_digits(s@, i1 as int) is None);
        }
        le0
    }
}

/// The value of a digit string, or `None` when it reaches the mantissa limit.
fn p_digits_value(digs: &Vec<char>) -> (r: Option<u128>)
    requires
        forall|k: int| 0 <= k < digs@.len() ==> spec_digit(#[trigger] digs@[k]),
    ensures
        match r {
            Some(v) => v as int == digits_val(digs@) && (v as int) < mantissa_limit(),
            None => digits_val(digs@) >= mantissa_limit(),
        },
{
    let ghost ad = digs@;
    let mut acc: u128 = 0;
    let mut k: usize = 0;
    while k < digs.len()
        invariant
            k <= digs.len(),
            digs@ == ad,
            forall|m: int| 0 <= m < ad.len() ==> spec_digit(#[trigger] ad[m]),
            acc as int == digits_val(ad.subrange(0, k as int)),
            acc < 0x1000000000000000000000000u128,
        decreases digs.len() - k,
    {
        let c = digs[k];
        let d = (c as u32) - 48;
        let nxt: u128 = acc * 10 + (d as u128);
        proof {
            let pre = ad.subrange(0, k as int);
            let post = ad.subrange(0, (k + 1) as int);
            assert(post.drop_last() =~= pre);
            assert(post.last() == ad[k as int]);
            lemma_digits_val_bounds(post);
        }
        if nxt >= 0x1000000000000000000000000u128 {
            proof {
                let post = ad.subrange(0, (k + 1) as int);
                let rest = ad.subrange((k + 1) as int, ad.len() as int);
                assert(ad =~= post + rest);
                lemma_digits_val_extend(post, rest);
            }
            return None;
        }
        acc = nxt;
        k = k + 1;
    }
    proof {
        assert(ad.subrange(0, ad.len() as int) =~= ad);
    }
    Some(acc)
}

pub(crate) fn p_quantity(s: &Vec<char>, i: usize) -> (r: Option<(Decimal, usize)>)
    requires
        i <= s.len(),
    ensures
        step_eq(r, sp_quantity(s@, i as int)),
        r matches Some((d, j)) ==> d.wf() && i <= j <= s.len(),
{
    let ghost fd = |c: char| spec_digit(c);
    let mut neg = false;
    let mut i1 = i;
    if i < s.len() && s[i] == '-' {
        neg = true;
        i1 = i + 1;
    }
    let mut digs: Vec<char> = Vec::new();
    let j = p_int_part(s, i1, &mut digs);
    let mut scale_us: usize = 0;
    let mut j2 = j;
    if j < s.len() && s[j] == '.' {
        let e2 = digit_run_end(s, j + 1);
        proof {
            lemma_run_end(s@, j + 1 as int, fd);
        }
        if e2 > j + 1 {
            push_range(&mut digs, s, j + 1, e2);
            scale_us = e2 - (j + 1);
            j2 = e2;
        }
    }
    if digs.len() == 0 {
        return None;
    }
    if scale_us > 28 {
        return None;
    }
    let acc = match p_digits_value(&digs) {
        Some(v) => v,
        None => {
            return None;
        },
    };
    let m0: i128 = acc as i128;
    let mantissa: i128 = if neg {
        -m0
    } else {
        m0
    };
    Some((Decimal { mantissa, scale: scale_us as u32 }, j2))
}

} // verus!

verus! {

// --- Commodities ------------------------------------------------------------

/// The inside of a double-quoted commodity: any characters up to the closing
/// quote, with `\"` denoting a literal quote.
pub open spec fn sp_quoted_body(s: Seq<char>, j: int) -> Option<(Seq<char>, int)>
    decreases s.len() - j,
{
    if j < 0 || j >= s.len() {
        None
    } else if s[j] == '"' {
        Some((Seq::empty(), j + 1))
    } else if s[j] == '\\' {
        if j + 2 <= s.len() && s[j + 1] == '"' {
            match sp_quoted_body(s, j + 2) {
                Some((t, e)) => Some((seq!['"'] + t, e)),
                None => None,
            }
        } else {
            None
        }
    } else {
        match sp_quoted_body(s, j + 1) {
            Some((t, e)) => Some((seq![s[j]] + t, e)),
            None => None,
        }
    }
}

/// A commodity symbol: a double-quoted string with non-empty contents, or a
/// non-empty run of commodity characters.
pub open spec fn sp_commodity(s: Seq<char>, i: int) -> Option<(Seq<char>, int)> {
    if i < s.len() && s[i] == '"' {
        match sp_quoted_body(s, i + 1) {
            Some((t, e)) => if t.len() >= 1 {
                Some((t, e))
            } else {
                None
            },
            None => None,
        }
    } else {
        let e = run_end(s, i, |c: char| spec_commodity_char(c));
        if e > i {
            Some((s.subrange(i, e), e))
        } else {
            None
        }
    }
}

pub(crate) fn p_commodity(s: &Vec<char>, i: usize) -> (r: Option<(Vec<char>, usize)>)
    requires
        i <= s.len(),
    ensures
        match (r, sp_commodity(s@, i as int)) {
            (Some((rv, rj)), Some((t, j))) => rv@ == t && rj as int == j && i <= rj <= s.len(),
            (None, None) => true,
            _ => false,
        },
{
    if i < s.len() && s[i] == '"' {
        let mut content: Vec<char> = Vec::new();
        let mut j = i + 1;
        proof {
            match sp_quoted_body(s@, (i + 1) as int) {
                Some((t, e)) => {
                    assert(Seq::<char>::empty() + t =~= t);
                },
                None => {},
            }
        }
        while j < s.len() && s[j] != '"'
            invariant
                i + 1 <= j <= s.len(),
                i < s.len() && s@[i as int] == '"',
                match sp_quoted_body(s@, j as int) {
                    Some((t, e)) => sp_quoted_body(s@, i + 1 as int) == Some((content@ + t, e)),
                    None => sp_quoted_body(s@, i + 1 as int) is None,
                },
            decreases s.len() - j,
        {
            if s[j] == '\\' {
                if s.len() - j >= 2 && s[j + 1] == '"' {
                    proof {
                        match sp_quoted_body(s@, j + 2 as int) {
                            Some((t, e)) => {
                                assert((content@ + seq!['"']) + t =~= content@ + (seq!['"'] + t));
                            },
                            None => {},
                        }
                    }
                    content.push('"');
                    j = j + 2;
                } else {
                    return None;
                }
            } else {
                proof {
                    match sp_quoted_body(s@, j + 1 as int) {
                        Some((t, e)) => {
                            assert((content@ + seq![s@[j as int]]) + t =~= content@ + (seq![
                                s@[j as int],
                            ] + t));
                        },
                        None => {},
                    }
                }
                content.push(s[j]);
                j = j + 1;
            }
        }
        if j >= s.len() {
            proof {
                assert(sp_quoted_body(s@, j as int) is None);
                assert(sp_commodity(s@, i as int) is None);
            }
            return None;
        }
        proof {
            assert(s@[j as int] == '"');
            assert(sp_quoted_body(s@, j as int) == Some((Seq::<char>::empty(), (j + 1) as int)));
            assert(content@ + Seq::<char>::empty() =~= content@);
            assert(sp_quoted_body(s@, (i + 1) as int) == Some((content@, (j + 1) as int)));
        }
        if content.len() == 0 {
            proof {
                assert(sp_commodity(s@, i as int) is None);
            }
            return None;
        }
        proof {
            assert(sp_commodity(s@, i as int) == Some((content@, (j + 1) as int)));
        }
        Some((content, j + 1))
    } else {
        let e = commodity_run_end(s, i);
        if e > i {
            let mut name: Vec<char> = Vec::new();
            push_range(&mut name, s, i, e);
            proof {
                assert(name@ =~= s@.subrange(i as int, e as int));
            }
            Some((name, e))
        } else {
            None
        }
    }
}

// --- Amounts ----------------------------------------------------------------

/// The same number with the mantissa negated.
pub open spec fn sp_dec_neg(d: Decimal) -> Decimal {
    Decimal { mantissa: (-d.mantissa) as i128, scale: d.scale }
}

/// Commodity-first form: optional minus sign (applied to the quantity),
/// optional spaces, commodity, optional spaces, quantity.
pub open spec fn sp_amount_left(s: Seq<char>, i: int) -> Option<(SpecAmount, int)> {
    let neg = i < s.len() && s[i] == '-';
    let i1: int = if neg {
        run_end(s, i + 1, |c: char| spec_space(c))
    } else {
        i
    };
    match sp_commodity(s, i1) {
        None => None,
        Some((name, j)) => {
            let j2 = run_end(s, j, |c: char| spec_space(c));
            match sp_quantity(s, j2) {
                None => None,
                Some((q, j3)) => Some(
                    (
                        SpecAmount {
                            quantity: if neg {
                                sp_dec_neg(q)
                            } else {
                                q
                            },
                            commodity: SpecCommodity { name, position: CommodityPosition::Left },
                        },
                        j3,
                    ),
                ),
            }
        },
    }
}

/// Quantity-first form: quantity, optional spaces, commodity.
pub open spec fn sp_amount_right(s: Seq<char>, i: int) -> Option<(SpecAmount, int)> {
    match sp_quantity(s, i) {
        None => None,
        Some((q, j)) => {
            let j2 = run_end(s, j, |c: char| spec_space(c));
            match sp_commodity(s, j2) {
                None => None,
                Some((name, j3)) => Some(
                    (
                        SpecAmount {
                            quantity: q,
                            commodity: SpecCommodity { name, position: CommodityPosition::Right },
                        },
                        j3,
                    ),
                ),
            }
        },
    }
}

/// An amount: the commodity-first form is tried before the quantity-first
/// form, so that a bare minus sign binds to the commodity-first alternative.
pub open spec fn sp_amount(s: Seq<char>, i: int) -> Option<(SpecAmount, int)> {
    match sp_amount_left(s, i) {
        Some(x) => Some(x),
        None => sp_amount_right(s, i),
    }
}

fn p_amount_left(s: &Vec<char>, i: usize) -> (r: Option<(Amount, usize)>)
    requires
        i <= s.len(),
    ensures
        match (r, sp_amount_left(s@, i as int)) {
            (Some((a, rj)), Some((sa, j))) => a@ == sa && a.quantity.wf() && rj as int == j && i
                <= rj <= s.len(),
            (None, None) => true,
            _ => false,
        },
{
    let mut neg = false;
    let mut i1 = i;
    if i < s.len() && s[i] == '-' {
        neg = true;
        i1 = space_run_end(s, i + 1);
    }
    let (name, j) = match p_commodity(s, i1) {
        Some(x) => x,
        None => {
            return None;
        },
    };
    let j2 = space_run_end(s, j);
    let (q, j3) = match p_quantity(s, j2) {
        Some(x) => x,
        None => {
            return None;
        },
    };
    let q2 = if neg {
        q.neg()
    } else {
        q
    };
    Some(
        (
            Amount {
                quantity: q2,
                commodity: Commodity {
                    name: crate::text::chars_to_string(&name),
                    position: CommodityPosition::Left,
                },
            },
            j3,
        ),
    )
}

fn p_amount_right(s: &Vec<char>, i: usize) -> (r: Option<(Amount, usize)>)
    requires
        i <= s.len(),
    ensures
        match (r, sp_amount_right(s@, i as int)) {
            (Some((a, rj)), Some((sa, j))) => a@ == sa && a.quantity.wf() && rj as int == j && i
                <= rj <= s.len(),
            (None, None) => true,
            _ => false,
        },
{
    let (q, j) = match p_quantity(s, i) {
        Some(x) => x,
        None => {
            return None;
        },
    };
    let j2 = space_run_end(s, j);
    let (name, j3) = match p_commodity(s, j2) {
        Some(x) => x,
        None => {
            return None;
        },
    };
    Some(
        (
            Amount {
                quantity: q,
                commodity: Commodity {
                    name: crate::text::chars_to_string(&name),
                    position: CommodityPosition::Right,
                },
            },
            j3,
        ),
    )
}

pub(crate) fn p_amount(s: &Vec<char>, i: usize) -> (r: Option<(Amount, usize)>)
    requires
        i <= s.len(),
    ensures
        match (r, sp_amount(s@, i as int)) {
            (Some((a, rj)), Some((sa, j))) => a@ == sa && a.quantity.wf() && rj as int == j && i
                <= rj <= s.len(),
            (None, None) => true,
            _ => false,
        },
{
    match p_amount_left(s, i) {
        Some(x) => Some(x),
        None => p_amount_right(s, i),
    }
}

} // verus!

verus! {

// --- Price annotations ------------------------------------------------------

/// A lot price: `{amount}` for a unit cost basis, `{{amount}}` for a total.
pub open spec fn sp_lot_price(s: Seq<char>, i: int) -> Option<(SpecPrice, int)> {
    if i + 2 <= s.len() && s[i] == '{' && s[i + 1] == '{' {
        let j = run_end(s, i + 2, |c: char| spec_space(c));
        match sp_amount(s, j) {
            None => None,
            Some((a, j2)) => {
                let j3 = run_end(s, j2, |c: char| spec_space(c));
                if j3 + 2 <= s.len() && s[j3] == '}' && s[j3 + 1] == '}' {
                    Some((SpecPrice::Total(a), j3 + 2))
                } else {
                    None
                }
            },
        }
    } else if i < s.len() && s[i] == '{' {
        let j = run_end(s, i + 1, |c: char| spec_space(c));
        match sp_amount(s, j) {
            None => None,
            Some((a, j2)) => {
                let j3 = run_end(s, j2, |c: char| spec_space(c));
                if j3 < s.len() && s[j3] == '}' {
                    Some((SpecPrice::Unit(a), j3 + 1))
                } else {
                    None
                }
            },
        }
    } else {
        None
    }
}

/// A price: `@amount` per unit, `@@amount` for the whole posting.
pub open spec fn sp_price(s: Seq<char>, i: int) -> Option<(SpecPrice, int)> {
    if i + 2 <= s.len() && s[i] == '@' && s[i + 1] == '@' {
        let j = run_end(s, i + 2, |c: char| spec_space(c));
        match sp_amount(s, j) {
            None => None,
            Some((a, j2)) => Some((SpecPrice::Total(a), j2)),
        }
    } else if i < s.len() && s[i] == '@' {
        let j = run_end(s, i + 1, |c: char| spec_space(c));
        match sp_amount(s, j) {
            None => None,
            Some((a, j2)) => Some((SpecPrice::Unit(a), j2)),
        }
    } else {
        None
    }
}

pub(crate) fn p_lot_price(s: &Vec<char>, i: usize) -> (r: Option<(Price, usize)>)
    requires
        i <= s.len(),
    ensures
        match (r, sp_lot_price(s@, i as int)) {
            (Some((p, rj)), Some((sp, j))) => p@ == sp && p@.wf() && rj as int == j && i <= rj
                <= s.len(),
            (None, None) => true,
            _ => false,
        },
{
    if s.len() - i >= 2 && s[i] == '{' && s[i + 1] == '{' {
        let j = space_run_end(s, i + 2);
        let (a, j2) = match p_amount(s, j) {
            Some(x) => x,
            None => {
                return None;
            },
        };
        let j3 = space_run_end(s, j2);
        if s.len() - j3 >= 2 && s[j3] == '}' && s[j3 + 1] == '}' {
            Some((Price::Total(a), j3 + 2))
        } else {
            None
        }
    } else if i < s.len() && s[i] == '{' {
        let j = space_run_end(s, i + 1);
        let (a, j2) = match p_amount(s, j) {
            Some(x) => x,
            None => {
                return None;
            },
        };
        let j3 = space_run_end(s, j2);
        if j3 < s.len() && s[j3] == '}' {
            Some((Price::Unit(a), j3 + 1))
        } else {
            None
        }
    } else {
        None
    }
}

pub(crate) fn p_price(s: &Vec<char>, i: usize) -> (r: Option<(Price, usize)>)
    requires
        i <= s.len(),
    ensures
        match (r, sp_price(s@, i as int)) {
            (Some((p, rj)), Some((sp, j))) => p@ == sp && p@.wf() && rj as int == j && i <= rj
                <= s.len(),
            (None, None) => true,
            _ => false,
        },
{
    if s.len() - i >= 2 && s[i] == '@' && s[i + 1] == '@' {
        let j = space_run_end(s, i + 2);
        match p_amount(s, j) {
            Some((a, j2)) => Some((Price::Total(a), j2)),
            None => None,
        }
    } else if i < s.len() && s[i] == '@' {
        let j = space_run_end(s, i + 1);
        match p_amount(s, j) {
            Some((a, j2)) => Some((Price::Unit(a), j2)),
            None => None,
        }
    } else {
        None
    }
}

/// An amount with an optional lot price and an optional price, each preceded
/// by optional spaces.
pub open spec fn sp_posting_amount(s: Seq<char>, i: int) -> Option<(SpecPostingAmount, int)> {
    match sp_amount(s, i) {
        None => None,
        Some((a, j)) => {
            let l1 = run_end(s, j, |c: char| spec_space(c));
            let lot: (Option<SpecPrice>, int) = match sp_lot_price(s, l1) {
                Some((p, e)) => (Some(p), e),
                None => (None, j),
            };
            let p1 = run_end(s, lot.1, |c: char| spec_space(c));
            let pr: (Option<SpecPrice>, int) = match sp_price(s, p1) {
                Some((p, e)) => (Some(p), e),
                None => (None, lot.1),
            };
            Some((SpecPostingAmount { amount: a, lot_price: lot.0, price: pr.0 }, pr.1))
        },
    }
}

pub(crate) fn p_posting_amount(s: &Vec<char>, i: usize) -> (r: Option<(PostingAmount, usize)>)
    requires
        i <= s.len(),
    ensures
        match (r, sp_posting_amount(s@, i as int)) {
            (Some((pa, rj)), Some((spa, j))) => pa@ == spa && pa@.wf() && rj as int == j && i <= rj
                <= s.len(),
            (None, None) => true,
            _ => false,
        },
{
    let (a, j) = match p_amount(s, i) {
        Some(x) => x,
        None => {
            return None;
        },
    };
    let l1 = space_run_end(s, j);
    let (lot, jl) = match p_lot_price(s, l1) {
        Some((p, e)) => (Some(p), e),
        None => (None, j),
    };
    let p1 = space_run_end(s, jl);
    let (pr, jp) = match p_price(s, p1) {
        Some((p, e)) => (Some(p), e),
        None => (None, jl),
    };
    Some((PostingAmount { amount: a, lot_price: lot, price: pr }, jp))
}

/// A balance assertion: an amount, or the bare literal `0`.
pub open spec fn sp_balance(s: Seq<char>, i: int) -> Option<(SpecBalance, int)> {
    match sp_amount(s, i) {
        Some((a, j)) => Some((SpecBalance::Amount(a), j)),
        None => if i < s.len() && s[i] == '0' {
            Some((SpecBalance::Zero, i + 1))
        } else {
            None
        },
    }
}

pub(crate) fn p_balance(s: &Vec<char>, i: usize) -> (r: Option<(Balance, usize)>)
    requires
        i <= s.len(),
    ensures
        match (r, sp_balance(s@, i as int)) {
            (Some((b, rj)), Some((sb, j))) => b@ == sb && b@.wf() && rj as int == j && i <= rj
                <= s.len(),
            (None, None) => true,
            _ => false,
        },
{
    match p_amount(s, i) {
        Some((a, j)) => Some((Balance::Amount(a), j)),
        None => {
            if i < s.len() && s[i] == '0' {
                Some((Balance::Zero, i + 1))
            } else {
                None
            }
        },
    }
}

} // verus!

verus! {

// --- Top-level line forms ---------------------------------------------------

/// Why a parse failed: no grammar alternative matched, or a semantic check
/// failed on an otherwise well-formed construct.
#[derive(Debug, Clone, Copy, PartialEq, Eq, Structural)]
pub enum ParseErrorKind {
    /// No grammar alternative matched at the reported position.
    Syntax,
    /// A date or date-time matched syntactically but is not a real calendar
    /// date or clock time.
    InvalidDate,
    /// A transaction has more than one posting with neither amount nor
    /// balance assertion.
    MoreThanOneElided,
    /// A transaction's only posting has neither amount nor balance assertion.
    NoPostingWithAmount,
    /// A file directive names an empty path.
    EmptyPath,
}

/// A `P` line: `P <datetime> <commodity> <amount>`, an optional trailing
/// comment, and a line ending.  A syntactically valid date-time that is not
/// a real calendar instant aborts with [`ParseErrorKind::InvalidDate`].
pub open spec fn sp_commodity_price(s: Seq<char>, i: int) -> Result<
    (SpecCommodityPrice, int),
    ParseErrorKind,
> {
    if !(i < s.len() && s[i] == 'P') {
        Err(ParseErrorKind::Syntax)
    } else {
        let j1 = run_end(s, i + 1, |c: char| spec_space(c));
        if j1 == i + 1 {
            Err(ParseErrorKind::Syntax)
        } else {
            match sp_datetime(s, j1) {
                None => Err(ParseErrorKind::Syntax),
                Some((None, _)) => Err(ParseErrorKind::InvalidDate),
                Some((Some(dt), j2)) => {
                    let j3 = run_end(s, j2, |c: char| spec_space(c));
                    if j3 == j2 {
                        Err(ParseErrorKind::Syntax)
                    } else {
                        match sp_commodity(s, j3) {
                            None => Err(ParseErrorKind::Syntax),
                            Some((name, j4)) => {
                                let j5 = run_end(s, j4, |c: char| spec_space(c));
                                if j5 == j4 {
                                    Err(ParseErrorKind::Syntax)
                                } else {
                                    match sp_amount(s, j5) {
                                        None => Err(ParseErrorKind::Syntax),
                                        Some((a, j6)) => {
                                            let j7 = run_end(s, j6, |c: char| spec_space(c));
                                            let j8: int = if j7 < s.len() && s[j7] == ';' {
                                                match sp_rest_of_line(s, j7 + 1) {
                                                    Some((_, e)) => e,
                                                    None => j7,
                                                }
                                            } else {
                                                j7
                                            };
                                            match sp_eol(s, j8) {
                                                Some(e) => Ok(
                                                    (
                                                        SpecCommodityPrice {
                                                            datetime: dt,
                                                            commodity_name: name,
                                                            amount: a,
                                                        },
                                                        e,
                                                    ),
                                                ),
                                                None => Err(ParseErrorKind::Syntax),
                                            }
                                        },
                                    }
                                }
                            },
                        }
                    }
                },
            }
        }
    }
}

pub(crate) fn p_commodity_price(s: &Vec<char>, i: usize) -> (r: Result<
    (CommodityPrice, usize),
    ParseErrorKind,
>)
    requires
        i <= s.len(),
    ensures
        match (r, sp_commodity_price(s@, i as int)) {
            (Ok((cp, rj)), Ok((scp, j))) => cp@ == scp && cp@.wf() && rj as int == j && i < rj
                <= s.len(),
            (Err(k1), Err(k2)) => k1 == k2,
            _ => false,
        },
{
    if !(i < s.len() && s[i] == 'P') {
        return Err(ParseErrorKind::Syntax);
    }
    let j1 = space_run_end(s, i + 1);
    if j1 == i + 1 {
        return Err(ParseErrorKind::Syntax);
    }
    let (dt, j2) = match p_datetime(s, j1) {
        None => {
            return Err(ParseErrorKind::Syntax);
        },
        Some((None, _)) => {
            return Err(ParseErrorKind::InvalidDate);
        },
        Some((Some(dt), j2)) => (dt, j2),
    };
    let j3 = space_run_end(s, j2);
    if j3 == j2 {
        return Err(ParseErrorKind::Syntax);
    }
    let (name, j4) = match p_commodity(s, j3) {
        Some(x) => x,
        None => {
            return Err(ParseErrorKind::Syntax);
        },
    };
    let j5 = space_run_end(s, j4);
    if j5 == j4 {
        return Err(ParseErrorKind::Syntax);
    }
    let (a, j6) = match p_amount(s, j5) {
        Some(x) => x,
        None => {
            return Err(ParseErrorKind::Syntax);
        },
    };
    let j7 = space_run_end(s, j6);
    let j8 = if j7 < s.len() && s[j7] == ';' {
        match p_rest_of_line(s, j7 + 1) {
            Some((_, e)) => e,
            None => j7,
        }
    } else {
        j7
    };
    match p_eol(s, j8) {
        Some(e) => Ok(
            (
                CommodityPrice {
                    datetime: dt,
                    commodity_name: crate::text::chars_to_string(&name),
                    amount: a,
                },
                e,
            ),
        ),
        None => Err(ParseErrorKind::Syntax),
    }
}

/// An empty line: spaces then a line ending, or at least one space then the
/// end of the input.
pub open spec fn sp_empty_line(s: Seq<char>, i: int) -> Option<int> {
    let j = run_end(s, i, |c: char| spec_space(c));
    if j < s.len() && s[j] == '\n' {
        Some(j + 1)
    } else if j + 1 < s.len() && s[j] == '\r' && s[j + 1] == '\n' {
        Some(j + 2)
    } else if j == s.len() && j > i {
        Some(j)
    } else {
        None
    }
}

pub(crate) fn p_empty_line(s: &Vec<char>, i: usize) -> (r: Option<usize>)
    requires
        i <= s.len(),
    ensures
        match (r, sp_empty_line(s@, i as int)) {
            (Some(rj), Some(j)) => rj as int == j && i < rj <= s.len(),
            (None, None) => true,
            _ => false,
        },
{
    let j = space_run_end(s, i);
    if j < s.len() && s[j] == '\n' {
        Some(j + 1)
    } else if j < s.len() && s[j] == '\r' && j + 1 < s.len() && s[j + 1] == '\n' {
        Some(j + 2)
    } else if j == s.len() && j > i {
        Some(j)
    } else {
        None
    }
}

pub open spec fn spec_comment_mark(c: char) -> bool {
    c == ';' || c == '#' || c == '%' || c == '|' || c == '*'
}

/// A global line comment: spaces, one of `;#%|*`, spaces, then the rest of
/// the line with trailing whitespace removed.
pub open spec fn sp_global_comment(s: Seq<char>, i: int) -> Option<(Seq<char>, int)> {
    let j = run_end(s, i, |c: char| spec_space(c));
    if j < s.len() && spec_comment_mark(s[j]) {
        let j2 = run_end(s, j + 1, |c: char| spec_space(c));
        match sp_rest_of_line(s, j2) {
            None => None,
            Some((t, e)) => match sp_eol(s, e) {
                Some(e2) => Some((rtrim(t), e2)),
                None => None,
            },
        }
    } else {
        None
    }
}

pub(crate) fn p_global_comment(s: &Vec<char>, i: usize) -> (r: Option<(Vec<char>, usize)>)
    requires
        i <= s.len(),
    ensures
        match (r, sp_global_comment(s@, i as int)) {
            (Some((rv, rj)), Some((t, j))) => rv@ == t && rj as int == j && i < rj <= s.len(),
            (None, None) => true,
            _ => false,
        },
{
    let j = space_run_end(s, i);
    if j < s.len() && (s[j] == ';' || s[j] == '#' || s[j] == '%' || s[j] == '|' || s[j] == '*') {
        let j2 = space_run_end(s, j + 1);
        let (_, e) = match p_rest_of_line(s, j2) {
            Some(x) => x,
            None => {
                return None;
            },
        };
        let e2 = match p_eol(s, e) {
            Some(x) => x,
            None => {
                return None;
            },
        };
        let tr = rtrim_end(s, j2, e);
        let mut text: Vec<char> = Vec::new();
        push_range(&mut text, s, j2, tr);
        proof {
            assert(text@ =~= s@.subrange(j2 as int, tr as int));
        }
        Some((text, e2))
    } else {
        None
    }
}

/// The keyword that introduces a file directive.
pub open spec fn sp_directive_kw(s: Seq<char>, j: int) -> bool {
    &&& j + 7 <= s.len()
    &&& s[j] == 'i'
    &&& s[j + 1] == 'n'
    &&& s[j + 2] == 'c'
    &&& s[j + 3] == 'l'
    &&& s[j + 4] == 'u'
    &&& s[j + 5] == 'd'
    &&& s[j + 6] == 'e'
}

/// A file directive: spaces, the directive keyword, at least one space, then
/// the rest of the line (trimmed) as a path.  An empty path is a semantic
/// error.
pub open spec fn sp_directive(s: Seq<char>, i: int) -> Result<(Seq<char>, int), ParseErrorKind> {
    let j = run_end(s, i, |c: char| spec_space(c));
    if sp_directive_kw(s, j) {
        let j2 = run_end(s, j + 7, |c: char| spec_space(c));
        if j2 == j + 7 {
            Err(ParseErrorKind::Syntax)
        } else {
            match sp_rest_of_line(s, j2) {
                None => Err(ParseErrorKind::Syntax),
                Some((t, e)) => match sp_eol(s, e) {
                    Some(e2) => if rtrim(t).len() == 0 {
                        Err(ParseErrorKind::EmptyPath)
                    } else {
                        Ok((rtrim(t), e2))
                    },
                    None => Err(ParseErrorKind::Syntax),
                },
            }
        }
    } else {
        Err(ParseErrorKind::Syntax)
    }
}

pub(crate) fn p_directive(s: &Vec<char>, i: usize) -> (r: Result<
    (Vec<char>, usize),
    ParseErrorKind,
>)
    requires
        i <= s.len(),
    ensures
        match (r, sp_directive(s@, i as int)) {
            (Ok((rv, rj)), Ok((t, j))) => rv@ == t && rj as int == j && i < rj <= s.len(),
            (Err(k1), Err(k2)) => k1 == k2,
            _ => false,
        },
{
    let j = space_run_end(s, i);
    if !(s.len() - j >= 7 && s[j] == 'i' && s[j + 1] == 'n' && s[j + 2] == 'c' && s[j + 3] == 'l'
        && s[j + 4] == 'u' && s[j + 5] == 'd' && s[j + 6] == 'e') {
        return Err(ParseErrorKind::Syntax);
    }
    let j2 = space_run_end(s, j + 7);
    if j2 == j + 7 {
        return Err(ParseErrorKind::Syntax);
    }
    let (_, e) = match p_rest_of_line(s, j2) {
        Some(x) => x,
        None => {
            return Err(ParseErrorKind::Syntax);
        },
    };
    let e2 = match p_eol(s, e) {
        Some(x) => x,
        None => {
            return Err(ParseErrorKind::Syntax);
        },
    };
    let tr = rtrim_end(s, j2, e);
    if tr == j2 {
        proof {
            assert(s@.subrange(j2 as int, tr as int) =~= Seq::<char>::empty());
        }
        return Err(ParseErrorKind::EmptyPath);
    }
    let mut text: Vec<char> = Vec::new();
    push_range(&mut text, s, j2, tr);
    proof {
        assert(text@ =~= s@.subrange(j2 as int, tr as int));
    }
    Ok((text, e2))
}

} // verus!

verus! {

// --- Metadata comment blocks ------------------------------------------------

/// Metadata accumulated from the comment lines under a transaction header or
/// posting: comment text, date overrides, and tags.
pub struct Metadata {
    pub comment: Option<String>,
    pub date: Option<Date>,
    pub effective_date: Option<Date>,
    pub tags: Vec<Tag>,
}

pub struct SpecMetadata {
    pub comment: Option<Seq<char>>,
    pub date: Option<Date>,
    pub effective_date: Option<Date>,
    pub tags: Seq<SpecTag>,
}

impl View for Metadata {
    type V = SpecMetadata;

    open spec fn view(&self) -> SpecMetadata {
        SpecMetadata {
            comment: crate::model::view_opt_str(self.comment),
            date: self.date,
            effective_date: self.effective_date,
            tags: self.tags@.map_values(|t: Tag| t@),
        }
    }
}

impl SpecMetadata {
    /// Every float tag value holds a well-formed decimal.
    pub open spec fn wf(self) -> bool {
        forall|i: int| 0 <= i < self.tags.len() ==> (#[trigger] self.tags[i]).wf()
    }
}

pub open spec fn sp_meta_empty() -> SpecMetadata {
    SpecMetadata { comment: None, date: None, effective_date: None, tags: Seq::empty() }
}

/// Merge a later metadata line into the accumulator: comment lines join with
/// a newline, tags concatenate, and a later date overrides an earlier one.
pub open spec fn sp_meta_merge(m1: SpecMetadata, m2: SpecMetadata) -> SpecMetadata {
    SpecMetadata {
        comment: match (m1.comment, m2.comment) {
            (Some(a), Some(b)) => Some(a + seq!['\n'] + b),
            (Some(a), None) => Some(a),
            (None, b) => b,
        },
        date: match m2.date {
            Some(d) => Some(d),
            None => m1.date,
        },
        effective_date: match m2.effective_date {
            Some(d) => Some(d),
            None => m1.effective_date,
        },
        tags: m1.tags + m2.tags,
    }
}

fn meta_empty() -> (r: Metadata)
    ensures
        r@ == sp_meta_empty(),
        r@.wf(),
{
    let r = Metadata { comment: None, date: None, effective_date: None, tags: Vec::new() };
    proof {
        assert(r@.tags =~= sp_meta_empty().tags);
    }
    r
}

fn meta_merge(m1: Metadata, m2: Metadata) -> (r: Metadata)
    ensures
        r@ == sp_meta_merge(m1@, m2@),
        m1@.wf() && m2@.wf() ==> r@.wf(),
{
    let ghost g1 = m1@;
    let ghost g2 = m2@;
    let comment: Option<String> = match (m1.comment, m2.comment) {
        (Some(a), Some(b)) => {
            let mut c = a;
            c.append("\n");
            c.append(b.as_str());
            proof {
                reveal_strlit("\n");
            }
            Some(c)
        },
        (Some(a), None) => Some(a),
        (None, b) => b,
    };
    let date = match m2.date {
        Some(d) => Some(d),
        None => m1.date,
    };
    let effective_date = match m2.effective_date {
        Some(d) => Some(d),
        None => m1.effective_date,
    };
    let mut tags = m1.tags;
    let mut t2 = m2.tags;
    let ghost tg1 = tags@;
    let ghost orig2 = t2@;
    while t2.len() > 0
        invariant
            tags@ + t2@ == tg1 + orig2,
        decreases t2.len(),
    {
        let item = t2.remove(0);
        tags.push(item);
        proof {
            assert(tags@ + t2@ =~= tg1 + orig2);
        }
    }
    let r = Metadata { comment, date, effective_date, tags };
    proof {
        assert(tags@ + t2@ =~= tags@);
        assert(tags@ =~= tg1 + orig2);
        assert(r@.tags =~= sp_meta_merge(g1, g2).tags);
        match (g1.comment, g2.comment) {
            (Some(a), Some(b)) => {
                assert(r@.comment == Some(a + seq!['\n'] + b));
            },
            _ => {},
        }
    }
    r
}

} // verus!

verus! {

// --- Tags -------------------------------------------------------------------

/// A colon-separated tag list after an opening colon: `tag1:tag2:...:`.
/// Each element is alphanumeric and is followed by a colon; the colon after
/// the last element closes the list.
pub open spec fn sp_tag_list(s: Seq<char>, j: int) -> Option<(Seq<SpecTag>, int)>
    decreases s.len() - j,
{
    if j < 0 || j > s.len() {
        None
    } else {
        let e = run_end(s, j, |c: char| spec_alnum(c));
        if e == j {
            None
        } else if j <= e < s.len() && s[e] == ':' {
            let tag = SpecTag { name: s.subrange(j, e), value: None };
            match sp_tag_list(s, e + 1) {
                Some((rest, e2)) => Some((seq![tag] + rest, e2)),
                None => Some((seq![tag], e + 1)),
            }
        } else {
            None
        }
    }
}

/// An embedded tag list `:tag1:tag2:...:`.
pub open spec fn sp_tags(s: Seq<char>, i: int) -> Option<(Seq<SpecTag>, int)> {
    if 0 <= i < s.len() && s[i] == ':' {
        sp_tag_list(s, i + 1)
    } else {
        None
    }
}

pub(crate) fn p_tags(s: &Vec<char>, i: usize) -> (r: Option<(Vec<Tag>, usize)>)
    requires
        i <= s.len(),
    ensures
        match (r, sp_tags(s@, i as int)) {
            (Some((v, rj)), Some((ts, j))) => v@.map_values(|t: Tag| t@) == ts && rj as int == j
                && i < rj <= s.len() && (forall|k: int|
                0 <= k < ts.len() ==> (#[trigger] ts[k]).wf()),
            (None, None) => true,
            _ => false,
        },
{
    let ghost ft = |t: Tag| t@;
    if !(i < s.len() && s[i] == ':') {
        return None;
    }
    let mut out: Vec<Tag> = Vec::new();
    let ghost mut acc: Seq<SpecTag> = Seq::empty();
    let mut j = i + 1;
    let mut started = false;
    proof {
        assert(out@.map_values(ft) =~= acc);
    }
    loop
        invariant
            i + 1 <= j <= s.len(),
            ft == (|t: Tag| t@),
            out@.map_values(ft) == acc,
            forall|k: int| 0 <= k < acc.len() ==> (#[trigger] acc[k]).wf(),
            started == (out@.len() > 0),
            match sp_tag_list(s@, j as int) {
                Some((rest, e)) => sp_tag_list(s@, (i + 1) as int) == Some((acc + rest, e)),
                None => if started {
                    sp_tag_list(s@, (i + 1) as int) == Some((acc, j as int))
                } else {
                    sp_tag_list(s@, (i + 1) as int) is None
                },
            },
        ensures
            i + 1 <= j <= s.len(),
            ft == (|t: Tag| t@),
            out@.map_values(ft) == acc,
            forall|k: int| 0 <= k < acc.len() ==> (#[trigger] acc[k]).wf(),
            started == (out@.len() > 0),
            if started {
                sp_tag_list(s@, (i + 1) as int) == Some((acc, j as int))
            } else {
                sp_tag_list(s@, (i + 1) as int) is None
            },
        decreases s.len() - j,
    {
        let e = alnum_run_end(s, j);
        if !(e > j && e < s.len() && s[e] == ':') {
            proof {
                assert(sp_tag_list(s@, j as int) is None);
            }
            break ;
        }
        let mut name: Vec<char> = Vec::new();
        push_range(&mut name, s, j, e);
        let tag = Tag { name: crate::text::chars_to_string(&name), value: None };
        let ghost stag = SpecTag { name: s@.subrange(j as int, e as int), value: None };
        proof {
            assert(tag@ == stag);
            match sp_tag_list(s@, (e + 1) as int) {
                Some((rest, e2)) => {
                    assert((acc + seq![stag]) + rest =~= acc + (seq![stag] + rest));
                },
                None => {},
            }
        }
        out.push(tag);
        proof {
            acc = acc + seq![stag];
            assert(out@.map_values(ft) =~= acc);
        }
        j = e + 1;
        started = true;
    }
    if !started {
        return None;
    }
    Some((out, j))
}

// --- Typed tag values -------------------------------------------------------

/// A plain signed decimal literal: an optional sign, a digit run, and an
/// optional fraction, without thousands grouping.
pub open spec fn sp_plain_decimal(s: Seq<char>, i: int) -> Option<(Decimal, int)> {
    let sign = i < s.len() && (s[i] == '-' || s[i] == '+');
    let negd = i < s.len() && s[i] == '-';
    let i1: int = if sign {
        i + 1
    } else {
        i
    };
    let e = run_end(s, i1, |c: char| spec_digit(c));
    let ip = s.subrange(i1, e);
    let fr: (Seq<char>, int, int) = if e < s.len() && s[e] == '.' && run_end(
        s,
        e + 1,
        |c: char| spec_digit(c),
    ) > e + 1 {
        let e2 = run_end(s, e + 1, |c: char| spec_digit(c));
        (ip + s.subrange(e + 1, e2), e2 - (e + 1), e2)
    } else {
        (ip, 0, e)
    };
    let ad = fr.0;
    let sc = fr.1;
    let j2 = fr.2;
    if ad.len() == 0 || sc > 28 || digits_val(ad) >= mantissa_limit() {
        None
    } else {
        Some(
            (
                Decimal {
                    mantissa: (if negd {
                        -digits_val(ad)
                    } else {
                        digits_val(ad)
                    }) as i128,
                    scale: sc as u32,
                },
                j2,
            ),
        )
    }
}

fn p_plain_decimal(s: &Vec<char>, i: usize) -> (r: Option<(Decimal, usize)>)
    requires
        i <= s.len(),
    ensures
        step_eq(r, sp_plain_decimal(s@, i as int)),
        r matches Some((d, j)) ==> d.wf() && i <= j <= s.len(),
{
    let ghost fd = |c: char| spec_digit(c);
    let mut negd = false;
    let mut i1 = i;
    if i < s.len() && (s[i] == '-' || s[i] == '+') {
        negd = s[i] == '-';
        i1 = i + 1;
    }
    let e = digit_run_end(s, i1);
    let mut digs: Vec<char> = Vec::new();
    push_range(&mut digs, s, i1, e);
    proof {
        lemma_run_end(s@, i1 as int, fd);
    }
    let mut scale_us: usize = 0;
    let mut j2 = e;
    if e < s.len() && s[e] == '.' {
        let e2 = digit_run_end(s, e + 1);
        proof {
            lemma_run_end(s@, e + 1 as int, fd);
        }
        if e2 > e + 1 {
            push_range(&mut digs, s, e + 1, e2);
            scale_us = e2 - (e + 1);
            j2 = e2;
        }
    }
    if digs.len() == 0 {
        return None;
    }
    if scale_us > 28 {
        return None;
    }
    let acc = match p_digits_value(&digs) {
        Some(v) => v,
        None => {
            return None;
        },
    };
    let m0: i128 = acc as i128;
    let mantissa: i128 = if negd {
        -m0
    } else {
        m0
    };
    Some((Decimal { mantissa, scale: scale_us as u32 }, j2))
}

/// A typed tag value: an integer (digits not followed by a decimal point),
/// else a plain decimal number, else a bracketed date.
pub open spec fn sp_tag_value(s: Seq<char>, i: int) -> Option<(SpecTagValue, int)> {
    let neg = i < s.len() && s[i] == '-';
    let i1: int = if neg {
        i + 1
    } else {
        i
    };
    let e = run_end(s, i1, |c: char| spec_digit(c));
    let v = digits_val(s.subrange(i1, e));
    let fits = if neg {
        v <= 0x8000000000000000
    } else {
        v <= 0x7fffffffffffffff
    };
    if e > i1 && !(e < s.len() && s[e] == '.') && fits {
        Some(
            (
                SpecTagValue::Integer(
                    (if neg {
                        -v
                    } else {
                        v
                    }) as i64,
                ),
                e,
            ),
        )
    } else {
        match sp_plain_decimal(s, i) {
            Some((d, j)) => Some((SpecTagValue::Float(d), j)),
            None => if i < s.len() && s[i] == '[' {
                match sp_date(s, i + 1) {
                    Some((Some(d), j)) => if j < s.len() && s[j] == ']' {
                        Some((SpecTagValue::Date(d), j + 1))
                    } else {
                        None
                    },
                    _ => None,
                }
            } else {
                None
            },
        }
    }
}

fn p_tag_value(s: &Vec<char>, i: usize) -> (r: Option<(TagValue, usize)>)
    requires
        i <= s.len(),
    ensures
        match (r, sp_tag_value(s@, i as int)) {
            (Some((v, rj)), Some((sv, j))) => v@ == sv && rj as int == j && i <= rj <= s.len() && (
            match sv {
                SpecTagValue::Float(d) => d.wf(),
                _ => true,
            }),
            (None, None) => true,
            _ => false,
        },
{
    let ghost fd = |c: char| spec_digit(c);
    let mut neg = false;
    let mut i1 = i;
    if i < s.len() && s[i] == '-' {
        neg = true;
        i1 = i + 1;
    }
    let e = digit_run_end(s, i1);
    proof {
        lemma_run_end(s@, i1 as int, fd);
    }
    if e > i1 && !(e < s.len() && s[e] == '.') {
        let mut digs: Vec<char> = Vec::new();
        push_range(&mut digs, s, i1, e);
        match p_digits_value(&digs) {
            Some(v) => {
                if (neg && v <= 0x8000000000000000u128) || (!neg && v <= 0x7fffffffffffffffu128) {
                    let m0: i128 = v as i128;
                    let sv: i64 = if neg {
                        (-m0) as i64
                    } else {
                        m0 as i64
                    };
                    return Some((TagValue::Integer(sv), e));
                }
            },
            None => {},
        }
    }
    match p_plain_decimal(s, i) {
        Some((d, j)) => Some((TagValue::Float(d), j)),
        None => {
            if i < s.len() && s[i] == '[' {
                match p_date(s, i + 1) {
                    Some((Some(d), j)) => {
                        if j < s.len() && s[j] == ']' {
                            Some((TagValue::Date(d), j + 1))
                        } else {
                            None
                        }
                    },
                    _ => None,
                }
            } else {
                None
            }
        },
    }
}

} // verus!

verus! {

// --- Metadata comment lines -------------------------------------------------

/// A bracketed date directive: `[date]`, `[=edate]`, or `[date=edate]`.
/// A syntactically valid but calendar-invalid date is not consumed, which
/// makes the whole directive fail and fall back to comment text.
pub open spec fn sp_meta_date(s: Seq<char>, i: int) -> Option<(SpecMetadata, int)> {
    let j0 = run_end(s, i, |c: char| spec_space(c));
    if j0 < s.len() && s[j0] == '[' {
        let d1: (Option<Date>, int) = match sp_date(s, j0 + 1) {
            Some((Some(d), e)) => (Some(d), e),
            _ => (None, j0 + 1),
        };
        let d2: (Option<Date>, int) = if d1.1 < s.len() && s[d1.1] == '=' {
            match sp_date(s, d1.1 + 1) {
                Some((Some(d), e)) => (Some(d), e),
                _ => (None, d1.1),
            }
        } else {
            (None, d1.1)
        };
        if d2.1 < s.len() && s[d2.1] == ']' {
            Some(
                (
                    SpecMetadata {
                        comment: None,
                        date: d1.0,
                        effective_date: d2.0,
                        tags: Seq::empty(),
                    },
                    d2.1 + 1,
                ),
            )
        } else {
            None
        }
    } else {
        None
    }
}

fn p_meta_date(s: &Vec<char>, i: usize) -> (r: Option<(Metadata, usize)>)
    requires
        i <= s.len(),
    ensures
        match (r, sp_meta_date(s@, i as int)) {
            (Some((m, rj)), Some((sm, j))) => m@ == sm && sm.wf() && rj as int == j && i <= rj
                <= s.len(),
            (None, None) => true,
            _ => false,
        },
{
    let j0 = space_run_end(s, i);
    if !(j0 < s.len() && s[j0] == '[') {
        return None;
    }
    let (d1, e1) = match p_date(s, j0 + 1) {
        Some((Some(d), e)) => (Some(d), e),
        _ => (None, j0 + 1),
    };
    let (d2, e2) = if e1 < s.len() && s[e1] == '=' {
        match p_date(s, e1 + 1) {
            Some((Some(d), e)) => (Some(d), e),
            _ => (None, e1),
        }
    } else {
        (None, e1)
    };
    if e2 < s.len() && s[e2] == ']' {
        let m = Metadata { comment: None, date: d1, effective_date: d2, tags: Vec::new() };
        proof {
            assert(m@.tags =~= Seq::<SpecTag>::empty());
        }
        Some((m, e2 + 1))
    } else {
        None
    }
}

/// A `Name: value` line (a plain string value) or a `Name:: value` line (a
/// typed value), yielding a single tag.
pub open spec fn sp_meta_tag_with_value(s: Seq<char>, i: int) -> Option<(SpecMetadata, int)> {
    let j0 = run_end(s, i, |c: char| spec_space(c));
    let e = run_end(s, j0, |c: char| spec_alnum(c));
    if e == j0 || !(e < s.len() && s[e] == ':') {
        None
    } else {
        let name = s.subrange(j0, e);
        if run_end(s, e + 1, |c: char| spec_space(c)) > e + 1 {
            // `Name: value`: the rest of the line, trimmed, as a string value
            let v0 = run_end(s, e + 1, |c: char| spec_space(c));
            match sp_rest_of_line(s, v0) {
                None => None,
                Some((t, e2)) => Some(
                    (
                        SpecMetadata {
                            comment: None,
                            date: None,
                            effective_date: None,
                            tags: seq![
                                SpecTag {
                                    name,
                                    value: Some(SpecTagValue::String(rtrim(t))),
                                },
                            ],
                        },
                        e2,
                    ),
                ),
            }
        } else if e + 1 < s.len() && s[e + 1] == ':' && run_end(
            s,
            e + 2,
            |c: char| spec_space(c),
        ) > e + 2 {
            // `Name:: value`: a typed value
            let v0 = run_end(s, e + 2, |c: char| spec_space(c));
            match sp_tag_value(s, v0) {
                None => None,
                Some((v, e2)) => Some(
                    (
                        SpecMetadata {
                            comment: None,
                            date: None,
                            effective_date: None,
                            tags: seq![SpecTag { name, value: Some(v) }],
                        },
                        e2,
                    ),
                ),
            }
        } else {
            None
        }
    }
}

fn p_meta_tag_with_value(s: &Vec<char>, i: usize) -> (r: Option<(Metadata, usize)>)
    requires
        i <= s.len(),
    ensures
        match (r, sp_meta_tag_with_value(s@, i as int)) {
            (Some((m, rj)), Some((sm, j))) => m@ == sm && sm.wf() && rj as int == j && i <= rj
                <= s.len(),
            (None, None) => true,
            _ => false,
        },
{
    let j0 = space_run_end(s, i);
    let e = alnum_run_end(s, j0);
    if e == j0 || !(e < s.len() && s[e] == ':') {
        return None;
    }
    let mut namev: Vec<char> = Vec::new();
    push_range(&mut namev, s, j0, e);
    let name = crate::text::chars_to_string(&namev);
    let v0a = space_run_end(s, e + 1);
    if v0a > e + 1 {
        let (_, e2) = match p_rest_of_line(s, v0a) {
            Some(x) => x,
            None => {
                return None;
            },
        };
        let tr = rtrim_end(s, v0a, e2);
        let mut valv: Vec<char> = Vec::new();
        push_range(&mut valv, s, v0a, tr);
        let tag = Tag {
            name,
            value: Some(TagValue::String(crate::text::chars_to_string(&valv))),
        };
        let mut tags: Vec<Tag> = Vec::new();
        let ghost stag = tag@;
        tags.push(tag);
        let m = Metadata { comment: None, date: None, effective_date: None, tags };
        proof {
            assert(m@.tags =~= seq![stag]);
        }
        Some((m, e2))
    } else if e + 1 < s.len() && s[e + 1] == ':' {
        let v0 = space_run_end(s, e + 2);
        if !(v0 > e + 2) {
            return None;
        }
        let (v, e2) = match p_tag_value(s, v0) {
            Some(x) => x,
            None => {
                return None;
            },
        };
        let tag = Tag { name, value: Some(v) };
        let mut tags: Vec<Tag> = Vec::new();
        let ghost stag = tag@;
        tags.push(tag);
        let m = Metadata { comment: None, date: None, effective_date: None, tags };
        proof {
            assert(m@.tags =~= seq![stag]);
        }
        Some((m, e2))
    } else {
        None
    }
}

} // verus!

verus! {

// --- Free comment text with embedded tags -----------------------------------

/// Scan forward over comment text, stopping at a line ending or at a colon
/// where an embedded tag list begins.
pub open spec fn cwt_scan(s: Seq<char>, j: int) -> int
    decreases s.len() - j,
{
    if 0 <= j < s.len() && s[j] != '\r' && s[j] != '\n' && !(s[j] == ':' && sp_tags(s, j) is Some) {
        cwt_scan(s, j + 1)
    } else {
        j
    }
}

/// Walk forward from `i` over spaces and tabs up to `e`; the result `r`
/// satisfies `s[r..e] == ltrim(s[i..e])`.
fn ltrim_start(s: &Vec<char>, i: usize, e: usize) -> (r: usize)
    requires
        i <= e <= s.len(),
    ensures
        i <= r <= e,
        s@.subrange(r as int, e as int) == ltrim(s@.subrange(i as int, e as int)),
{
    let mut r = i;
    while r < e && is_space_char(s[r])
        invariant
            i <= r <= e <= s.len(),
            forall|j: int| i <= j < r ==> spec_space(#[trigger] s@[j]),
        decreases e - r,
    {
        r = r + 1;
    }
    proof {
        let t = s@.subrange(i as int, e as int);
        lemma_ltrim_is(t, r - i);
        assert(t.subrange(r - i, t.len() as int) =~= s@.subrange(r as int, e as int));
    }
    r
}

/// Free comment text that may embed a tag list: leading text (trimmed), an
/// optional `:tag:...:` list, then trailing text (trimmed); the text pieces
/// join with a single space.  Always matches, possibly consuming nothing.
pub open spec fn sp_comment_with_tags(s: Seq<char>, i: int) -> (SpecMetadata, int) {
    let j0 = run_end(s, i, |c: char| spec_space(c));
    let p = cwt_scan(s, j0);
    let s1: Option<Seq<char>> = if p > j0 {
        Some(rtrim(s.subrange(j0, p)))
    } else {
        None
    };
    let tg: (Seq<SpecTag>, int) = match sp_tags(s, p) {
        Some((ts, e)) => (ts, e),
        None => (Seq::empty(), p),
    };
    let p2 = tg.1;
    let s2m: (Option<Seq<char>>, int) = match sp_rest_of_line(s, p2) {
        Some((t, e)) => if trim(t).len() > 0 {
            (Some(trim(t)), e)
        } else {
            (None, p2)
        },
        None => (None, p2),
    };
    let comment: Option<Seq<char>> = match (s1, s2m.0) {
        (Some(a), Some(b)) => Some(a + seq![' '] + b),
        (Some(a), None) => Some(a),
        (None, b) => b,
    };
    (
        SpecMetadata { comment, date: None, effective_date: None, tags: tg.0 },
        s2m.1,
    )
}

fn p_comment_with_tags(s: &Vec<char>, i: usize) -> (r: (Metadata, usize))
    requires
        i <= s.len(),
    ensures
        r.0@ == sp_comment_with_tags(s@, i as int).0,
        r.0@.wf(),
        r.1 as int == sp_comment_with_tags(s@, i as int).1,
        i <= r.1 <= s.len(),
{
    let j0 = space_run_end(s, i);
    let mut p = j0;
    while p < s.len() && s[p] != '\r' && s[p] != '\n' && !(s[p] == ':' && p_tags(s, p).is_some())
        invariant
            j0 <= p <= s.len(),
            cwt_scan(s@, j0 as int) == cwt_scan(s@, p as int),
        decreases s.len() - p,
    {
        p = p + 1;
    }
    proof {
        assert(cwt_scan(s@, p as int) == p as int);
    }
    let s1: Option<Vec<char>> = if p > j0 {
        let tr = rtrim_end(s, j0, p);
        let mut v: Vec<char> = Vec::new();
        push_range(&mut v, s, j0, tr);
        Some(v)
    } else {
        None
    };
    let (tags, p2) = match p_tags(s, p) {
        Some((ts, e)) => (ts, e),
        None => (Vec::new(), p),
    };
    let (s2, p3): (Option<Vec<char>>, usize) = match p_rest_of_line(s, p2) {
        Some((_, e)) => {
            let a = ltrim_start(s, p2, e);
            let b = rtrim_end(s, a, e);
            proof {
                let t = s@.subrange(p2 as int, e as int);
                assert(s@.subrange(b as int, b as int) =~= Seq::<char>::empty());
            }
            if b > a {
                let mut v: Vec<char> = Vec::new();
                push_range(&mut v, s, a, b);
                (Some(v), e)
            } else {
                proof {
                    let t = s@.subrange(p2 as int, e as int);
                    assert(s@.subrange(a as int, b as int) =~= Seq::<char>::empty());
                }
                (None, p2)
            }
        },
        None => (None, p2),
    };
    let comment: Option<String> = match (s1, s2) {
        (Some(a), Some(b)) => {
            let ghost ga = a@;
            let mut v = a;
            v.push(' ');
            let mut k: usize = 0;
            let ghost mid = v@;
            while k < b.len()
                invariant
                    k <= b.len(),
                    v@ == mid + b@.subrange(0, k as int),
                decreases b.len() - k,
            {
                v.push(b[k]);
                proof {
                    assert(v@ =~= mid + b@.subrange(0, (k + 1) as int));
                }
                k = k + 1;
            }
            proof {
                assert(b@.subrange(0, b@.len() as int) =~= b@);
                assert(v@ =~= ga + seq![' '] + b@);
            }
            Some(crate::text::chars_to_string(&v))
        },
        (Some(a), None) => Some(crate::text::chars_to_string(&a)),
        (None, Some(b)) => Some(crate::text::chars_to_string(&b)),
        (None, None) => None,
    };
    let m = Metadata { comment, date: None, effective_date: None, tags };
    proof {
        let sm = sp_comment_with_tags(s@, i as int).0;
        if (sp_tags(s@, p as int) is None) {
            assert(m@.tags =~= sm.tags);
        }
    }
    (m, p3)
}

} // verus!

verus! {

// --- The metadata comment block ---------------------------------------------

/// Skip blank lines: pairs of optional spaces and a line ending.  Spaces not
/// followed by a line ending are left unconsumed.
pub open spec fn sp_skip_blank(s: Seq<char>, i: int) -> int
    decreases s.len() - i,
{
    let j = run_end(s, i, |c: char| spec_space(c));
    if i <= j < s.len() && s[j] == '\n' {
        sp_skip_blank(s, j + 1)
    } else if i <= j && j + 1 < s.len() && s[j] == '\r' && s[j + 1] == '\n' {
        sp_skip_blank(s, j + 2)
    } else {
        i
    }
}

fn p_skip_blank(s: &Vec<char>, i: usize) -> (r: usize)
    requires
        i <= s.len(),
    ensures
        r as int == sp_skip_blank(s@, i as int),
        i <= r <= s.len(),
{
    let mut cur = i;
    loop
        invariant
            i <= cur <= s.len(),
            sp_skip_blank(s@, i as int) == sp_skip_blank(s@, cur as int),
        ensures
            i <= cur <= s.len(),
            sp_skip_blank(s@, i as int) == cur as int,
        decreases s.len() - cur,
    {
        let j = space_run_end(s, cur);
        if j < s.len() && s[j] == '\n' {
            cur = j + 1;
        } else if j < s.len() && s[j] == '\r' && j + 1 < s.len() && s[j + 1] == '\n' {
            cur = j + 2;
        } else {
            proof {
                assert(sp_skip_blank(s@, cur as int) == cur as int);
            }
            break ;
        }
    }
    cur
}

/// One metadata comment line: blank lines, spaces, a `;`, then a date
/// directive, a tag-with-value line, or free comment text, in that order.
pub open spec fn sp_meta_line(s: Seq<char>, i: int) -> Option<(SpecMetadata, int)> {
    let b = sp_skip_blank(s, i);
    let j = run_end(s, b, |c: char| spec_space(c));
    if j < s.len() && s[j] == ';' {
        match sp_meta_date(s, j + 1) {
            Some(x) => Some(x),
            None => match sp_meta_tag_with_value(s, j + 1) {
                Some(x) => Some(x),
                None => Some(sp_comment_with_tags(s, j + 1)),
            },
        }
    } else {
        None
    }
}

fn p_meta_line(s: &Vec<char>, i: usize) -> (r: Option<(Metadata, usize)>)
    requires
        i <= s.len(),
    ensures
        match (r, sp_meta_line(s@, i as int)) {
            (Some((m, rj)), Some((sm, j))) => m@ == sm && sm.wf() && rj as int == j && i < rj
                <= s.len(),
            (None, None) => true,
            _ => false,
        },
{
    let b = p_skip_blank(s, i);
    let j = space_run_end(s, b);
    if !(j < s.len() && s[j] == ';') {
        return None;
    }
    match p_meta_date(s, j + 1) {
        Some(x) => Some(x),
        None => match p_meta_tag_with_value(s, j + 1) {
            Some(x) => Some(x),
            None => {
                let (m, e) = p_comment_with_tags(s, j + 1);
                Some((m, e))
            },
        },
    }
}

/// Fold zero or more metadata comment lines into one accumulated metadata
/// value, starting from `acc`.
pub open spec fn sp_meta_fold(s: Seq<char>, i: int, acc: SpecMetadata) -> (SpecMetadata, int)
    decreases s.len() - i,
{
    match sp_meta_line(s, i) {
        Some((m, j)) => if i < j <= s.len() {
            sp_meta_fold(s, j, sp_meta_merge(acc, m))
        } else {
            (acc, i)
        },
        None => (acc, i),
    }
}

/// The metadata comment block: a fold over comment lines, terminated by
/// optional spaces and a line ending (or the end of the input).
pub open spec fn sp_metadata(s: Seq<char>, i: int) -> Option<(SpecMetadata, int)> {
    let f = sp_meta_fold(s, i, sp_meta_empty());
    let j = run_end(s, f.1, |c: char| spec_space(c));
    match sp_eol(s, j) {
        Some(e) => Some((f.0, e)),
        None => None,
    }
}

pub(crate) fn p_metadata(s: &Vec<char>, i: usize) -> (r: Option<(Metadata, usize)>)
    requires
        i <= s.len(),
    ensures
        match (r, sp_metadata(s@, i as int)) {
            (Some((m, rj)), Some((sm, j))) => m@ == sm && sm.wf() && rj as int == j && i <= rj
                <= s.len(),
            (None, None) => true,
            _ => false,
        },
{
    let mut acc = meta_empty();
    let mut j = i;
    loop
        invariant
            i <= j <= s.len(),
            acc@.wf(),
            sp_meta_fold(s@, i as int, sp_meta_empty()) == sp_meta_fold(s@, j as int, acc@),
        ensures
            i <= j <= s.len(),
            acc@.wf(),
            sp_meta_fold(s@, i as int, sp_meta_empty()) == (acc@, j as int),
        decreases s.len() - j,
    {
        match p_meta_line(s, j) {
            Some((m, j2)) => {
                acc = meta_merge(acc, m);
                j = j2;
            },
            None => {
                proof {
                    assert(sp_meta_fold(s@, j as int, acc@) == (acc@, j as int));
                }
                break ;
            },
        }
    }
    let j3 = space_run_end(s, j);
    match p_eol(s, j3) {
        Some(e) => Some((acc, e)),
        None => None,
    }
}

} // verus!

verus! {

// --- The account-boundary scanner -------------------------------------------

/// Walk the input one character at a time, tracking whether the previous
/// character was a single unconsumed space.  A hard delimiter (tab, carriage
/// return, newline) splits at the current position (or one earlier after a
/// single space); a second consecutive space splits before the pair; running
/// off the end without a split fails unless the last character is not a
/// space.  `Some(e)` splits the text as `[start, e)` with the rest at `e`.
pub open spec fn sp_hard_sep_scan(s: Seq<char>, start: int, pos: int, flag: bool) -> Option<int>
    decreases s.len() - pos,
{
    if pos < start || pos >= s.len() {
        None
    } else {
        let c = s[pos];
        if c == '\t' || c == '\r' || c == '\n' {
            if pos > start {
                Some(
                    if flag {
                        pos - 1
                    } else {
                        pos
                    },
                )
            } else {
                None
            }
        } else if c == ' ' {
            if flag {
                Some(pos - 1)
            } else {
                sp_hard_sep_scan(s, start, pos + 1, true)
            }
        } else {
            if pos == s.len() - 1 && pos > start {
                Some(s.len() as int)
            } else {
                sp_hard_sep_scan(s, start, pos + 1, false)
            }
        }
    }
}

/// The split for text beginning at `i`: see [`sp_hard_sep_scan`].
pub open spec fn sp_hard_sep(s: Seq<char>, i: int) -> Option<int> {
    sp_hard_sep_scan(s, i, i, false)
}

fn p_hard_sep(s: &Vec<char>, i: usize) -> (r: Option<usize>)
    requires
        i <= s.len(),
    ensures
        match (r, sp_hard_sep(s@, i as int)) {
            (Some(re), Some(e)) => re as int == e && i <= re <= s.len(),
            (None, None) => true,
            _ => false,
        },
{
    let mut pos = i;
    let mut flag = false;
    while pos < s.len()
        invariant
            i <= pos,
            pos <= s.len(),
            flag ==> pos > i,
            sp_hard_sep(s@, i as int) == sp_hard_sep_scan(s@, i as int, pos as int, flag),
        decreases s.len() - pos,
    {
        let c = s[pos];
        if c == '\t' || c == '\r' || c == '\n' {
            if pos > i {
                if flag {
                    return Some(pos - 1);
                } else {
                    return Some(pos);
                }
            } else {
                return None;
            }
        } else if c == ' ' {
            if flag {
                return Some(pos - 1);
            } else {
                flag = true;
            }
        } else {
            if pos == s.len() - 1 && pos > i {
                return Some(s.len());
            }
            flag = false;
        }
        pos = pos + 1;
    }
    None
}

/// An account name with its reality: the scanned span, with structural
/// brackets stripped (`[...]` balanced virtual, `(...)` unbalanced virtual).
pub open spec fn sp_account(s: Seq<char>, i: int) -> Option<((Seq<char>, Reality), int)> {
    match sp_hard_sep(s, i) {
        None => None,
        Some(e) => {
            let name = s.subrange(i, e);
            if name.len() >= 2 && name[0] == '[' && name.last() == ']' {
                Some(((name.subrange(1, name.len() - 1), Reality::BalancedVirtual), e))
            } else if name.len() >= 2 && name[0] == '(' && name.last() == ')' {
                Some(((name.subrange(1, name.len() - 1), Reality::UnbalancedVirtual), e))
            } else {
                Some(((name, Reality::Real), e))
            }
        },
    }
}

pub(crate) fn p_account(s: &Vec<char>, i: usize) -> (r: Option<((Vec<char>, Reality), usize)>)
    requires
        i <= s.len(),
    ensures
        match (r, sp_account(s@, i as int)) {
            (Some(((rn, rr), rj)), Some(((n, rl), j))) => rn@ == n && rr == rl && rj as int == j
                && i <= rj <= s.len(),
            (None, None) => true,
            _ => false,
        },
{
    let e = match p_hard_sep(s, i) {
        Some(e) => e,
        None => {
            return None;
        },
    };
    let ghost name = s@.subrange(i as int, e as int);
    if e - i >= 2 && s[i] == '[' && s[e - 1] == ']' {
        let mut v: Vec<char> = Vec::new();
        push_range(&mut v, s, i + 1, e - 1);
        proof {
            assert(v@ =~= name.subrange(1, name.len() - 1));
        }
        Some(((v, Reality::BalancedVirtual), e))
    } else if e - i >= 2 && s[i] == '(' && s[e - 1] == ')' {
        let mut v: Vec<char> = Vec::new();
        push_range(&mut v, s, i + 1, e - 1);
        proof {
            assert(v@ =~= name.subrange(1, name.len() - 1));
        }
        Some(((v, Reality::UnbalancedVirtual), e))
    } else {
        let mut v: Vec<char> = Vec::new();
        push_range(&mut v, s, i, e);
        Some(((v, Reality::Real), e))
    }
}

/// A status mark: `*` cleared, `!` pending.
pub open spec fn sp_status(s: Seq<char>, i: int) -> Option<(TransactionStatus, int)> {
    if i < s.len() && s[i] == '*' {
        Some((TransactionStatus::Cleared, i + 1))
    } else if i < s.len() && s[i] == '!' {
        Some((TransactionStatus::Pending, i + 1))
    } else {
        None
    }
}

pub(crate) fn p_status(s: &Vec<char>, i: usize) -> (r: Option<(TransactionStatus, usize)>)
    requires
        i <= s.len(),
    ensures
        match (r, sp_status(s@, i as int)) {
            (Some((rv, rj)), Some((v, j))) => rv == v && rj as int == j && i < rj <= s.len(),
            (None, None) => true,
            _ => false,
        },
{
    if i < s.len() && s[i] == '*' {
        Some((TransactionStatus::Cleared, i + 1))
    } else if i < s.len() && s[i] == '!' {
        Some((TransactionStatus::Pending, i + 1))
    } else {
        None
    }
}

// --- Postings ----------------------------------------------------------------

/// A posting: leading whitespace, an optional status mark, the account, an
/// optional amount, an optional `= balance`, then its metadata comments.
pub open spec fn sp_posting(s: Seq<char>, i: int) -> Option<(SpecPosting, int)> {
    let j0 = run_end(s, i, |c: char| spec_space(c));
    if j0 == i {
        None
    } else {
        let stm: (Option<TransactionStatus>, int) = match sp_status(s, j0) {
            Some((st, e)) => (Some(st), e),
            None => (None, j0),
        };
        let j1 = run_end(s, stm.1, |c: char| spec_space(c));
        match sp_account(s, j1) {
            None => None,
            Some(((name, reality), j2)) => {
                let a0 = run_end(s, j2, |c: char| spec_space(c));
                let am: (Option<SpecPostingAmount>, int) = match sp_posting_amount(s, a0) {
                    Some((pa, e)) => (Some(pa), e),
                    None => (None, j2),
                };
                let b0 = run_end(s, am.1, |c: char| spec_space(c));
                let bm: (Option<SpecBalance>, int) = if b0 < s.len() && s[b0] == '=' {
                    let b1 = run_end(s, b0 + 1, |c: char| spec_space(c));
                    match sp_balance(s, b1) {
                        Some((b, e)) => (Some(b), e),
                        None => (None, am.1),
                    }
                } else {
                    (None, am.1)
                };
                match sp_metadata(s, bm.1) {
                    None => None,
                    Some((md, j5)) => Some(
                        (
                            SpecPosting {
                                account: name,
                                reality,
                                amount: am.0,
                                balance: bm.0,
                                status: stm.0,
                                comment: md.comment,
                                metadata: SpecPostingMetadata {
                                    date: md.date,
                                    effective_date: md.effective_date,
                                    tags: md.tags,
                                },
                            },
                            j5,
                        ),
                    ),
                }
            },
        }
    }
}

#[verifier::rlimit(60)]
pub(crate) fn p_posting(s: &Vec<char>, i: usize) -> (r: Option<(Posting, usize)>)
    requires
        i <= s.len(),
    ensures
        match (r, sp_posting(s@, i as int)) {
            (Some((p, rj)), Some((sp, j))) => p@ == sp && p@.wf() && rj as int == j && i < rj
                <= s.len(),
            (None, None) => true,
            _ => false,
        },
{
    let j0 = space_run_end(s, i);
    if j0 == i {
        return None;
    }
    let (st, j0b) = match p_status(s, j0) {
        Some((st, e)) => (Some(st), e),
        None => (None, j0),
    };
    let j1 = space_run_end(s, j0b);
    let ((namev, reality), j2) = match p_account(s, j1) {
        Some(x) => x,
        None => {
            return None;
        },
    };
    let a0 = space_run_end(s, j2);
    let (amount, j3) = match p_posting_amount(s, a0) {
        Some((pa, e)) => (Some(pa), e),
        None => (None, j2),
    };
    let b0 = space_run_end(s, j3);
    let (balance, j4) = if b0 < s.len() && s[b0] == '=' {
        let b1 = space_run_end(s, b0 + 1);
        match p_balance(s, b1) {
            Some((b, e)) => (Some(b), e),
            None => (None, j3),
        }
    } else {
        (None, j3)
    };
    let (md, j5) = match p_metadata(s, j4) {
        Some(x) => x,
        None => {
            return None;
        },
    };
    let p = Posting {
        account: crate::text::chars_to_string(&namev),
        reality,
        amount,
        balance,
        status: st,
        comment: md.comment,
        metadata: PostingMetadata {
            date: md.date,
            effective_date: md.effective_date,
            tags: md.tags,
        },
    };
    Some((p, j5))
}

} // verus!

verus! {

// --- Transactions -------------------------------------------------------------

/// The free-text description: a span ending at a hard separator when a
/// comment follows, otherwise the rest of the line.
pub open spec fn sp_payee(s: Seq<char>, i: int) -> Option<(Seq<char>, int)> {
    let alt1: Option<(Seq<char>, int)> = match sp_hard_sep(s, i) {
        Some(e) => {
            let k = run_end(s, e, |c: char| spec_space(c));
            if k > e && k < s.len() && s[k] == ';' {
                Some((s.subrange(i, e), e))
            } else {
                None
            }
        },
        None => None,
    };
    match alt1 {
        Some(x) => Some(x),
        None => sp_rest_of_line(s, i),
    }
}

fn p_payee(s: &Vec<char>, i: usize) -> (r: Option<(Vec<char>, usize)>)
    requires
        i <= s.len(),
    ensures
        match (r, sp_payee(s@, i as int)) {
            (Some((rv, rj)), Some((t, j))) => rv@ == t && rj as int == j && i <= rj <= s.len(),
            (None, None) => true,
            _ => false,
        },
{
    match p_hard_sep(s, i) {
        Some(e) => {
            let k = space_run_end(s, e);
            if k > e && k < s.len() && s[k] == ';' {
                let mut v: Vec<char> = Vec::new();
                push_range(&mut v, s, i, e);
                return Some((v, e));
            }
        },
        None => {},
    }
    match p_rest_of_line(s, i) {
        Some((_, e)) => {
            let mut v: Vec<char> = Vec::new();
            push_range(&mut v, s, i, e);
            Some((v, e))
        },
        None => None,
    }
}

/// Postings with neither an amount nor a balance assertion.
pub open spec fn count_elided(ps: Seq<SpecPosting>) -> int
    decreases ps.len(),
{
    if ps.len() == 0 {
        0
    } else {
        count_elided(ps.drop_last()) + if ps.last().amount is None && ps.last().balance is None {
            1int
        } else {
            0int
        }
    }
}

/// One or more postings, folded left.
pub open spec fn sp_postings_fold(s: Seq<char>, i: int, acc: Seq<SpecPosting>) -> (
    Seq<SpecPosting>,
    int,
)
    decreases s.len() - i,
{
    match sp_posting(s, i) {
        Some((p, j)) => if i < j <= s.len() {
            sp_postings_fold(s, j, acc.push(p))
        } else {
            (acc, i)
        },
        None => (acc, i),
    }
}

/// A transaction: the dated header line, the header's metadata comments, and
/// one or more postings.  Semantic failures: a calendar-invalid date, more
/// than one elided posting, or a lone posting with neither amount nor
/// balance.
#[verifier::opaque]
pub open spec fn sp_transaction(s: Seq<char>, i: int) -> Result<
    (SpecTransaction, int),
    ParseErrorKind,
> {
    match sp_date(s, i) {
        None => Err(ParseErrorKind::Syntax),
        Some((None, _)) => Err(ParseErrorKind::InvalidDate),
        Some((Some(date), j0)) => {
            let bad_edate = j0 < s.len() && s[j0] == '=' && (sp_date(s, j0 + 1) matches Some(
                (None, _),
            ));
            if bad_edate {
                Err(ParseErrorKind::InvalidDate)
            } else {
                let edm: (Option<Date>, int) = if j0 < s.len() && s[j0] == '=' {
                    match sp_date(s, j0 + 1) {
                        Some((Some(d), e)) => (Some(d), e),
                        _ => (None, j0),
                    }
                } else {
                    (None, j0)
                };
                let s0 = run_end(s, edm.1, |c: char| spec_space(c));
                let stm: (Option<TransactionStatus>, int) = if s0 > edm.1 {
                    match sp_status(s, s0) {
                        Some((st, e)) => (Some(st), e),
                        None => (None, edm.1),
                    }
                } else {
                    (None, edm.1)
                };
                let c0 = run_end(s, stm.1, |c: char| spec_space(c));
                let cdm: (Option<Seq<char>>, int) = if c0 > stm.1 && c0 < s.len() && s[c0] == '(' {
                    let e = run_end(s, c0 + 1, |c: char| c != ')');
                    if e > c0 + 1 && e < s.len() && s[e] == ')' {
                        (Some(s.subrange(c0 + 1, e)), e + 1)
                    } else {
                        (None, stm.1)
                    }
                } else {
                    (None, stm.1)
                };
                let p0 = run_end(s, cdm.1, |c: char| spec_space(c));
                let pym: (Option<Seq<char>>, int) = if p0 > cdm.1 {
                    match sp_payee(s, p0) {
                        Some((t, e)) => (Some(t), e),
                        None => (None, cdm.1),
                    }
                } else {
                    (None, cdm.1)
                };
                match sp_metadata(s, pym.1) {
                    None => Err(ParseErrorKind::Syntax),
                    Some((md, m1)) => {
                        let ps = sp_postings_fold(s, m1, Seq::empty());
                        if ps.0.len() == 0 {
                            Err(ParseErrorKind::Syntax)
                        } else if count_elided(ps.0) > 1 {
                            Err(ParseErrorKind::MoreThanOneElided)
                        } else if ps.0.len() == 1 && count_elided(ps.0) == 1 {
                            Err(ParseErrorKind::NoPostingWithAmount)
                        } else {
                            Ok(
                                (
                                    SpecTransaction {
                                        comment: md.comment,
                                        date,
                                        effective_date: edm.0,
                                        status: stm.0,
                                        code: cdm.0,
                                        description: pym.0,
                                        posting_metadata: SpecPostingMetadata {
                                            date: md.date,
                                            effective_date: md.effective_date,
                                            tags: md.tags,
                                        },
                                        postings: ps.0,
                                    },
                                    ps.1,
                                ),
                            )
                        }
                    },
                }
            }
        },
    }
}

/// Parse one or more postings from `m1`, counting the elided ones.
#[verifier::rlimit(100)]
fn p_postings(s: &Vec<char>, m1: usize) -> (r: (Vec<Posting>, usize, usize))
    requires
        m1 <= s.len(),
    ensures
        m1 <= r.1 <= s.len(),
        sp_postings_fold(s@, m1 as int, Seq::empty()) == (
            r.0@.map_values(|p: Posting| p@),
            r.1 as int,
        ),
        r.2 as int == count_elided(r.0@.map_values(|p: Posting| p@)),
        r.2 <= r.0@.len(),
        forall|k: int| 0 <= k < r.0@.len() ==> (#[trigger] r.0@[k])@.wf(),
{
    let mut postings: Vec<Posting> = Vec::new();
    let ghost fp = |p: Posting| p@;
    let mut j = m1;
    let mut elided: usize = 0;
    proof {
        assert(postings@.map_values(fp) =~= Seq::<SpecPosting>::empty());
    }
    loop
        invariant
            m1 <= j <= s.len(),
            fp == (|p: Posting| p@),
            postings@.len() <= j - m1,
            sp_postings_fold(s@, m1 as int, Seq::empty()) == sp_postings_fold(
                s@,
                j as int,
                postings@.map_values(fp),
            ),
            elided as int == count_elided(postings@.map_values(fp)),
            elided <= postings@.len(),
            forall|k: int| 0 <= k < postings@.len() ==> (#[trigger] postings@[k])@.wf(),
        ensures
            m1 <= j <= s.len(),
            fp == (|p: Posting| p@),
            sp_postings_fold(s@, m1 as int, Seq::empty()) == (postings@.map_values(fp), j as int),
            elided as int == count_elided(postings@.map_values(fp)),
            elided <= postings@.len(),
            forall|k: int| 0 <= k < postings@.len() ==> (#[trigger] postings@[k])@.wf(),
        decreases s.len() - j,
    {
        match p_posting(s, j) {
            Some((p, j2)) => {
                let is_elided = p.amount.is_none() && p.balance.is_none();
                proof {
                    let old_ps = postings@.map_values(fp);
                    let new_ps = old_ps.push(p@);
                    assert(new_ps.drop_last() =~= old_ps);
                    assert(postings@.push(p).map_values(fp) =~= new_ps);
                }
                postings.push(p);
                if is_elided {
                    elided = elided + 1;
                }
                j = j2;
            },
            None => {
                proof {
                    assert(sp_postings_fold(s@, j as int, postings@.map_values(fp)) == (
                    postings@.map_values(fp),
                    j as int,
                    ));
                }
                break ;
            },
        }
    }
    (postings, j, elided)
}

#[verifier::rlimit(100)]
pub(crate) fn p_transaction(s: &Vec<char>, i: usize) -> (r: Result<
    (Transaction, usize),
    ParseErrorKind,
>)
    requires
        i <= s.len(),
    ensures
        match (r, sp_transaction(s@, i as int)) {
            (Ok((t, rj)), Ok((st, j))) => t@ == st && t@.wf() && rj as int == j && i < rj
                <= s.len(),
            (Err(k1), Err(k2)) => k1 == k2,
            _ => false,
        },
{
    proof {
        reveal(sp_transaction);
    }
    let (date, j0) = match p_date(s, i) {
        None => {
            return Err(ParseErrorKind::Syntax);
        },
        Some((None, _)) => {
            return Err(ParseErrorKind::InvalidDate);
        },
        Some((Some(d), j0)) => (d, j0),
    };
    let (edate, j1) = if j0 < s.len() && s[j0] == '=' {
        match p_date(s, j0 + 1) {
            Some((Some(d), e)) => (Some(d), e),
            Some((None, _)) => {
                return Err(ParseErrorKind::InvalidDate);
            },
            None => (None, j0),
        }
    } else {
        (None, j0)
    };
    let s0 = space_run_end(s, j1);
    let (status, j2) = if s0 > j1 {
        match p_status(s, s0) {
            Some((st, e)) => (Some(st), e),
            None => (None, j1),
        }
    } else {
        (None, j1)
    };
    let c0 = space_run_end(s, j2);
    let (code, j3) = if c0 > j2 && c0 < s.len() && s[c0] == '(' {
        let ghost fnp = |c: char| c != ')';
        let mut e = c0 + 1;
        while e < s.len() && s[e] != ')'
            invariant
                c0 + 1 <= e <= s.len(),
                fnp == (|c: char| c != ')'),
                run_end(s@, (c0 + 1) as int, fnp) == run_end(s@, e as int, fnp),
            decreases s.len() - e,
        {
            proof {
                crate::text::lemma_run_end_step(s@, e as int, e as int, fnp);
            }
            e = e + 1;
        }
        if e > c0 + 1 && e < s.len() {
            let mut v: Vec<char> = Vec::new();
            push_range(&mut v, s, c0 + 1, e);
            (Some(crate::text::chars_to_string(&v)), e + 1)
        } else {
            (None, j2)
        }
    } else {
        (None, j2)
    };
    let p0 = space_run_end(s, j3);
    let (description, j4) = if p0 > j3 {
        match p_payee(s, p0) {
            Some((t, e)) => (Some(crate::text::chars_to_string(&t)), e),
            None => (None, j3),
        }
    } else {
        (None, j3)
    };
    let (md, m1) = match p_metadata(s, j4) {
        Some(x) => x,
        None => {
            return Err(ParseErrorKind::Syntax);
        },
    };
    let (postings, j, elided) = p_postings(s, m1);
    if postings.len() == 0 {
        return Err(ParseErrorKind::Syntax);
    }
    if elided > 1 {
        return Err(ParseErrorKind::MoreThanOneElided);
    }
    if postings.len() == 1 && elided == 1 {
        return Err(ParseErrorKind::NoPostingWithAmount);
    }
    let t = Transaction {
        comment: md.comment,
        date,
        effective_date: edate,
        status,
        code,
        description,
        posting_metadata: PostingMetadata {
            date: md.date,
            effective_date: md.effective_date,
            tags: md.tags,
        },
        postings,
    };
    Ok((t, j))
}

} // verus!

verus! {

// --- Top-level items and the document ----------------------------------------

/// One top-level item, by ordered alternatives: empty line, line comment,
/// transaction, commodity price, file directive.  Semantic errors from an
/// alternative that has committed (a bad calendar date, a bad posting
/// structure, an empty path) abort instead of falling through.
pub open spec fn sp_item(s: Seq<char>, i: int) -> Result<(SpecLedgerItem, int), ParseErrorKind> {
    match sp_empty_line(s, i) {
        Some(e) => Ok((SpecLedgerItem::EmptyLine, e)),
        None => match sp_global_comment(s, i) {
            Some((t, e)) => Ok((SpecLedgerItem::LineComment(t), e)),
            None => match sp_transaction(s, i) {
                Ok((t, e)) => Ok((SpecLedgerItem::Transaction(t), e)),
                Err(ParseErrorKind::Syntax) => match sp_commodity_price(s, i) {
                    Ok((cp, e)) => Ok((SpecLedgerItem::CommodityPrice(cp), e)),
                    Err(ParseErrorKind::Syntax) => match sp_directive(s, i) {
                        Ok((t, e)) => Ok((SpecLedgerItem::Include(t), e)),
                        Err(k) => Err(k),
                    },
                    Err(k) => Err(k),
                },
                Err(k) => Err(k),
            },
        },
    }
}

#[verifier::rlimit(100)]
pub(crate) fn p_item(s: &Vec<char>, i: usize) -> (r: Result<(LedgerItem, usize), ParseErrorKind>)
    requires
        i <= s.len(),
    ensures
        match (r, sp_item(s@, i as int)) {
            (Ok((it, rj)), Ok((sit, j))) => it@ == sit && it@.wf() && rj as int == j && i < rj
                <= s.len(),
            (Err(k1), Err(k2)) => k1 == k2,
            _ => false,
        },
{
    match p_empty_line(s, i) {
        Some(e) => {
            return Ok((LedgerItem::EmptyLine, e));
        },
        None => {},
    }
    match p_global_comment(s, i) {
        Some((t, e)) => {
            return Ok((LedgerItem::LineComment(crate::text::chars_to_string(&t)), e));
        },
        None => {},
    }
    match p_transaction(s, i) {
        Ok((t, e)) => {
            return Ok((LedgerItem::Transaction(t), e));
        },
        Err(ParseErrorKind::Syntax) => {},
        Err(k) => {
            return Err(k);
        },
    }
    match p_commodity_price(s, i) {
        Ok((cp, e)) => {
            return Ok((LedgerItem::CommodityPrice(cp), e));
        },
        Err(ParseErrorKind::Syntax) => {},
        Err(k) => {
            return Err(k);
        },
    }
    match p_directive(s, i) {
        Ok((t, e)) => Ok((LedgerItem::Include(crate::text::chars_to_string(&t)), e)),
        Err(k) => Err(k),
    }
}

/// Strip items from the front until none matches.
pub open spec fn sp_items_fold(s: Seq<char>, i: int, acc: Seq<SpecLedgerItem>) -> Result<
    (Seq<SpecLedgerItem>, int),
    (int, ParseErrorKind),
>
    decreases s.len() - i,
{
    match sp_item(s, i) {
        Ok((it, j)) => if i < j <= s.len() {
            sp_items_fold(s, j, acc.push(it))
        } else {
            Ok((acc, i))
        },
        Err(ParseErrorKind::Syntax) => Ok((acc, i)),
        Err(k) => Err((i, k)),
    }
}

/// A whole document: top-level items until the input is exhausted.  Trailing
/// unconsumed text is an error at the position where no alternative matched.
pub open spec fn sp_ledger(s: Seq<char>) -> Result<SpecLedger, (int, ParseErrorKind)> {
    match sp_items_fold(s, 0, Seq::empty()) {
        Ok((items, j)) => if j == s.len() {
            Ok(SpecLedger { items })
        } else {
            Err((j, ParseErrorKind::Syntax))
        },
        Err(e) => Err(e),
    }
}

/// A structured parse failure: the position (in characters) where the parse
/// stopped, and what went wrong there.
#[derive(Debug, Clone, Copy, PartialEq, Eq, Structural)]
pub struct LedgerError {
    pub pos: usize,
    pub kind: ParseErrorKind,
}

#[verifier::rlimit(60)]
pub(crate) fn p_ledger(s: &Vec<char>) -> (r: Result<Ledger, LedgerError>)
    ensures
        match (r, sp_ledger(s@)) {
            (Ok(l), Ok(sl)) => l@ == sl && l@.wf(),
            (Err(e), Err((p, k))) => e.pos as int == p && e.kind == k,
            _ => false,
        },
{
    let mut items: Vec<LedgerItem> = Vec::new();
    let ghost fi = |it: LedgerItem| it@;
    let mut j: usize = 0;
    proof {
        assert(items@.map_values(fi) =~= Seq::<SpecLedgerItem>::empty());
    }
    loop
        invariant
            j <= s.len(),
            fi == (|it: LedgerItem| it@),
            sp_items_fold(s@, 0, Seq::empty()) == sp_items_fold(s@, j as int, items@.map_values(fi)),
            forall|k: int| 0 <= k < items@.len() ==> (#[trigger] items@[k])@.wf(),
        ensures
            j <= s.len(),
            fi == (|it: LedgerItem| it@),
            forall|k: int| 0 <= k < items@.len() ==> (#[trigger] items@[k])@.wf(),
            sp_items_fold(s@, 0, Seq::empty()) == Ok::<(Seq<SpecLedgerItem>, int), (int,
                ParseErrorKind,
            )>((items@.map_values(fi), j as int)),
        decreases s.len() - j,
    {
        match p_item(s, j) {
            Ok((it, j2)) => {
                proof {
                    assert(items@.push(it).map_values(fi) =~= items@.map_values(fi).push(it@));
                }
                items.push(it);
                j = j2;
            },
            Err(ParseErrorKind::Syntax) => {
                proof {
                    assert(sp_items_fold(s@, j as int, items@.map_values(fi)) == Ok::<
                        _,
                        (int, ParseErrorKind),
                    >((items@.map_values(fi), j as int)));
                }
                break ;
            },
            Err(k) => {
                return Err(LedgerError { pos: j, kind: k });
            },
        }
    }
    if j == s.len() {
        let l = Ledger { items };
        Ok(l)
    } else {
        Err(LedgerError { pos: j, kind: ParseErrorKind::Syntax })
    }
}

} // verus!

verus! {

// --- Public entry points ------------------------------------------------------

/// A parse failure rendered as text.
#[derive(Debug)]
pub enum ParseError {
    String(String),
}

pub open spec fn kind_text(kind: ParseErrorKind) -> Seq<char> {
    match kind {
        ParseErrorKind::Syntax => "no top-level item alternative matched"@,
        ParseErrorKind::InvalidDate => "invalid calendar date or time"@,
        ParseErrorKind::MoreThanOneElided => "more than one elided posting"@,
        ParseErrorKind::NoPostingWithAmount => "no posting with an amount"@,
        ParseErrorKind::EmptyPath => "empty path in file directive"@,
    }
}

/// The text of a reported parse failure: what failed and where.
pub open spec fn err_msg(pos: int, kind: ParseErrorKind) -> Seq<char> {
    kind_text(kind) + " at character "@ + crate::text::u_dec(pos)
}

impl ParseErrorKind {
    /// The failure as text, with the character position appended.
    pub fn to_message(self, pos: usize) -> (r: String)
        ensures
            r@ == err_msg(pos as int, self),
    {
        let lit: &str = match self {
            ParseErrorKind::Syntax => "no top-level item alternative matched",
            ParseErrorKind::InvalidDate => "invalid calendar date or time",
            ParseErrorKind::MoreThanOneElided => "more than one elided posting",
            ParseErrorKind::NoPostingWithAmount => "no posting with an amount",
            ParseErrorKind::EmptyPath => "empty path in file directive",
        };
        let mut v = crate::text::to_chars(lit);
        let mid = crate::text::to_chars(" at character ");
        push_range(&mut v, &mid, 0, mid.len());
        proof {
            assert(mid@.subrange(0, mid@.len() as int) =~= mid@);
        }
        crate::text::push_u_dec(&mut v, pos as u128);
        crate::text::chars_to_string(&v)
    }
}

/// Parse a whole document, returning the structured failure on error.
pub fn parse_ledger(input: &str) -> (r: Result<Ledger, LedgerError>)
    ensures
        match (r, sp_ledger(input@)) {
            (Ok(l), Ok(sl)) => l@ == sl && l@.wf(),
            (Err(e), Err((p, k))) => e.pos as int == p && e.kind == k,
            _ => false,
        },
{
    let chars = crate::text::to_chars(input);
    p_ledger(&chars)
}

impl core::str::FromStr for Ledger {
    type Err = ParseError;

    /// Parse a whole document, rendering any failure as text.
    fn from_str(input: &str) -> Result<Ledger, ParseError> {
        parse(input)
    }
}

/// Parse a whole document, rendering any failure as text.
pub fn parse(input: &str) -> (r: Result<Ledger, ParseError>)
    ensures
        match (r, sp_ledger(input@)) {
            (Ok(l), Ok(sl)) => l@ == sl && l@.wf(),
            (Err(ParseError::String(m)), Err((p, k))) => m@ == err_msg(p, k),
            _ => false,
        },
{
    match parse_ledger(input) {
        Ok(l) => Ok(l),
        Err(e) => Err(ParseError::String(e.kind.to_message(e.pos))),
    }
}

} // verus!

verus! {

// --- Public piecewise entry points --------------------------------------------
//
// Each takes the raw text, parses one construct at the front, and returns the
// unconsumed rest of the text together with the parsed value.

/// A calendar date.  `Err(InvalidDate)` reports a syntactically well-formed
/// date that fails calendar validation, distinct from a lexical failure.
pub fn parse_date(input: &str) -> (r: Result<(&str, Date), ParseErrorKind>)
    ensures
        match (r, sp_date(input@, 0)) {
            (Ok((rest, d)), Some((Some(sd), j))) => d == sd && d.valid() && rest@
                == input@.subrange(j, input@.len() as int),
            (Err(ParseErrorKind::InvalidDate), Some((None, _))) => true,
            (Err(ParseErrorKind::Syntax), None) => true,
            _ => false,
        },
{
    let chars = crate::text::to_chars(input);
    match p_date(&chars, 0) {
        Some((Some(d), j)) => Ok((input.substring_char(j, chars.len()), d)),
        Some((None, _)) => Err(ParseErrorKind::InvalidDate),
        None => Err(ParseErrorKind::Syntax),
    }
}

/// A calendar date with a time of day, under the same failure distinction as
/// [`parse_date`].
pub fn parse_datetime(input: &str) -> (r: Result<(&str, DateTime), ParseErrorKind>)
    ensures
        match (r, sp_datetime(input@, 0)) {
            (Ok((rest, d)), Some((Some(sd), j))) => d == sd && d.valid() && rest@
                == input@.subrange(j, input@.len() as int),
            (Err(ParseErrorKind::InvalidDate), Some((None, _))) => true,
            (Err(ParseErrorKind::Syntax), None) => true,
            _ => false,
        },
{
    let chars = crate::text::to_chars(input);
    match p_datetime(&chars, 0) {
        Some((Some(d), j)) => Ok((input.substring_char(j, chars.len()), d)),
        Some((None, _)) => Err(ParseErrorKind::InvalidDate),
        None => Err(ParseErrorKind::Syntax),
    }
}

/// A decimal quantity in grouped or plain form.
pub fn parse_quantity(input: &str) -> (r: Option<(&str, Decimal)>)
    ensures
        match (r, sp_quantity(input@, 0)) {
            (Some((rest, d)), Some((sd, j))) => d == sd && d.wf() && rest@ == input@.subrange(
                j,
                input@.len() as int,
            ),
            (None, None) => true,
            _ => false,
        },
{
    let chars = crate::text::to_chars(input);
    match p_quantity(&chars, 0) {
        Some((d, j)) => Some((input.substring_char(j, chars.len()), d)),
        None => None,
    }
}

/// A commodity symbol, quoted or plain.
pub fn parse_commodity(input: &str) -> (r: Option<(&str, String)>)
    ensures
        match (r, sp_commodity(input@, 0)) {
            (Some((rest, n)), Some((sn, j))) => n@ == sn && rest@ == input@.subrange(
                j,
                input@.len() as int,
            ),
            (None, None) => true,
            _ => false,
        },
{
    let chars = crate::text::to_chars(input);
    match p_commodity(&chars, 0) {
        Some((n, j)) => Some(
            (input.substring_char(j, chars.len()), crate::text::chars_to_string(&n)),
        ),
        None => None,
    }
}

/// An amount: a quantity and a commodity in either order.
pub fn parse_amount(input: &str) -> (r: Option<(&str, Amount)>)
    ensures
        match (r, sp_amount(input@, 0)) {
            (Some((rest, a)), Some((sa, j))) => a@ == sa && a.quantity.wf() && rest@
                == input@.subrange(j, input@.len() as int),
            (None, None) => true,
            _ => false,
        },
{
    let chars = crate::text::to_chars(input);
    match p_amount(&chars, 0) {
        Some((a, j)) => Some((input.substring_char(j, chars.len()), a)),
        None => None,
    }
}

/// A lot price in `{...}` or `{{...}}` form.
pub fn parse_lot_price(input: &str) -> (r: Option<(&str, Price)>)
    ensures
        match (r, sp_lot_price(input@, 0)) {
            (Some((rest, p)), Some((sp, j))) => p@ == sp && rest@ == input@.subrange(
                j,
                input@.len() as int,
            ),
            (None, None) => true,
            _ => false,
        },
{
    let chars = crate::text::to_chars(input);
    match p_lot_price(&chars, 0) {
        Some((p, j)) => Some((input.substring_char(j, chars.len()), p)),
        None => None,
    }
}

/// A price in `@` or `@@` form.
pub fn parse_price(input: &str) -> (r: Option<(&str, Price)>)
    ensures
        match (r, sp_price(input@, 0)) {
            (Some((rest, p)), Some((sp, j))) => p@ == sp && rest@ == input@.subrange(
                j,
                input@.len() as int,
            ),
            (None, None) => true,
            _ => false,
        },
{
    let chars = crate::text::to_chars(input);
    match p_price(&chars, 0) {
        Some((p, j)) => Some((input.substring_char(j, chars.len()), p)),
        None => None,
    }
}

/// An amount with optional lot price and price annotations.
pub fn parse_posting_amount(input: &str) -> (r: Option<(&str, PostingAmount)>)
    ensures
        match (r, sp_posting_amount(input@, 0)) {
            (Some((rest, pa)), Some((spa, j))) => pa@ == spa && rest@ == input@.subrange(
                j,
                input@.len() as int,
            ),
            (None, None) => true,
            _ => false,
        },
{
    let chars = crate::text::to_chars(input);
    match p_posting_amount(&chars, 0) {
        Some((pa, j)) => Some((input.substring_char(j, chars.len()), pa)),
        None => None,
    }
}

/// A balance assertion.
pub fn parse_balance(input: &str) -> (r: Option<(&str, Balance)>)
    ensures
        match (r, sp_balance(input@, 0)) {
            (Some((rest, b)), Some((sb, j))) => b@ == sb && rest@ == input@.subrange(
                j,
                input@.len() as int,
            ),
            (None, None) => true,
            _ => false,
        },
{
    let chars = crate::text::to_chars(input);
    match p_balance(&chars, 0) {
        Some((b, j)) => Some((input.substring_char(j, chars.len()), b)),
        None => None,
    }
}

/// A commodity price line.
pub fn parse_commodity_price(input: &str) -> (r: Result<(&str, CommodityPrice), ParseErrorKind>)
    ensures
        match (r, sp_commodity_price(input@, 0)) {
            (Ok((rest, cp)), Ok((scp, j))) => cp@ == scp && rest@ == input@.subrange(
                j,
                input@.len() as int,
            ),
            (Err(k1), Err(k2)) => k1 == k2,
            _ => false,
        },
{
    let chars = crate::text::to_chars(input);
    match p_commodity_price(&chars, 0) {
        Ok((cp, j)) => Ok((input.substring_char(j, chars.len()), cp)),
        Err(k) => Err(k),
    }
}

/// An account name with its reality.
pub fn parse_account(input: &str) -> (r: Option<(&str, (String, Reality))>)
    ensures
        match (r, sp_account(input@, 0)) {
            (Some((rest, (n, rl))), Some(((sn, srl), j))) => n@ == sn && rl == srl && rest@
                == input@.subrange(j, input@.len() as int),
            (None, None) => true,
            _ => false,
        },
{
    let chars = crate::text::to_chars(input);
    match p_account(&chars, 0) {
        Some(((n, rl), j)) => Some(
            (input.substring_char(j, chars.len()), (crate::text::chars_to_string(&n), rl)),
        ),
        None => None,
    }
}

/// A `*` or `!` status mark.
pub fn parse_transaction_status(input: &str) -> (r: Option<(&str, TransactionStatus)>)
    ensures
        match (r, sp_status(input@, 0)) {
            (Some((rest, st)), Some((sst, j))) => st == sst && rest@ == input@.subrange(
                j,
                input@.len() as int,
            ),
            (None, None) => true,
            _ => false,
        },
{
    let chars = crate::text::to_chars(input);
    match p_status(&chars, 0) {
        Some((st, j)) => Some((input.substring_char(j, chars.len()), st)),
        None => None,
    }
}

/// One posting line with its metadata comments.
pub fn parse_posting(input: &str) -> (r: Option<(&str, Posting)>)
    ensures
        match (r, sp_posting(input@, 0)) {
            (Some((rest, p)), Some((sp, j))) => p@ == sp && rest@ == input@.subrange(
                j,
                input@.len() as int,
            ),
            (None, None) => true,
            _ => false,
        },
{
    let chars = crate::text::to_chars(input);
    match p_posting(&chars, 0) {
        Some((p, j)) => Some((input.substring_char(j, chars.len()), p)),
        None => None,
    }
}

/// One transaction: header, metadata comments, and postings.
pub fn parse_transaction(input: &str) -> (r: Result<(&str, Transaction), ParseErrorKind>)
    ensures
        match (r, sp_transaction(input@, 0)) {
            (Ok((rest, t)), Ok((st, j))) => t@ == st && rest@ == input@.subrange(
                j,
                input@.len() as int,
            ),
            (Err(k1), Err(k2)) => k1 == k2,
            _ => false,
        },
{
    let chars = crate::text::to_chars(input);
    match p_transaction(&chars, 0) {
        Ok((t, j)) => Ok((input.substring_char(j, chars.len()), t)),
        Err(k) => Err(k),
    }
}

/// A file directive with its path.
pub fn parse_include_file(input: &str) -> (r: Result<(&str, String), ParseErrorKind>)
    ensures
        match (r, sp_directive(input@, 0)) {
            (Ok((rest, t)), Ok((st, j))) => t@ == st && rest@ == input@.subrange(
                j,
                input@.len() as int,
            ),
            (Err(k1), Err(k2)) => k1 == k2,
            _ => false,
        },
{
    let chars = crate::text::to_chars(input);
    match p_directive(&chars, 0) {
        Ok((t, j)) => Ok((input.substring_char(j, chars.len()), crate::text::chars_to_string(&t))),
        Err(k) => Err(k),
    }
}

} // verus!
