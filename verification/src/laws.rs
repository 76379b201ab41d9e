//! Round-trip laws: the serializer's output parses back to the value it was
//! rendered from.  Each law is a proof function whose contract states the
//! property over the spec-level parse and render functions.

use vstd::prelude::*;

use vstd::arithmetic::div_mod::{lemma_fundamental_div_mod, lemma_mod_bound, lemma_div_pos_is_pos};

use crate::decimal::{lemma_pow10_pos, pow10, Decimal};
use crate::model::SpecAmount;
use crate::parser::{sp_grouped_digits, sp_group_list, sp_quantity};
use crate::serializer::dec_str;
use crate::text::{
    digits_val, lemma_digits_val_append, lemma_pad_dec, lemma_run_end_is, lemma_u_dec,
    lemma_u_dec_len_le, pad_dec, run_end, spec_commodity_char, spec_digit, u_dec,
};

verus! {

/// The canonical text of a well-formed decimal parses back to exactly that
/// decimal, consuming exactly that text, whenever the following character
/// (if any) is not a digit, a decimal point, or a thousands separator.
#[verifier::rlimit(100)]
pub proof fn lemma_quantity_round_trip(s: Seq<char>, i: int, d: Decimal)
    requires
        d.wf(),
        0 <= i,
        i + dec_str(d).len() <= s.len(),
        s.subrange(i, i + dec_str(d).len() as int) == dec_str(d),
        i + dec_str(d).len() == s.len() || !(spec_digit(s[i + dec_str(d).len()]) || s[i
            + dec_str(d).len()] == '.' || s[i + dec_str(d).len()] == ','),
    ensures
        sp_quantity(s, i) == Some((d, i + dec_str(d).len())),
{
    reveal(crate::serializer::dec_str);
    let ds = dec_str(d);
    let l = ds.len() as int;
    let neg = d.mantissa < 0;
    let a: int = if neg {
        -d.mantissa
    } else {
        d.mantissa as int
    };
    let sl: int = if neg {
        1
    } else {
        0
    };
    let fd = |c: char| spec_digit(c);
    assert forall|k: int| 0 <= k < l implies s[i + k] == ds[k] by {
        assert(s.subrange(i, i + l)[k] == s[i + k]);
    }
    lemma_mod_bound(a, 28);
    if d.scale == 0 {
        // ds == sgn + u_dec(a)
        lemma_u_dec(a);
        let nh = u_dec(a).len() as int;
        assert(l == sl + nh);
        assert(forall|k: int| 0 <= k < nh ==> ds[sl + k] == u_dec(a)[k]);
        if neg {
            assert(ds[0] == '-');
            assert(s[i] == '-');
        } else {
            assert(s[i] == u_dec(a)[0]);
            assert(spec_digit(s[i]));
            assert(s[i] != '-');
        }
        let i1 = i + sl;
        // the digit run is exactly u_dec(a)
        assert forall|k: int| i1 <= k < i1 + nh implies fd(s[k]) by {
            assert(s[k] == ds[sl + (k - i1)]);
            assert(ds[sl + (k - i1)] == u_dec(a)[k - i1]);
        }
        assert(i1 + nh == s.len() || !fd(s[i1 + nh]));
        lemma_run_end_is(s, i1, i1 + nh, fd);
        let e = run_end(s, i1, fd);
        assert(e == i1 + nh);
        // the grouped form fails: the character at the group position is not a comma
        let le: int = if e > i1 + 3 {
            i1 + 3
        } else {
            e
        };
        assert(le > i1);
        if le < e {
            assert(s[le] == u_dec(a)[le - i1]);
            assert(spec_digit(s[le]));
            assert(s[le] != ',');
        } else {
            assert(le == i1 + nh);
            assert(le == s.len() || s[le] != ',');
        }
        assert(!crate::parser::sp_group_at(s, le));
        assert(sp_group_list(s, le) is None);
        assert(sp_grouped_digits(s, i1) is None);
        // no fraction: the next character is not a point
        assert(e == s.len() || s[e] != '.');
        let ip = s.subrange(i1, e);
        assert(ip =~= u_dec(a));
        assert(digits_val(ip) == a);
        assert(a < crate::decimal::mantissa_limit());
        assert(ip.len() > 0);
        assert(sp_quantity(s, i) == Some(
            (Decimal { mantissa: (if neg { -a } else { a }) as i128, scale: 0u32 }, e),
        ));
        assert((if neg { -a } else { a }) as i128 == d.mantissa);
        assert(e == i + l);
    } else {
        let p = pow10(d.scale as nat);
        lemma_pow10_pos(d.scale as nat);
        lemma_fundamental_div_mod(a, p);
        lemma_mod_bound(a, p);
        lemma_div_pos_is_pos(a, p);
        let hi = a / p;
        let lo = a % p;
        lemma_u_dec(hi);
        lemma_u_dec_len_le(lo, d.scale as int);
        lemma_pad_dec(lo, d.scale as int);
        let nh = u_dec(hi).len() as int;
        let np = pad_dec(lo, d.scale as int).len() as int;
        assert(np == d.scale as int);
        assert(ds =~= (if neg { seq!['-'] } else { Seq::<char>::empty() }) + u_dec(hi) + seq!['.']
            + pad_dec(lo, d.scale as int));
        assert(l == sl + nh + 1 + np);
        assert(forall|k: int| 0 <= k < nh ==> ds[sl + k] == u_dec(hi)[k]);
        assert(ds[sl + nh] == '.');
        assert(forall|k: int| 0 <= k < np ==> ds[sl + nh + 1 + k] == pad_dec(lo, d.scale as int)[k]);
        if neg {
            assert(ds[0] == '-');
            assert(s[i] == '-');
        } else {
            assert(s[i] == u_dec(hi)[0]);
            assert(spec_digit(s[i]));
            assert(s[i] != '-');
        }
        let i1 = i + sl;
        // integer-part digit run
        assert forall|k: int| i1 <= k < i1 + nh implies fd(s[k]) by {
            assert(s[k] == ds[sl + (k - i1)]);
        }
        assert(s[i1 + nh] == '.');
        assert(!fd(s[i1 + nh]));
        lemma_run_end_is(s, i1, i1 + nh, fd);
        let e = run_end(s, i1, fd);
        assert(e == i1 + nh);
        // grouped form fails
        let le: int = if e > i1 + 3 {
            i1 + 3
        } else {
            e
        };
        assert(le > i1);
        if le < e {
            assert(s[le] == ds[sl + (le - i1)]);
            assert(spec_digit(s[le]));
            assert(s[le] != ',');
        } else {
            assert(s[le] == '.');
            assert(s[le] != ',');
        }
        assert(!crate::parser::sp_group_at(s, le));
        assert(sp_group_list(s, le) is None);
        assert(sp_grouped_digits(s, i1) is None);
        let ip = s.subrange(i1, e);
        assert(ip =~= u_dec(hi));
        // fraction digit run
        let f0 = e + 1;
        assert forall|k: int| f0 <= k < f0 + np implies fd(s[k]) by {
            assert(s[k] == ds[sl + nh + 1 + (k - f0)]);
        }
        assert(f0 + np == i + l);
        assert(f0 + np == s.len() || !fd(s[f0 + np]));
        lemma_run_end_is(s, f0, f0 + np, fd);
        let e2 = run_end(s, f0, fd);
        assert(e2 == f0 + np);
        assert(e2 > f0);
        let frac = s.subrange(f0, e2);
        assert(frac =~= pad_dec(lo, d.scale as int));
        let ad = ip + frac;
        lemma_digits_val_append(u_dec(hi), pad_dec(lo, d.scale as int));
        assert(digits_val(ad) == hi * p + lo);
        assert(hi * p + lo == a) by {
            assert(a == p * hi + lo);
            assert(p * hi == hi * p) by (nonlinear_arith);
        }
        assert(ad.len() > 0);
        assert(a < crate::decimal::mantissa_limit());
        assert(sp_quantity(s, i) == Some(
            (
                Decimal {
                    mantissa: (if neg { -a } else { a }) as i128,
                    scale: d.scale,
                },
                e2,
            ),
        ));
        assert((if neg { -a } else { a }) as i128 == d.mantissa);
        assert(e2 == i + l);
    }
}

} // verus!

verus! {

/// A commodity symbol that the plain (unquoted) form can carry.
pub open spec fn plain_symbol(name: Seq<char>) -> bool {
    &&& name.len() >= 1
    &&& forall|k: int| 0 <= k < name.len() ==> spec_commodity_char(#[trigger] name[k])
}

/// The first character of a rendered decimal is a minus sign exactly for
/// negative values, and a digit otherwise; after a minus sign comes a digit.
proof fn lemma_dec_str_head(d: Decimal)
    requires
        d.wf(),
    ensures
        dec_str(d).len() >= 1,
        d.mantissa < 0 ==> dec_str(d)[0] == '-' && dec_str(d).len() >= 2 && spec_digit(
            dec_str(d)[1],
        ),
        d.mantissa >= 0 ==> spec_digit(dec_str(d)[0]),
{
    reveal(crate::serializer::dec_str);
    let neg = d.mantissa < 0;
    let a: int = if neg {
        -d.mantissa
    } else {
        d.mantissa as int
    };
    if d.scale == 0 {
        lemma_u_dec(a);
    } else {
        let p = pow10(d.scale as nat);
        lemma_pow10_pos(d.scale as nat);
        lemma_div_pos_is_pos(a, p);
        lemma_u_dec(a / p);
    }
}

/// **Commodity position round trip**: rendering a well-formed amount whose
/// symbol is writable in plain form, then parsing the result, yields the
/// amount back, consuming all of the text — for either symbol position.
#[verifier::rlimit(100)]
pub proof fn lemma_amount_round_trip(a: SpecAmount)
    requires
        a.wf(),
        plain_symbol(a.commodity.name),
    ensures
        crate::parser::sp_amount(crate::serializer::ser_amount(a), 0) == Some(
            (a, crate::serializer::ser_amount(a).len() as int),
        ),
{
    let name = a.commodity.name;
    let q = a.quantity;
    let s = crate::serializer::ser_amount(a);
    let nl = name.len() as int;
    let dl = dec_str(q).len() as int;
    let fc = |c: char| spec_commodity_char(c);
    let fs = |c: char| crate::text::spec_space(c);
    lemma_dec_str_head(q);
    match a.commodity.position {
        crate::model::CommodityPosition::Left => {
            // s == name + dec_str(q)
            assert(s.len() == nl + dl);
            assert(forall|k: int| 0 <= k < nl ==> s[k] == name[k]);
            assert(forall|k: int| 0 <= k < dl ==> s[nl + k] == dec_str(q)[k]);
            // the commodity-first alternative applies
            assert(spec_commodity_char(s[0]));
            assert(s[0] != '-' && s[0] != '"');
            assert(!spec_commodity_char(s[nl]));
            lemma_run_end_is(s, 0, nl, fc);
            assert(crate::parser::sp_commodity(s, 0) == Some((s.subrange(0, nl), nl)));
            assert(s.subrange(0, nl) =~= name);
            assert(!crate::text::spec_space(s[nl]));
            lemma_run_end_is(s, nl, nl, fs);
            assert(s.subrange(nl, nl + dl) =~= dec_str(q));
            lemma_quantity_round_trip(s, nl, q);
            assert(crate::parser::sp_amount_left(s, 0) == Some((a, s.len() as int)));
        },
        crate::model::CommodityPosition::Right => {
            // s == dec_str(q) + [' '] + name
            assert(s.len() == dl + 1 + nl);
            assert(forall|k: int| 0 <= k < dl ==> s[k] == dec_str(q)[k]);
            assert(s[dl] == ' ');
            assert(forall|k: int| 0 <= k < nl ==> s[dl + 1 + k] == name[k]);
            // the commodity-first alternative fails: the text starts with the
            // quantity, whose first character is no commodity character
            if q.mantissa < 0 {
                assert(s[0] == '-');
                assert(spec_digit(s[1]));
                assert(!crate::text::spec_space(s[1]));
                lemma_run_end_is(s, 1, 1, fs);
                assert(!spec_commodity_char(s[1]));
                assert(s[1] != '"');
                lemma_run_end_is(s, 1, 1, fc);
                assert(crate::parser::sp_commodity(s, 1) is None);
                assert(crate::parser::sp_amount_left(s, 0) is None);
            } else {
                assert(spec_digit(s[0]));
                assert(s[0] != '-');
                assert(!spec_commodity_char(s[0]));
                assert(s[0] != '"');
                lemma_run_end_is(s, 0, 0, fc);
                assert(crate::parser::sp_commodity(s, 0) is None);
                assert(crate::parser::sp_amount_left(s, 0) is None);
            }
            // the quantity-first alternative applies
            assert(s.subrange(0, dl) =~= dec_str(q));
            assert(s[dl] == ' ' && !spec_digit(s[dl]) && s[dl] != '.' && s[dl] != ',');
            lemma_quantity_round_trip(s, 0, q);
            assert(crate::text::spec_space(s[dl]));
            assert(!crate::text::spec_space(s[dl + 1]));
            lemma_run_end_is(s, dl, dl + 1, fs);
            assert(spec_commodity_char(s[dl + 1]));
            assert(s[dl + 1] != '"');
            lemma_run_end_is(s, dl + 1, s.len() as int, fc);
            assert(crate::parser::sp_commodity(s, dl + 1) == Some(
                (s.subrange(dl + 1, s.len() as int), s.len() as int),
            ));
            assert(s.subrange(dl + 1, s.len() as int) =~= name);
            assert(crate::parser::sp_amount_right(s, 0) == Some((a, s.len() as int)));
        },
    }
}

} // verus!

verus! {

/// The account-boundary scanner consumes text to the end when it holds no
/// hard delimiter and no two consecutive spaces, does not end in a space,
/// and spans at least two characters.
proof fn lemma_hard_sep_scan_all(s: Seq<char>, start: int, pos: int, flag: bool)
    requires
        0 <= start <= pos < s.len(),
        s.len() >= start + 2,
        forall|k: int| pos <= k < s.len() ==> !(#[trigger] s[k] == '\t' || s[k] == '\r' || s[k]
            == '\n'),
        forall|k: int| pos <= k < s.len() - 1 ==> !(#[trigger] s[k] == ' ' && s[k + 1] == ' '),
        flag ==> pos > start && s[pos] != ' ',
        s[s.len() - 1] != ' ',
    ensures
        crate::parser::sp_hard_sep_scan(s, start, pos, flag) == Some(s.len() as int),
    decreases s.len() - pos,
{
    let c = s[pos];
    if c == ' ' {
        assert(pos < s.len() - 1);
        assert(s[pos + 1] != ' ');
        lemma_hard_sep_scan_all(s, start, pos + 1, true);
    } else {
        if pos == s.len() - 1 && pos > start {
        } else {
            assert(pos < s.len() - 1);
            lemma_hard_sep_scan_all(s, start, pos + 1, false);
        }
    }
}

/// Text that the scanner can carry as an account name.
pub open spec fn scannable(t: Seq<char>) -> bool {
    &&& t.len() >= 2
    &&& forall|k: int| 0 <= k < t.len() ==> !(#[trigger] t[k] == '\t' || t[k] == '\r' || t[k]
        == '\n')
    &&& forall|k: int| 0 <= k < t.len() - 1 ==> !(#[trigger] t[k] == ' ' && t[k + 1] == ' ')
    &&& t[t.len() - 1] != ' '
}

/// The account text as the serializer writes it: the name in its reality's
/// brackets.
pub open spec fn wrap_account(name: Seq<char>, r: crate::model::Reality) -> Seq<char> {
    match r {
        crate::model::Reality::Real => name,
        crate::model::Reality::BalancedVirtual => seq!['['] + name + seq![']'],
        crate::model::Reality::UnbalancedVirtual => seq!['('] + name + seq![')'],
    }
}

/// **Account reality round trip**: an account name written in its reality's
/// bracket form parses back to the same name and reality, consuming the
/// whole text.  A real account name must not itself look like a bracket
/// form, must hold no hard delimiter or double space, must not end in a
/// space, and must be long enough for the scanner.
#[verifier::rlimit(100)]
pub proof fn lemma_account_round_trip(name: Seq<char>, r: crate::model::Reality)
    requires
        name.len() >= 1,
        forall|k: int| 0 <= k < name.len() ==> !(#[trigger] name[k] == '\t' || name[k] == '\r'
            || name[k] == '\n'),
        forall|k: int| 0 <= k < name.len() - 1 ==> !(#[trigger] name[k] == ' ' && name[k + 1]
            == ' '),
        r is Real ==> name.len() >= 2 && name[name.len() - 1] != ' ' && !(name[0] == '['
            && name[name.len() - 1] == ']') && !(name[0] == '(' && name[name.len() - 1] == ')'),
    ensures
        crate::parser::sp_account(wrap_account(name, r), 0) == Some(
            ((name, r), wrap_account(name, r).len() as int),
        ),
{
    let s = wrap_account(name, r);
    let n = s.len() as int;
    match r {
        crate::model::Reality::Real => {
            assert(scannable(s));
            lemma_hard_sep_scan_all(s, 0, 0, false);
            assert(crate::parser::sp_hard_sep(s, 0) == Some(n));
            assert(s.subrange(0, n) =~= name);
        },
        crate::model::Reality::BalancedVirtual => {
            assert(s.len() == name.len() + 2);
            assert(s[0] == '[');
            assert(s[n - 1] == ']');
            assert(forall|k: int| 0 <= k < name.len() ==> s[1 + k] == name[k]);
            assert forall|k: int| 0 <= k < n implies !(#[trigger] s[k] == '\t' || s[k] == '\r'
                || s[k] == '\n') by {
                if 1 <= k < n - 1 {
                    assert(s[k] == name[k - 1]);
                }
            }
            assert forall|k: int| 0 <= k < n - 1 implies !(#[trigger] s[k] == ' ' && s[k + 1]
                == ' ') by {
                if 1 <= k < n - 2 {
                    assert(s[k] == name[k - 1]);
                    assert(s[k + 1] == name[k]);
                }
            }
            lemma_hard_sep_scan_all(s, 0, 0, false);
            assert(crate::parser::sp_hard_sep(s, 0) == Some(n));
            let full = s.subrange(0, n);
            assert(full =~= s);
            assert(full.len() >= 2 && full[0] == '[' && full.last() == ']');
            assert(full.subrange(1, full.len() - 1) =~= name);
        },
        crate::model::Reality::UnbalancedVirtual => {
            assert(s.len() == name.len() + 2);
            assert(s[0] == '(');
            assert(s[n - 1] == ')');
            assert(forall|k: int| 0 <= k < name.len() ==> s[1 + k] == name[k]);
            assert forall|k: int| 0 <= k < n implies !(#[trigger] s[k] == '\t' || s[k] == '\r'
                || s[k] == '\n') by {
                if 1 <= k < n - 1 {
                    assert(s[k] == name[k - 1]);
                }
            }
            assert forall|k: int| 0 <= k < n - 1 implies !(#[trigger] s[k] == ' ' && s[k + 1]
                == ' ') by {
                if 1 <= k < n - 2 {
                    assert(s[k] == name[k - 1]);
                    assert(s[k + 1] == name[k]);
                }
            }
            lemma_hard_sep_scan_all(s, 0, 0, false);
            assert(crate::parser::sp_hard_sep(s, 0) == Some(n));
            let full = s.subrange(0, n);
            assert(full =~= s);
            assert(!(full[0] == '[' && full.last() == ']'));
            assert(full.len() >= 2 && full[0] == '(' && full.last() == ')');
            assert(full.subrange(1, full.len() - 1) =~= name);
        },
    }
}

} // verus!

verus! {

/// **Elided-posting invariant**: a transaction that parses has at most one
/// posting with neither amount nor balance assertion, and a single-posting
/// transaction has none.
proof fn lemma_count_elided_nonneg(ps: Seq<crate::model::SpecPosting>)
    ensures
        crate::parser::count_elided(ps) >= 0,
    decreases ps.len(),
{
    if ps.len() > 0 {
        lemma_count_elided_nonneg(ps.drop_last());
    }
}

#[verifier::rlimit(100)]
#[verifier::spinoff_prover]
pub proof fn lemma_parsed_transaction_elision(s: Seq<char>, i: int)
    ensures
        crate::parser::sp_transaction(s, i) matches Ok((t, _)) ==> {
            &&& crate::parser::count_elided(t.postings) <= 1
            &&& t.postings.len() == 1 ==> crate::parser::count_elided(t.postings) == 0
            &&& t.postings.len() >= 1
        },
{
    reveal(crate::parser::sp_transaction);
    match crate::parser::sp_transaction(s, i) {
        Ok((t, _)) => {
            lemma_count_elided_nonneg(t.postings);
        },
        Err(_) => {},
    }
}

/// The elided-posting invariant holds of every transaction in a parsed
/// document.
pub proof fn lemma_parsed_ledger_elision(s: Seq<char>)
    ensures
        crate::parser::sp_ledger(s) matches Ok(l) ==> forall|i: int|
            0 <= i < l.items.len() ==> match #[trigger] l.items[i] {
                crate::model::SpecLedgerItem::Transaction(t) => {
                    &&& crate::parser::count_elided(t.postings) <= 1
                    &&& t.postings.len() == 1 ==> crate::parser::count_elided(t.postings) == 0
                    &&& t.postings.len() >= 1
                },
                _ => true,
            },
{
    if crate::parser::sp_ledger(s) is Ok {
        lemma_items_fold_elision(s, 0, Seq::empty());
    }
}

/// Transactions accumulated by the top-level item fold all satisfy the
/// elided-posting invariant, given that the accumulator's do.
proof fn lemma_items_fold_elision(s: Seq<char>, i: int, acc: Seq<crate::model::SpecLedgerItem>)
    requires
        forall|k: int| 0 <= k < acc.len() ==> match #[trigger] acc[k] {
            crate::model::SpecLedgerItem::Transaction(t) => {
                &&& crate::parser::count_elided(t.postings) <= 1
                &&& t.postings.len() == 1 ==> crate::parser::count_elided(t.postings) == 0
                &&& t.postings.len() >= 1
            },
            _ => true,
        },
    ensures
        crate::parser::sp_items_fold(s, i, acc) matches Ok((items, _)) ==> forall|k: int|
            0 <= k < items.len() ==> match #[trigger] items[k] {
                crate::model::SpecLedgerItem::Transaction(t) => {
                    &&& crate::parser::count_elided(t.postings) <= 1
                    &&& t.postings.len() == 1 ==> crate::parser::count_elided(t.postings) == 0
                    &&& t.postings.len() >= 1
                },
                _ => true,
            },
    decreases s.len() - i,
{
    match crate::parser::sp_item(s, i) {
        Ok((it, j)) => {
            if i < j <= s.len() {
                lemma_parsed_transaction_elision(s, i);
                assert(forall|k: int| 0 <= k < acc.len() ==> acc.push(it)[k] == acc[k]);
                lemma_items_fold_elision(s, j, acc.push(it));
            }
        },
        Err(_) => {},
    }
}

} // verus!

verus! {

/// Zero-padding to a width that covers the value yields exactly that width.
proof fn lemma_pad_width(n: int, w: int)
    requires
        0 <= n,
        1 <= w,
        n < pow10(w as nat),
    ensures
        pad_dec(n, w).len() == w,
        forall|k: int| 0 <= k < w ==> spec_digit(#[trigger] pad_dec(n, w)[k]),
        digits_val(pad_dec(n, w)) == n,
{
    lemma_u_dec_len_le(n, w);
    lemma_pad_dec(n, w);
}

/// **Date round trip under the default pattern**: a valid date rendered
/// with the default transaction date format parses back to the same date,
/// consuming exactly ten characters.
#[verifier::rlimit(100)]
pub proof fn lemma_date_round_trip(s: Seq<char>, i: int, d: crate::dates::Date)
    requires
        d.valid(),
        0 <= i,
        i + 10 <= s.len(),
        s.subrange(i, i + 10) == crate::serializer::fmt_dt(
            crate::serializer::date_at_midnight(d),
            crate::serializer::spec_default_settings().transaction_date_format,
        ),
    ensures
        crate::parser::sp_date(s, i) == Some((Some(d), i + 10)),
{
    reveal_strlit("%Y-%m-%d");
    let pat = "%Y-%m-%d"@;
    let dt = crate::serializer::date_at_midnight(d);
    let y = d.year as int;
    let mo = d.month as int;
    let dd = d.day as int;
    assert(pow10(4) == 10000 && pow10(2) == 100) by {
        reveal_with_fuel(pow10, 5);
    }
    lemma_pad_width(y, 4);
    lemma_pad_width(mo, 2);
    lemma_pad_width(dd, 2);
    let py = pad_dec(y, 4);
    let pm = pad_dec(mo, 2);
    let pd = pad_dec(dd, 2);
    // unfold the pattern: %Y - %m - %d
    assert(pat.len() == 8);
    assert(pat[0] == '%' && pat[1] == 'Y' && pat[2] == '-' && pat[3] == '%' && pat[4] == 'm'
        && pat[5] == '-' && pat[6] == '%' && pat[7] == 'd');
    let p2 = pat.subrange(2, 8);
    let p3 = p2.drop_first();
    let p4 = p3.subrange(2, 5);
    let p5 = p4.drop_first();
    let p6 = p5.subrange(2, 2);
    assert(p6 =~= Seq::<char>::empty());
    let fds = crate::serializer::fmt_dt(dt, pat);
    assert(fds == py + crate::serializer::fmt_dt(dt, p2));
    assert(crate::serializer::fmt_dt(dt, p2) == seq![p2[0]] + crate::serializer::fmt_dt(dt, p3));
    assert(p3.subrange(2, p3.len() as int) =~= p4);
    assert(crate::serializer::fmt_dt(dt, p3) == pm + crate::serializer::fmt_dt(dt, p4));
    assert(crate::serializer::fmt_dt(dt, p4) == seq![p4[0]] + crate::serializer::fmt_dt(dt, p5));
    assert(p5.subrange(2, p5.len() as int) =~= p6);
    assert(crate::serializer::fmt_dt(dt, p5) == pd + crate::serializer::fmt_dt(dt, p6));
    assert(crate::serializer::fmt_dt(dt, p6) =~= Seq::<char>::empty());
    assert(fds =~= py + seq!['-'] + pm + seq!['-'] + pd);
    assert(fds.len() == 10);
    assert forall|k: int| 0 <= k < 10 implies s[i + k] == fds[k] by {
        assert(s.subrange(i, i + 10)[k] == s[i + k]);
    }
    // the three fixed-width numbers and their separators
    let cc = py + seq!['-'] + pm + seq!['-'] + pd;
    assert forall|k: int| 0 <= k < 4 implies s[i + k] == py[k] by {
        assert(cc[k] == py[k]);
    }
    assert(s[i + 4] == '-') by {
        assert(cc[4] == '-');
    }
    assert forall|k: int| 0 <= k < 2 implies s[i + 5 + k] == pm[k] by {
        assert(cc[5 + k] == pm[k]);
    }
    assert(s[i + 7] == '-') by {
        assert(cc[7] == '-');
    }
    assert forall|k: int| 0 <= k < 2 implies s[i + 8 + k] == pd[k] by {
        assert(cc[8 + k] == pd[k]);
    }
    assert(s.subrange(i, i + 4) =~= py);
    assert(s.subrange(i + 5, i + 7) =~= pm);
    assert(s.subrange(i + 8, i + 10) =~= pd);
    assert forall|k: int| i <= k < i + 4 implies spec_digit(#[trigger] s[k]) by {
        assert(s[k] == py[k - i]);
    }
    assert forall|k: int| i + 5 <= k < i + 7 implies spec_digit(#[trigger] s[k]) by {
        assert(s[k] == pm[k - (i + 5)]);
    }
    assert forall|k: int| i + 8 <= k < i + 10 implies spec_digit(#[trigger] s[k]) by {
        assert(s[k] == pd[k - (i + 8)]);
    }
    assert(crate::parser::sp_number_n(s, i, 4) == Some((y, i + 4)));
    assert(crate::parser::sp_number_n(s, i + 5, 2) == Some((mo, i + 7)));
    assert(crate::parser::sp_number_n(s, i + 8, 2) == Some((dd, i + 10)));
    assert(crate::parser::sp_date_syn(s, i) == Some(((y, mo, dd), i + 10)));
    assert(crate::dates::spec_date_valid(y, mo, dd));
    assert(crate::dates::Date { year: y as u32, month: mo as u32, day: dd as u32 } == d);
}

} // verus!

verus! {

/// **Date-time round trip under the default pattern**: a valid date-time
/// rendered with the default commodity date format parses back to the same
/// value, consuming exactly nineteen characters.
#[verifier::rlimit(100)]
pub proof fn lemma_datetime_round_trip(s: Seq<char>, i: int, dt: crate::dates::DateTime)
    requires
        dt.valid(),
        0 <= i,
        i + 19 <= s.len(),
        s.subrange(i, i + 19) == crate::serializer::fmt_dt(
            dt,
            crate::serializer::spec_default_settings().commodity_date_format,
        ),
    ensures
        crate::parser::sp_datetime(s, i) == Some((Some(dt), i + 19)),
{
    reveal_strlit("%Y-%m-%d %H:%M:%S");
    let pat = "%Y-%m-%d %H:%M:%S"@;
    let y = dt.date.year as int;
    let mo = dt.date.month as int;
    let dd = dt.date.day as int;
    let hh = dt.hour as int;
    let mi = dt.minute as int;
    let ss = dt.second as int;
    assert(pow10(4) == 10000 && pow10(2) == 100) by {
        reveal_with_fuel(pow10, 5);
    }
    lemma_pad_width(y, 4);
    lemma_pad_width(mo, 2);
    lemma_pad_width(dd, 2);
    lemma_pad_width(hh, 2);
    lemma_pad_width(mi, 2);
    lemma_pad_width(ss, 2);
    let py = pad_dec(y, 4);
    let pm = pad_dec(mo, 2);
    let pd = pad_dec(dd, 2);
    let ph = pad_dec(hh, 2);
    let pmi = pad_dec(mi, 2);
    let ps = pad_dec(ss, 2);
    assert(pat.len() == 17);
    // unfold the pattern piece by piece
    let r1 = pat.subrange(2, 17);
    let r2 = r1.drop_first();
    let r3 = r2.subrange(2, 14);
    let r4 = r3.drop_first();
    let r5 = r4.subrange(2, 11);
    let r6 = r5.drop_first();
    let r7 = r6.subrange(2, 8);
    let r8 = r7.drop_first();
    let r9 = r8.subrange(2, 5);
    let r10 = r9.drop_first();
    let r11 = r10.subrange(2, 2);
    assert(r11 =~= Seq::<char>::empty());
    let f = |t: Seq<char>| crate::serializer::fmt_dt(dt, t);
    assert(f(pat) == py + f(r1));
    assert(f(r1) == seq![r1[0]] + f(r2));
    assert(r2.subrange(2, r2.len() as int) =~= r3);
    assert(f(r2) == pm + f(r3));
    assert(f(r3) == seq![r3[0]] + f(r4));
    assert(r4.subrange(2, r4.len() as int) =~= r5);
    assert(f(r4) == pd + f(r5));
    assert(f(r5) == seq![r5[0]] + f(r6));
    assert(r6.subrange(2, r6.len() as int) =~= r7);
    assert(f(r6) == ph + f(r7));
    assert(f(r7) == seq![r7[0]] + f(r8));
    assert(r8.subrange(2, r8.len() as int) =~= r9);
    assert(f(r8) == pmi + f(r9));
    assert(f(r9) == seq![r9[0]] + f(r10));
    assert(r10.subrange(2, r10.len() as int) =~= r11);
    assert(f(r10) == ps + f(r11));
    assert(f(r11) =~= Seq::<char>::empty());
    let cc = py + seq!['-'] + pm + seq!['-'] + pd + seq![' '] + ph + seq![':'] + pmi + seq![':']
        + ps;
    assert(f(pat) =~= cc);
    assert(cc.len() == 19);
    assert forall|k: int| 0 <= k < 19 implies s[i + k] == cc[k] by {
        assert(s.subrange(i, i + 19)[k] == s[i + k]);
    }
    assert forall|k: int| i <= k < i + 4 implies spec_digit(#[trigger] s[k]) by {
        assert(cc[k - i] == py[k - i]);
    }
    assert(s[i + 4] == '-') by {
        assert(cc[4] == '-');
    }
    assert forall|k: int| i + 5 <= k < i + 7 implies spec_digit(#[trigger] s[k]) by {
        assert(cc[k - i] == pm[k - (i + 5)]);
    }
    assert(s[i + 7] == '-') by {
        assert(cc[7] == '-');
    }
    assert forall|k: int| i + 8 <= k < i + 10 implies spec_digit(#[trigger] s[k]) by {
        assert(cc[k - i] == pd[k - (i + 8)]);
    }
    assert(s[i + 10] == ' ') by {
        assert(cc[10] == ' ');
    }
    assert forall|k: int| i + 11 <= k < i + 13 implies spec_digit(#[trigger] s[k]) by {
        assert(cc[k - i] == ph[k - (i + 11)]);
    }
    assert(s[i + 13] == ':') by {
        assert(cc[13] == ':');
    }
    assert forall|k: int| i + 14 <= k < i + 16 implies spec_digit(#[trigger] s[k]) by {
        assert(cc[k - i] == pmi[k - (i + 14)]);
    }
    assert(s[i + 16] == ':') by {
        assert(cc[16] == ':');
    }
    assert forall|k: int| i + 17 <= k < i + 19 implies spec_digit(#[trigger] s[k]) by {
        assert(cc[k - i] == ps[k - (i + 17)]);
    }
    assert forall|k: int| 0 <= k < 4 implies s[i + k] == py[k] by {
        assert(cc[k] == py[k]);
    }
    assert forall|k: int| 0 <= k < 2 implies s[i + 5 + k] == pm[k] by {
        assert(cc[5 + k] == pm[k]);
    }
    assert forall|k: int| 0 <= k < 2 implies s[i + 8 + k] == pd[k] by {
        assert(cc[8 + k] == pd[k]);
    }
    assert forall|k: int| 0 <= k < 2 implies s[i + 11 + k] == ph[k] by {
        assert(cc[11 + k] == ph[k]);
    }
    assert forall|k: int| 0 <= k < 2 implies s[i + 14 + k] == pmi[k] by {
        assert(cc[14 + k] == pmi[k]);
    }
    assert forall|k: int| 0 <= k < 2 implies s[i + 17 + k] == ps[k] by {
        assert(cc[17 + k] == ps[k]);
    }
    assert(s.subrange(i, i + 4) =~= py);
    assert(s.subrange(i + 5, i + 7) =~= pm);
    assert(s.subrange(i + 8, i + 10) =~= pd);
    assert(s.subrange(i + 11, i + 13) =~= ph);
    assert(s.subrange(i + 14, i + 16) =~= pmi);
    assert(s.subrange(i + 17, i + 19) =~= ps);
    assert(crate::parser::sp_number_n(s, i, 4) == Some((y, i + 4)));
    assert(crate::parser::sp_number_n(s, i + 5, 2) == Some((mo, i + 7)));
    assert(crate::parser::sp_number_n(s, i + 8, 2) == Some((dd, i + 10)));
    assert(crate::parser::sp_date_syn(s, i) == Some(((y, mo, dd), i + 10)));
    // exactly one space between date and time
    assert(crate::text::spec_space(s[i + 10]));
    assert(!crate::text::spec_space(s[i + 11]));
    lemma_run_end_is(s, i + 10, i + 11, |c: char| crate::text::spec_space(c));
    assert(crate::parser::sp_number_n(s, i + 11, 2) == Some((hh, i + 13)));
    assert(crate::parser::sp_number_n(s, i + 14, 2) == Some((mi, i + 16)));
    assert(crate::parser::sp_number_n(s, i + 17, 2) == Some((ss, i + 19)));
    assert(crate::parser::sp_time_syn(s, i + 11) == Some(((hh, mi, ss), i + 19)));
    assert(crate::dates::spec_date_valid(y, mo, dd));
    assert(crate::dates::DateTime {
        date: crate::dates::Date { year: y as u32, month: mo as u32, day: dd as u32 },
        hour: hh as u32,
        minute: mi as u32,
        second: ss as u32,
    } == dt);
}

} // verus!

verus! {

proof fn lemma_ltrim_len(t: Seq<char>)
    ensures
        crate::parser::ltrim(t).len() <= t.len(),
        t.len() > 0 && crate::parser::ltrim(t) == t ==> !crate::text::spec_space(t[0]),
    decreases t.len(),
{
    if t.len() > 0 && crate::text::spec_space(t[0]) {
        lemma_ltrim_len(t.drop_first());
    }
}

proof fn lemma_rtrim_len(t: Seq<char>)
    ensures
        crate::parser::rtrim(t).len() <= t.len(),
        t.len() > 0 && crate::parser::rtrim(t) == t ==> !crate::text::spec_space(t[t.len() - 1]),
    decreases t.len(),
{
    if t.len() > 0 && crate::text::spec_space(t.last()) {
        lemma_rtrim_len(t.drop_last());
    }
}

/// A rendered empty line parses back as an empty line.
pub proof fn lemma_empty_line_round_trip()
    ensures
        crate::parser::sp_empty_line(
            crate::serializer::ser_item(
                crate::model::SpecLedgerItem::EmptyLine,
                crate::serializer::spec_default_settings(),
            ),
            0,
        ) == Some(1int),
{
    reveal_strlit("\n");
    let s = crate::serializer::ser_item(
        crate::model::SpecLedgerItem::EmptyLine,
        crate::serializer::spec_default_settings(),
    );
    assert(s =~= seq!['\n']);
    lemma_run_end_is(s, 0, 0, |c: char| crate::text::spec_space(c));
}

/// **Line-comment round trip**: a global line comment whose text holds no
/// line ending and no leading or trailing whitespace renders to a line that
/// parses back to the same comment text, consuming the whole line.
#[verifier::rlimit(100)]
pub proof fn lemma_line_comment_round_trip(c: Seq<char>)
    requires
        forall|k: int| 0 <= k < c.len() ==> #[trigger] c[k] != '\r' && c[k] != '\n',
        crate::parser::ltrim(c) == c,
        crate::parser::rtrim(c) == c,
    ensures
        ({
            let s = crate::serializer::ser_item(
                crate::model::SpecLedgerItem::LineComment(c),
                crate::serializer::spec_default_settings(),
            );
            crate::parser::sp_global_comment(s, 0) == Some((c, s.len() as int))
        }),
{
    reveal_strlit("\n");
    let s = crate::serializer::ser_item(
        crate::model::SpecLedgerItem::LineComment(c),
        crate::serializer::spec_default_settings(),
    );
    let n = c.len() as int;
    assert(s =~= seq![';', ' '] + c + seq!['\n']);
    assert(s.len() == n + 3);
    assert(s[0] == ';');
    assert(s[1] == ' ');
    assert forall|k: int| 0 <= k < n implies s[2 + k] == c[k] by {
        assert((seq![';', ' '] + c + seq!['\n'])[2 + k] == c[k]);
    }
    assert(s[n + 2] == '\n');
    let fs = |ch: char| crate::text::spec_space(ch);
    lemma_run_end_is(s, 0, 0, fs);
    lemma_ltrim_len(c);
    lemma_rtrim_len(c);
    if n > 0 {
        assert(!crate::text::spec_space(s[2]));
        lemma_run_end_is(s, 1, 2, fs);
    } else {
        assert(s[1] == ' ' && s[2] == '\n');
        lemma_run_end_is(s, 1, 2, fs);
    }
    let fl = |ch: char| ch != '\r' && ch != '\n';
    assert forall|k: int| 2 <= k < n + 2 implies fl(s[k]) by {
        assert(s[k] == c[k - 2]);
    }
    assert(!fl(s[n + 2]));
    lemma_run_end_is(s, 2, n + 2, fl);
    assert(s.subrange(2, n + 2) =~= c);
    assert(crate::parser::sp_rest_of_line(s, 2) == Some((c, n + 2)));
    assert(crate::parser::sp_eol(s, n + 2) == Some(n + 3));
}

} // verus!

verus! {

/// **Balance round trip**: a rendered balance assertion parses back to the
/// same balance, consuming the whole text; for an amount balance the
/// commodity symbol must be writable in plain form.
pub proof fn lemma_balance_round_trip(b: crate::model::SpecBalance)
    requires
        b.wf(),
        b matches crate::model::SpecBalance::Amount(a) ==> plain_symbol(a.commodity.name),
    ensures
        crate::parser::sp_balance(crate::serializer::ser_balance(b), 0) == Some(
            (b, crate::serializer::ser_balance(b).len() as int),
        ),
{
    let s = crate::serializer::ser_balance(b);
    match b {
        crate::model::SpecBalance::Zero => {
            let z = Decimal { mantissa: 0, scale: 0 };
            assert(z.wf()) by {
                crate::decimal::lemma_pow10_pos(28);
            }
            assert(dec_str(z) =~= seq!['0']) by {
                reveal(crate::serializer::dec_str);
                lemma_u_dec(0);
            }
            assert(s =~= seq!['0']);
            // the commodity-first alternative fails on a digit
            let fc = |c: char| spec_commodity_char(c);
            let fs = |c: char| crate::text::spec_space(c);
            assert(!spec_commodity_char(s[0]) && s[0] != '"' && s[0] != '-');
            lemma_run_end_is(s, 0, 0, fc);
            assert(crate::parser::sp_commodity(s, 0) is None);
            assert(crate::parser::sp_amount_left(s, 0) is None);
            // the quantity parses, but no commodity follows
            assert(s.subrange(0, 1) =~= dec_str(z));
            lemma_quantity_round_trip(s, 0, z);
            lemma_run_end_is(s, 1, 1, fs);
            lemma_run_end_is(s, 1, 1, fc);
            assert(crate::parser::sp_commodity(s, 1) is None);
            assert(crate::parser::sp_amount_right(s, 0) is None);
            assert(crate::parser::sp_amount(s, 0) is None);
        },
        crate::model::SpecBalance::Amount(a) => {
            lemma_amount_round_trip(a);
        },
    }
}

} // verus!


verus! {

/// A character that cannot extend an amount: not part of a plain commodity
/// symbol, not a digit, and not a decimal point or thousands separator.
pub open spec fn amount_boundary(c: char) -> bool {
    !spec_commodity_char(c) && !spec_digit(c) && c != '.' && c != ','
}

/// [`lemma_amount_round_trip`] at an arbitrary position: the rendered
/// amount parses from `i`, consuming exactly its text, whenever the
/// character that follows (if any) cannot extend an amount.
#[verifier::rlimit(100)]
pub proof fn lemma_amount_round_trip_at(s: Seq<char>, i: int, a: SpecAmount)
    requires
        a.wf(),
        plain_symbol(a.commodity.name),
        0 <= i,
        i + crate::serializer::ser_amount(a).len() <= s.len(),
        s.subrange(i, i + crate::serializer::ser_amount(a).len() as int)
            == crate::serializer::ser_amount(a),
        i + crate::serializer::ser_amount(a).len() == s.len() || amount_boundary(
            s[i + crate::serializer::ser_amount(a).len()],
        ),
    ensures
        crate::parser::sp_amount(s, i) == Some(
            (a, i + crate::serializer::ser_amount(a).len() as int),
        ),
{
    let name = a.commodity.name;
    let q = a.quantity;
    let sa = crate::serializer::ser_amount(a);
    let l = sa.len() as int;
    let nl = name.len() as int;
    let dl = dec_str(q).len() as int;
    let fc = |c: char| spec_commodity_char(c);
    let fs = |c: char| crate::text::spec_space(c);
    lemma_dec_str_head(q);
    assert forall|k: int| 0 <= k < l implies s[i + k] == sa[k] by {
        assert(s.subrange(i, i + l)[k] == s[i + k]);
    }
    assert(s[i] == sa[0]) by {
        assert(s.subrange(i, i + l)[0] == s[i]);
    }
    if l >= 2 {
        assert(s[i + 1] == sa[1]) by {
            assert(s.subrange(i, i + l)[1] == s[i + 1]);
        }
    }
    match a.commodity.position {
        crate::model::CommodityPosition::Left => {
            assert(l == nl + dl);
            assert(forall|k: int| 0 <= k < nl ==> sa[k] == name[k]);
            assert(forall|k: int| 0 <= k < dl ==> sa[nl + k] == dec_str(q)[k]);
            assert(spec_commodity_char(s[i]));
            assert(s[i] != '-' && s[i] != '"');
            assert forall|k: int| i <= k < i + nl implies fc(s[k]) by {
                assert(s[k] == sa[k - i]);
            }
            assert(!spec_commodity_char(s[i + nl]));
            lemma_run_end_is(s, i, i + nl, fc);
            assert(crate::parser::sp_commodity(s, i) == Some((s.subrange(i, i + nl), i + nl)));
            assert(s.subrange(i, i + nl) =~= name);
            assert(!crate::text::spec_space(s[i + nl]));
            lemma_run_end_is(s, i + nl, i + nl, fs);
            assert(s.subrange(i + nl, i + nl + dl) =~= dec_str(q));
            lemma_quantity_round_trip(s, i + nl, q);
            assert(crate::parser::sp_amount_left(s, i) == Some((a, i + l)));
        },
        crate::model::CommodityPosition::Right => {
            assert(l == dl + 1 + nl);
            assert(forall|k: int| 0 <= k < dl ==> sa[k] == dec_str(q)[k]);
            assert(sa[dl] == ' ');
            assert(forall|k: int| 0 <= k < nl ==> sa[dl + 1 + k] == name[k]);
            if q.mantissa < 0 {
                assert(s[i] == '-');
                assert(spec_digit(s[i + 1]));
                assert(!crate::text::spec_space(s[i + 1]));
                lemma_run_end_is(s, i + 1, i + 1, fs);
                assert(!spec_commodity_char(s[i + 1]));
                assert(s[i + 1] != '"');
                lemma_run_end_is(s, i + 1, i + 1, fc);
                assert(crate::parser::sp_commodity(s, i + 1) is None);
                assert(crate::parser::sp_amount_left(s, i) is None);
            } else {
                assert(spec_digit(s[i]));
                assert(s[i] != '-');
                assert(!spec_commodity_char(s[i]));
                assert(s[i] != '"');
                lemma_run_end_is(s, i, i, fc);
                assert(crate::parser::sp_commodity(s, i) is None);
                assert(crate::parser::sp_amount_left(s, i) is None);
            }
            assert(s.subrange(i, i + dl) =~= dec_str(q));
            assert(s[i + dl] == ' ' && !spec_digit(s[i + dl]) && s[i + dl] != '.' && s[i + dl]
                != ',');
            lemma_quantity_round_trip(s, i, q);
            assert(crate::text::spec_space(s[i + dl]));
            assert(s[i + dl + 1] == sa[dl + 1]) by {
                assert(s.subrange(i, i + l)[dl + 1] == s[i + dl + 1]);
            }
            assert(sa[dl + 1] == name[0]);
            assert(!crate::text::spec_space(s[i + dl + 1]));
            lemma_run_end_is(s, i + dl, i + dl + 1, fs);
            assert forall|k: int| i + dl + 1 <= k < i + l implies fc(s[k]) by {
                assert(s[k] == sa[k - i]);
            }
            assert(i + l == s.len() || !fc(s[i + l]));
            lemma_run_end_is(s, i + dl + 1, i + l, fc);
            assert(crate::parser::sp_commodity(s, i + dl + 1) == Some(
                (s.subrange(i + dl + 1, i + l), i + l),
            ));
            assert(s.subrange(i + dl + 1, i + l) =~= name);
            assert(crate::parser::sp_amount_right(s, i) == Some((a, i + l)));
        },
    }
}

} // verus!

verus! {

/// The first character of a rendered amount is a symbol character, a digit,
/// or a minus sign — never whitespace or a price/lot delimiter.
proof fn lemma_ser_amount_head(a: SpecAmount)
    requires
        a.wf(),
        plain_symbol(a.commodity.name),
    ensures
        crate::serializer::ser_amount(a).len() >= 1,
        !crate::text::spec_space(crate::serializer::ser_amount(a)[0]),
        crate::serializer::ser_amount(a)[0] != '{',
        crate::serializer::ser_amount(a)[0] != '}',
        crate::serializer::ser_amount(a)[0] != '@',
{
    lemma_dec_str_head(a.quantity);
    match a.commodity.position {
        crate::model::CommodityPosition::Left => {
            assert(crate::serializer::ser_amount(a)[0] == a.commodity.name[0]);
        },
        crate::model::CommodityPosition::Right => {
            assert(crate::serializer::ser_amount(a)[0] == dec_str(a.quantity)[0]);
        },
    }
}

/// A rendered lot price (`{amount}` or `{{amount}}`) parses from the
/// position of its opening brace.
#[verifier::rlimit(100)]
proof fn lemma_lot_at(s: Seq<char>, j: int, lp: crate::model::SpecPrice)
    requires
        lp.wf(),
        (lp matches crate::model::SpecPrice::Unit(x) ==> plain_symbol(x.commodity.name)),
        (lp matches crate::model::SpecPrice::Total(x) ==> plain_symbol(x.commodity.name)),
        0 <= j,
        j + crate::serializer::ser_lot_opt(Some(lp)).len() - 1 <= s.len(),
        s.subrange(j, j + crate::serializer::ser_lot_opt(Some(lp)).len() - 1)
            == crate::serializer::ser_lot_opt(Some(lp)).drop_first(),
    ensures
        crate::parser::sp_lot_price(s, j) == Some(
            (lp, j + crate::serializer::ser_lot_opt(Some(lp)).len() - 1),
        ),
{
    let piece = crate::serializer::ser_lot_opt(Some(lp)).drop_first();
    let n = piece.len() as int;
    let fs = |c: char| crate::text::spec_space(c);
    assert forall|k: int| 0 <= k < n implies s[j + k] == piece[k] by {
        assert(s.subrange(j, j + n)[k] == s[j + k]);
    }
    assert(s[j] == piece[0]) by {
        assert(s.subrange(j, j + n)[0] == s[j]);
    }
    assert(s[j + 1] == piece[1]) by {
        assert(s.subrange(j, j + n)[1] == s[j + 1]);
    }
    assert(s[j + 2] == piece[2]) by {
        assert(s.subrange(j, j + n)[2] == s[j + 2]);
    }
    match lp {
        crate::model::SpecPrice::Unit(x) => {
            let sa = crate::serializer::ser_amount(x);
            let la = sa.len() as int;
            lemma_ser_amount_head(x);
            assert(piece =~= seq!['{'] + sa + seq!['}']);
            assert(s[j] == '{');
            assert(s[j + 1] == sa[0]);
            assert(s[j + 1] != '{');
            assert(!(j + 2 <= s.len() && s[j] == '{' && s[j + 1] == '{'));
            assert(!crate::text::spec_space(s[j + 1]));
            lemma_run_end_is(s, j + 1, j + 1, fs);
            assert forall|k: int| 0 <= k < la implies s[j + 1 + k] == sa[k] by {
                assert(piece[1 + k] == sa[k]);
            }
            assert(s.subrange(j + 1, j + 1 + la) =~= sa);
            assert(s[j + 1 + la] == '}') by {
                assert(s.subrange(j, j + n)[1 + la] == s[j + 1 + la]);
                assert(piece[1 + la] == '}');
            }
            assert(amount_boundary('}'));
            lemma_amount_round_trip_at(s, j + 1, x);
            assert(!crate::text::spec_space(s[j + 1 + la]));
            lemma_run_end_is(s, j + 1 + la, j + 1 + la, fs);
        },
        crate::model::SpecPrice::Total(x) => {
            let sa = crate::serializer::ser_amount(x);
            let la = sa.len() as int;
            lemma_ser_amount_head(x);
            assert(piece =~= seq!['{', '{'] + sa + seq!['}', '}']);
            assert(s[j] == '{');
            assert(s[j + 1] == '{');
            assert(s[j + 2] == sa[0]);
            assert(!crate::text::spec_space(s[j + 2]));
            lemma_run_end_is(s, j + 2, j + 2, fs);
            assert forall|k: int| 0 <= k < la implies s[j + 2 + k] == sa[k] by {
                assert(piece[2 + k] == sa[k]);
            }
            assert(s.subrange(j + 2, j + 2 + la) =~= sa);
            assert(s[j + 2 + la] == '}') by {
                assert(s.subrange(j, j + n)[2 + la] == s[j + 2 + la]);
                assert(piece[2 + la] == '}');
            }
            assert(amount_boundary('}'));
            lemma_amount_round_trip_at(s, j + 2, x);
            assert(!crate::text::spec_space(s[j + 2 + la]));
            lemma_run_end_is(s, j + 2 + la, j + 2 + la, fs);
            assert(s[j + 2 + la + 1] == '}') by {
                assert(s.subrange(j, j + n)[2 + la + 1] == s[j + 2 + la + 1]);
                assert(piece[2 + la + 1] == '}');
            }
        },
    }
}

/// A rendered price (`@ amount` or `@@ amount`) parses from the position of
/// its `@` sign, consuming to the end of the input.
#[verifier::rlimit(100)]
proof fn lemma_price_at(s: Seq<char>, j: int, pr: crate::model::SpecPrice)
    requires
        pr.wf(),
        (pr matches crate::model::SpecPrice::Unit(x) ==> plain_symbol(x.commodity.name)),
        (pr matches crate::model::SpecPrice::Total(x) ==> plain_symbol(x.commodity.name)),
        0 <= j,
        j + crate::serializer::ser_price_opt(Some(pr)).len() - 1 == s.len(),
        s.subrange(j, s.len() as int) == crate::serializer::ser_price_opt(Some(pr)).drop_first(),
    ensures
        crate::parser::sp_price(s, j) == Some((pr, s.len() as int)),
{
    let piece = crate::serializer::ser_price_opt(Some(pr)).drop_first();
    let n = piece.len() as int;
    let fs = |c: char| crate::text::spec_space(c);
    assert forall|k: int| 0 <= k < n implies s[j + k] == piece[k] by {
        assert(s.subrange(j, j + n)[k] == s[j + k]);
    }
    assert(s[j] == piece[0]) by {
        assert(s.subrange(j, j + n)[0] == s[j]);
    }
    assert(s[j + 1] == piece[1]) by {
        assert(s.subrange(j, j + n)[1] == s[j + 1]);
    }
    assert(s[j + 2] == piece[2]) by {
        assert(s.subrange(j, j + n)[2] == s[j + 2]);
    }
    if n >= 4 {
        assert(s[j + 3] == piece[3]) by {
            assert(s.subrange(j, j + n)[3] == s[j + 3]);
        }
    }
    match pr {
        crate::model::SpecPrice::Unit(x) => {
            let sa = crate::serializer::ser_amount(x);
            let la = sa.len() as int;
            lemma_ser_amount_head(x);
            assert(piece =~= seq!['@', ' '] + sa);
            assert(s[j] == '@');
            assert(s[j + 1] == ' ');
            assert(s[j + 1] != '@');
            assert(s[j + 2] == sa[0]);
            assert(!crate::text::spec_space(s[j + 2]));
            assert(crate::text::spec_space(s[j + 1]));
            lemma_run_end_is(s, j + 1, j + 2, fs);
            assert forall|k: int| 0 <= k < la implies s[j + 2 + k] == sa[k] by {
                assert(piece[2 + k] == sa[k]);
            }
            assert(s.subrange(j + 2, j + 2 + la) =~= sa);
            lemma_amount_round_trip_at(s, j + 2, x);
        },
        crate::model::SpecPrice::Total(x) => {
            let sa = crate::serializer::ser_amount(x);
            let la = sa.len() as int;
            lemma_ser_amount_head(x);
            assert(piece =~= seq!['@', '@', ' '] + sa);
            assert(s[j] == '@');
            assert(s[j + 1] == '@');
            assert(s[j + 2] == ' ');
            assert(s[j + 3] == sa[0]);
            assert(!crate::text::spec_space(s[j + 3]));
            assert(crate::text::spec_space(s[j + 2]));
            lemma_run_end_is(s, j + 2, j + 3, fs);
            assert forall|k: int| 0 <= k < la implies s[j + 3 + k] == sa[k] by {
                assert(piece[3 + k] == sa[k]);
            }
            assert(s.subrange(j + 3, j + 3 + la) =~= sa);
            lemma_amount_round_trip_at(s, j + 3, x);
        },
    }
}

} // verus!

verus! {

/// All symbols held by a posting amount are writable in plain form.
pub open spec fn pa_plain(pa: crate::model::SpecPostingAmount) -> bool {
    &&& plain_symbol(pa.amount.commodity.name)
    &&& match pa.lot_price {
        Some(crate::model::SpecPrice::Unit(x)) => plain_symbol(x.commodity.name),
        Some(crate::model::SpecPrice::Total(x)) => plain_symbol(x.commodity.name),
        None => true,
    }
    &&& match pa.price {
        Some(crate::model::SpecPrice::Unit(x)) => plain_symbol(x.commodity.name),
        Some(crate::model::SpecPrice::Total(x)) => plain_symbol(x.commodity.name),
        None => true,
    }
}

/// The price stage of a posting amount: after position `jl`, either the
/// rendered price annotation follows to the end of the text, or `jl` is the
/// end.  In either case the parser's price step yields the price.
#[verifier::rlimit(100)]
proof fn lemma_pa_price_stage(s: Seq<char>, jl: int, pr: Option<crate::model::SpecPrice>)
    requires
        0 <= jl <= s.len(),
        match pr {
            Some(p) => {
                &&& p.wf()
                &&& (p matches crate::model::SpecPrice::Unit(x) ==> plain_symbol(
                    x.commodity.name,
                ))
                &&& (p matches crate::model::SpecPrice::Total(x) ==> plain_symbol(
                    x.commodity.name,
                ))
                &&& jl + crate::serializer::ser_price_opt(pr).len() == s.len()
                &&& s.subrange(jl, s.len() as int) == crate::serializer::ser_price_opt(pr)
            },
            None => jl == s.len(),
        },
    ensures
        ({
            let p1 = run_end(s, jl, |c: char| crate::text::spec_space(c));
            match pr {
                Some(p) => crate::parser::sp_price(s, p1) == Some((p, s.len() as int)),
                None => crate::parser::sp_price(s, p1) is None,
            }
        }),
{
    let fs = |c: char| crate::text::spec_space(c);
    match pr {
        Some(p) => {
            let pc = crate::serializer::ser_price_opt(pr);
            let lp = pc.len() as int;
            let n = s.len() as int;
            assert forall|k: int| 0 <= k < lp implies s[jl + k] == pc[k] by {
                assert(s.subrange(jl, n)[k] == s[jl + k]);
            }
            assert(s[jl] == pc[0]) by {
                assert(s.subrange(jl, n)[0] == s[jl]);
            }
            assert(s[jl + 1] == pc[1]) by {
                assert(s.subrange(jl, n)[1] == s[jl + 1]);
            }
            match p {
                crate::model::SpecPrice::Unit(x) => {
                    lemma_ser_amount_head(x);
                    assert(pc =~= seq![' ', '@', ' '] + crate::serializer::ser_amount(x));
                    assert(s[jl] == ' ');
                    assert(s[jl + 1] == '@');
                },
                crate::model::SpecPrice::Total(x) => {
                    lemma_ser_amount_head(x);
                    assert(pc =~= seq![' ', '@', '@', ' '] + crate::serializer::ser_amount(x));
                    assert(s[jl] == ' ');
                    assert(s[jl + 1] == '@');
                },
            }
            assert(crate::text::spec_space(s[jl]));
            assert(!crate::text::spec_space(s[jl + 1]));
            lemma_run_end_is(s, jl, jl + 1, fs);
            assert forall|k: int| 0 <= k < lp - 1 implies s.subrange(jl + 1, n)[k]
                == pc.drop_first()[k] by {
                assert(s[jl + 1 + k] == pc[1 + k]);
            }
            assert(s.subrange(jl + 1, n) =~= pc.drop_first());
            lemma_price_at(s, jl + 1, p);
        },
        None => {
            lemma_run_end_is(s, jl, jl, fs);
        },
    }
}

/// **Posting-amount round trip**: a posting amount with any combination of
/// lot-price and price annotations renders and parses back to itself,
/// consuming the whole text, when its symbols are writable in plain form.
#[verifier::rlimit(100)]
#[verifier::spinoff_prover]
pub proof fn lemma_posting_amount_round_trip(pa: crate::model::SpecPostingAmount)
    requires
        pa.wf(),
        pa_plain(pa),
    ensures
        crate::parser::sp_posting_amount(crate::serializer::ser_posting_amount(pa), 0) == Some(
            (pa, crate::serializer::ser_posting_amount(pa).len() as int),
        ),
{
    let s = crate::serializer::ser_posting_amount(pa);
    let sa = crate::serializer::ser_amount(pa.amount);
    let lt = crate::serializer::ser_lot_opt(pa.lot_price);
    let pc = crate::serializer::ser_price_opt(pa.price);
    let la = sa.len() as int;
    let ll = lt.len() as int;
    let lp = pc.len() as int;
    let n = s.len() as int;
    let fs = |c: char| crate::text::spec_space(c);
    assert(s == sa + lt + pc);
    assert(n == la + ll + lp);
    // the leading space of each annotation is an amount boundary
    if ll > 0 {
        assert(lt[0] == ' ');
        assert(s[la] == ' ');
    } else if lp > 0 {
        assert(pc[0] == ' ');
        assert(s[la] == ' ');
    }
    assert(amount_boundary(' '));
    assert(s.subrange(0, la) =~= sa);
    lemma_amount_round_trip_at(s, 0, pa.amount);
    // the lot price, when present, follows one space
    let jl: int = match pa.lot_price {
        Some(l) => {
            assert(ll >= 2);
            assert(s[la] == ' ');
            assert(s[la + 1] == lt[1]);
            match l {
                crate::model::SpecPrice::Unit(x) => {
                    lemma_ser_amount_head(x);
                    assert(lt =~= seq![' ', '{'] + crate::serializer::ser_amount(x) + seq!['}']);
                    assert(s[la + 1] == '{');
                },
                crate::model::SpecPrice::Total(x) => {
                    lemma_ser_amount_head(x);
                    assert(lt =~= seq![' ', '{', '{'] + crate::serializer::ser_amount(x) + seq![
                        '}',
                        '}',
                    ]);
                    assert(s[la + 1] == '{');
                },
            }
            assert(!crate::text::spec_space(s[la + 1]));
            assert(crate::text::spec_space(s[la]));
            lemma_run_end_is(s, la, la + 1, fs);
            assert forall|k: int| 0 <= k < ll - 1 implies s.subrange(la + 1, la + ll)[k]
                == lt.drop_first()[k] by {
                assert(s[la + 1 + k] == lt[1 + k]);
            }
            assert(s.subrange(la + 1, la + ll) =~= lt.drop_first());
            lemma_lot_at(s, la + 1, l);
            assert(crate::parser::sp_lot_price(s, la + 1) == Some((l, la + ll)));
            la + ll
        },
        None => {
            assert(ll == 0);
            if lp > 0 {
                assert(s[la] == ' ');
                assert(s[la + 1] == pc[1]);
                match pa.price {
                    Some(crate::model::SpecPrice::Unit(x)) => {
                        assert(pc =~= seq![' ', '@', ' '] + crate::serializer::ser_amount(x));
                        assert(s[la + 1] == '@');
                    },
                    Some(crate::model::SpecPrice::Total(x)) => {
                        assert(pc =~= seq![' ', '@', '@', ' '] + crate::serializer::ser_amount(x));
                        assert(s[la + 1] == '@');
                    },
                    None => {},
                }
                assert(!crate::text::spec_space(s[la + 1]));
                lemma_run_end_is(s, la, la + 1, fs);
                assert(s[la + 1] != '{');
                assert(crate::parser::sp_lot_price(s, la + 1) is None);
            } else {
                assert(la == n);
                lemma_run_end_is(s, la, la, fs);
                assert(crate::parser::sp_lot_price(s, la) is None);
            }
            la
        },
    };
    // the price stage from the lot's end
    assert forall|k: int| 0 <= k < lp implies s.subrange(jl, n)[k]
        == crate::serializer::ser_price_opt(pa.price)[k] by {
        assert(s.subrange(jl, n)[k] == s[jl + k]);
        assert(s[jl + k] == pc[k]);
    }
    assert(s.subrange(jl, n) =~= crate::serializer::ser_price_opt(pa.price));
    lemma_pa_price_stage(s, jl, pa.price);
}

} // verus!
