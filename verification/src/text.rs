//! Character classes, character runs, and decimal-digit arithmetic over
//! character sequences, shared by the parser and the serializer.

use vstd::prelude::*;

verus! {

// --- Character classes --------------------------------------------------

pub open spec fn spec_digit(c: char) -> bool {
    48 <= c as u32 <= 57
}

pub open spec fn spec_space(c: char) -> bool {
    c == ' ' || c == '\t'
}

/// Characters that may appear in an unquoted commodity symbol: everything
/// except digits, structural brackets, punctuation reserved for prices and
/// lots, whitespace, and the comment mark.
pub open spec fn spec_commodity_char(c: char) -> bool {
    !spec_digit(c) && c != '{' && c != '}' && c != '[' && c != ']' && c != '(' && c != ')' && c
        != '~' && c != '`' && c != '!' && c != '@' && c != '#' && c != '%' && c != '^' && c != '&'
        && c != '*' && c != '-' && c != '=' && c != '+' && c != '\\' && c != '\'' && c != '"' && c
        != ',' && c != '.' && c != '/' && c != '?' && c != ' ' && c != ';' && c != '\t' && c != '\r'
        && c != '\n'
}

pub open spec fn spec_alnum(c: char) -> bool {
    spec_digit(c) || (65 <= c as u32 <= 90) || (97 <= c as u32 <= 122)
}

pub fn is_digit_char(c: char) -> (r: bool)
    ensures
        r == spec_digit(c),
{
    let u = c as u32;
    48 <= u && u <= 57
}

pub fn is_space_char(c: char) -> (r: bool)
    ensures
        r == spec_space(c),
{
    c == ' ' || c == '\t'
}

/// Whether `c` may appear in an unquoted commodity symbol.
pub fn is_commodity_char(c: char) -> (r: bool)
    ensures
        r == spec_commodity_char(c),
{
    !(is_digit_char(c) || c == '{' || c == '}' || c == '[' || c == ']' || c == '(' || c == ')' || c
        == '~' || c == '`' || c == '!' || c == '@' || c == '#' || c == '%' || c == '^' || c == '&'
        || c == '*' || c == '-' || c == '=' || c == '+' || c == '\\' || c == '\'' || c == '"' || c
        == ',' || c == '.' || c == '/' || c == '?' || c == ' ' || c == ';' || c == '\t' || c == '\r'
        || c == '\n')
}

pub fn is_alnum_char(c: char) -> (r: bool)
    ensures
        r == spec_alnum(c),
{
    let u = c as u32;
    (48 <= u && u <= 57) || (65 <= u && u <= 90) || (97 <= u && u <= 122)
}

// --- Character runs -----------------------------------------------------

/// The first position at or after `i` whose character does not satisfy `f`
/// (or the end of the sequence).
pub open spec fn run_end(s: Seq<char>, i: int, f: spec_fn(char) -> bool) -> int
    decreases s.len() - i,
{
    if 0 <= i < s.len() && f(s[i]) {
        run_end(s, i + 1, f)
    } else {
        i
    }
}

pub proof fn lemma_run_end(s: Seq<char>, i: int, f: spec_fn(char) -> bool)
    requires
        0 <= i <= s.len(),
    ensures
        i <= run_end(s, i, f) <= s.len(),
        forall|k: int| i <= k < run_end(s, i, f) ==> f(s[k]),
        run_end(s, i, f) == s.len() || !f(s[run_end(s, i, f)]),
    decreases s.len() - i,
{
    if i < s.len() && f(s[i]) {
        lemma_run_end(s, i + 1, f);
    }
}

pub proof fn lemma_run_end_step(s: Seq<char>, i: int, j: int, f: spec_fn(char) -> bool)
    requires
        0 <= i <= j < s.len(),
        forall|k: int| i <= k < j ==> f(s[k]),
        f(s[j]),
    ensures
        run_end(s, i, f) == run_end(s, j + 1, f),
    decreases j - i,
{
    if i < j {
        lemma_run_end_step(s, i + 1, j, f);
    }
}

/// If every character in `[i, j)` satisfies `f` and `j` is the end or fails
/// `f`, then the run from `i` ends exactly at `j`.
pub proof fn lemma_run_end_is(s: Seq<char>, i: int, j: int, f: spec_fn(char) -> bool)
    requires
        0 <= i <= j <= s.len(),
        forall|k: int| i <= k < j ==> f(s[k]),
        j == s.len() || !f(s[j]),
    ensures
        run_end(s, i, f) == j,
    decreases j - i,
{
    if i < j {
        lemma_run_end_is(s, i + 1, j, f);
    }
}

pub fn digit_run_end(s: &Vec<char>, i: usize) -> (r: usize)
    requires
        i <= s.len(),
    ensures
        r == run_end(s@, i as int, |c: char| spec_digit(c)),
        i <= r <= s.len(),
{
    let ghost f = |c: char| spec_digit(c);
    let mut j = i;
    while j < s.len() && is_digit_char(s[j])
        invariant
            i <= j <= s.len(),
            f == (|c: char| spec_digit(c)),
            run_end(s@, i as int, f) == run_end(s@, j as int, f),
        decreases s.len() - j,
    {
        proof {
            lemma_run_end_step(s@, j as int, j as int, f);
        }
        j = j + 1;
    }
    j
}

pub fn space_run_end(s: &Vec<char>, i: usize) -> (r: usize)
    requires
        i <= s.len(),
    ensures
        r == run_end(s@, i as int, |c: char| spec_space(c)),
        i <= r <= s.len(),
{
    let ghost f = |c: char| spec_space(c);
    let mut j = i;
    while j < s.len() && is_space_char(s[j])
        invariant
            i <= j <= s.len(),
            f == (|c: char| spec_space(c)),
            run_end(s@, i as int, f) == run_end(s@, j as int, f),
        decreases s.len() - j,
    {
        proof {
            lemma_run_end_step(s@, j as int, j as int, f);
        }
        j = j + 1;
    }
    j
}

pub fn commodity_run_end(s: &Vec<char>, i: usize) -> (r: usize)
    requires
        i <= s.len(),
    ensures
        r == run_end(s@, i as int, |c: char| spec_commodity_char(c)),
        i <= r <= s.len(),
{
    let ghost f = |c: char| spec_commodity_char(c);
    let mut j = i;
    while j < s.len() && is_commodity_char(s[j])
        invariant
            i <= j <= s.len(),
            f == (|c: char| spec_commodity_char(c)),
            run_end(s@, i as int, f) == run_end(s@, j as int, f),
        decreases s.len() - j,
    {
        proof {
            lemma_run_end_step(s@, j as int, j as int, f);
        }
        j = j + 1;
    }
    j
}

pub fn alnum_run_end(s: &Vec<char>, i: usize) -> (r: usize)
    requires
        i <= s.len(),
    ensures
        r == run_end(s@, i as int, |c: char| spec_alnum(c)),
        i <= r <= s.len(),
{
    let ghost f = |c: char| spec_alnum(c);
    let mut j = i;
    while j < s.len() && is_alnum_char(s[j])
        invariant
            i <= j <= s.len(),
            f == (|c: char| spec_alnum(c)),
            run_end(s@, i as int, f) == run_end(s@, j as int, f),
        decreases s.len() - j,
    {
        proof {
            lemma_run_end_step(s@, j as int, j as int, f);
        }
        j = j + 1;
    }
    j
}

/// The first position at or after `i` holding `'\r'` or `'\n'` (or the end).
pub fn line_run_end(s: &Vec<char>, i: usize) -> (r: usize)
    requires
        i <= s.len(),
    ensures
        r == run_end(s@, i as int, |c: char| c != '\r' && c != '\n'),
        i <= r <= s.len(),
{
    let ghost f = |c: char| c != '\r' && c != '\n';
    let mut j = i;
    while j < s.len() && s[j] != '\r' && s[j] != '\n'
        invariant
            i <= j <= s.len(),
            f == (|c: char| c != '\r' && c != '\n'),
            run_end(s@, i as int, f) == run_end(s@, j as int, f),
        decreases s.len() - j,
    {
        proof {
            lemma_run_end_step(s@, j as int, j as int, f);
        }
        j = j + 1;
    }
    j
}

// --- Decimal digit strings ----------------------------------------------

/// The digit character for a value below ten.
pub open spec fn spec_dchar(n: int) -> char {
    if n == 0 {
        '0'
    } else if n == 1 {
        '1'
    } else if n == 2 {
        '2'
    } else if n == 3 {
        '3'
    } else if n == 4 {
        '4'
    } else if n == 5 {
        '5'
    } else if n == 6 {
        '6'
    } else if n == 7 {
        '7'
    } else if n == 8 {
        '8'
    } else {
        '9'
    }
}

/// The numeric value of a digit character.
pub open spec fn spec_dval(c: char) -> int {
    c as u32 - 48
}

/// The value of a digit string, most significant digit first.
pub open spec fn digits_val(s: Seq<char>) -> int
    decreases s.len(),
{
    if s.len() == 0 {
        0
    } else {
        digits_val(s.drop_last()) * 10 + spec_dval(s.last())
    }
}

/// The shortest decimal digit string for a nonnegative value.
pub open spec fn u_dec(n: int) -> Seq<char>
    decreases n,
{
    if n <= 9 {
        seq![spec_dchar(if n < 0 { 0 } else { n })]
    } else {
        u_dec(n / 10).push(spec_dchar(n % 10))
    }
}

/// `u_dec(n)` left-padded with zeros to at least `w` characters.
pub open spec fn pad_dec(n: int, w: int) -> Seq<char> {
    if u_dec(n).len() >= w {
        u_dec(n)
    } else {
        Seq::new((w - u_dec(n).len()) as nat, |k: int| '0') + u_dec(n)
    }
}

pub proof fn lemma_digits_val_bounds(s: Seq<char>)
    requires
        forall|k: int| 0 <= k < s.len() ==> spec_digit(#[trigger] s[k]),
    ensures
        digits_val(s) >= 0,
    decreases s.len(),
{
    if s.len() > 0 {
        lemma_digits_val_bounds(s.drop_last());
    }
}

/// Appending digits multiplies the value by a power of ten and adds the
/// appended digits' value.
pub proof fn lemma_digits_val_append(a: Seq<char>, b: Seq<char>)
    ensures
        digits_val(a + b) == digits_val(a) * crate::decimal::pow10(b.len()) + digits_val(b),
    decreases b.len(),
{
    if b.len() == 0 {
        assert(a + b =~= a);
        assert(digits_val(a) * 1 == digits_val(a)) by (nonlinear_arith);
    } else {
        lemma_digits_val_append(a, b.drop_last());
        assert((a + b).drop_last() =~= a + b.drop_last());
        assert((a + b).last() == b.last());
        let p = crate::decimal::pow10((b.len() - 1) as nat);
        let va = digits_val(a);
        let vb = digits_val(b.drop_last());
        let d = spec_dval(b.last());
        assert(digits_val(a + b) == (va * p + vb) * 10 + d);
        assert(crate::decimal::pow10(b.len()) == 10 * p);
        assert((va * p + vb) * 10 + d == va * (10 * p) + (vb * 10 + d)) by (nonlinear_arith);
    }
}

/// A digit string's value only grows when digits are appended.
pub proof fn lemma_digits_val_extend(a: Seq<char>, b: Seq<char>)
    requires
        forall|k: int| 0 <= k < a.len() ==> spec_digit(#[trigger] a[k]),
        forall|k: int| 0 <= k < b.len() ==> spec_digit(#[trigger] b[k]),
    ensures
        digits_val(a + b) >= digits_val(a),
{
    lemma_digits_val_append(a, b);
    lemma_digits_val_bounds(a);
    lemma_digits_val_bounds(b);
    crate::decimal::lemma_pow10_pos(b.len());
    let p = crate::decimal::pow10(b.len());
    let va = digits_val(a);
    assert(va * p >= va) by (nonlinear_arith)
        requires
            p >= 1 && va >= 0,
    ;
}

/// A digit string's value is below `10^len`.
pub proof fn lemma_digits_val_upper(s: Seq<char>)
    requires
        forall|k: int| 0 <= k < s.len() ==> spec_digit(#[trigger] s[k]),
    ensures
        digits_val(s) < crate::decimal::pow10(s.len()),
    decreases s.len(),
{
    if s.len() > 0 {
        lemma_digits_val_upper(s.drop_last());
        lemma_digits_val_bounds(s.drop_last());
        let v = digits_val(s.drop_last());
        let p = crate::decimal::pow10((s.len() - 1) as nat);
        assert(spec_dval(s.last()) <= 9);
        assert(v <= p - 1);
        assert(v * 10 <= (p - 1) * 10) by (nonlinear_arith)
            requires
                v <= p - 1,
        ;
        assert(crate::decimal::pow10(s.len()) == 10 * p);
    }
}

pub proof fn lemma_u_dec(n: int)
    requires
        n >= 0,
    ensures
        u_dec(n).len() >= 1,
        forall|k: int| 0 <= k < u_dec(n).len() ==> spec_digit(#[trigger] u_dec(n)[k]),
        digits_val(u_dec(n)) == n,
        u_dec(n)[0] != '0' || n == 0,
    decreases n,
{
    if n <= 9 {
        assert('0' as u32 == 48);
        assert(u_dec(n).len() == 1);
        assert(u_dec(n).last() == spec_dchar(n));
        assert(u_dec(n).drop_last() =~= Seq::<char>::empty());
        assert(digits_val(u_dec(n).drop_last()) == 0);
        assert(digits_val(u_dec(n)) == 0 * 10 + spec_dval(spec_dchar(n)));
    } else {
        lemma_u_dec(n / 10);
        assert(u_dec(n).drop_last() =~= u_dec(n / 10));
        assert(u_dec(n).last() == spec_dchar(n % 10));
        assert(spec_dval(spec_dchar(n % 10)) == n % 10);
        assert(u_dec(n)[0] == u_dec(n / 10)[0]);
    }
}

/// A value below `10^w` needs at most `w` digits (for positive `w`).
pub proof fn lemma_u_dec_len_le(n: int, w: int)
    requires
        0 <= n,
        1 <= w,
        n < crate::decimal::pow10(w as nat),
    ensures
        u_dec(n).len() <= w,
    decreases w,
{
    if n <= 9 {
    } else {
        assert(crate::decimal::pow10(w as nat) == 10 * crate::decimal::pow10((w - 1) as nat));
        assert(n / 10 < crate::decimal::pow10((w - 1) as nat)) by (nonlinear_arith)
            requires
                n < 10 * crate::decimal::pow10((w - 1) as nat) && n > 9,
        ;
        assert(w >= 2) by {
            crate::decimal::lemma_pow10_mono(1, w as nat);
            if w == 1 {
                reveal_with_fuel(crate::decimal::pow10, 2);
            }
        }
        lemma_u_dec_len_le(n / 10, w - 1);
    }
}

pub proof fn lemma_pad_dec(n: int, w: int)
    requires
        n >= 0,
    ensures
        pad_dec(n, w).len() >= w,
        pad_dec(n, w).len() >= 1,
        forall|k: int| 0 <= k < pad_dec(n, w).len() ==> spec_digit(#[trigger] pad_dec(n, w)[k]),
        digits_val(pad_dec(n, w)) == n,
{
    lemma_u_dec(n);
    if u_dec(n).len() < w {
        let z = Seq::new((w - u_dec(n).len()) as nat, |k: int| '0');
        lemma_digits_val_zeros(z);
        lemma_digits_val_append(z, u_dec(n));
        crate::decimal::lemma_pow10_pos(u_dec(n).len());
    }
}

proof fn lemma_digits_val_zeros(z: Seq<char>)
    requires
        forall|k: int| 0 <= k < z.len() ==> #[trigger] z[k] == '0',
    ensures
        digits_val(z) == 0,
    decreases z.len(),
{
    if z.len() > 0 {
        lemma_digits_val_zeros(z.drop_last());
    }
}

/// Append the decimal digits of `n` to `out`.
pub fn push_u_dec(out: &mut Vec<char>, n: u128)
    ensures
        final(out)@ == old(out)@ + u_dec(n as int),
    decreases n,
{
    if n <= 9 {
        let c: char = match n {
            0 => '0',
            1 => '1',
            2 => '2',
            3 => '3',
            4 => '4',
            5 => '5',
            6 => '6',
            7 => '7',
            8 => '8',
            _ => '9',
        };
        out.push(c);
        assert(out@ =~= old(out)@ + u_dec(n as int));
    } else {
        push_u_dec(out, n / 10);
        let d = n % 10;
        let c: char = match d {
            0 => '0',
            1 => '1',
            2 => '2',
            3 => '3',
            4 => '4',
            5 => '5',
            6 => '6',
            7 => '7',
            8 => '8',
            _ => '9',
        };
        out.push(c);
        assert(out@ =~= old(out)@ + u_dec(n as int));
    }
}

/// Append the decimal digits of `n`, zero-padded to at least `w` characters.
pub fn push_pad_dec(out: &mut Vec<char>, n: u128, w: u32)
    ensures
        final(out)@ == old(out)@ + pad_dec(n as int, w as int),
{
    let mut digits: Vec<char> = Vec::new();
    push_u_dec(&mut digits, n);
    proof {
        lemma_u_dec(n as int);
    }
    if digits.len() < w as usize {
        let pad = w as usize - digits.len();
        let mut k: usize = 0;
        while k < pad
            invariant
                k <= pad,
                pad == w - u_dec(n as int).len(),
                out@ == old(out)@ + Seq::new(k as nat, |j: int| '0'),
            decreases pad - k,
        {
            out.push('0');
            proof {
                assert(out@ =~= old(out)@ + Seq::new((k + 1) as nat, |j: int| '0'));
            }
            k = k + 1;
        }
    }
    let mut m: usize = 0;
    let ghost mid = out@;
    while m < digits.len()
        invariant
            m <= digits.len(),
            digits@ == u_dec(n as int),
            out@ == mid + digits@.subrange(0, m as int),
        decreases digits.len() - m,
    {
        out.push(digits[m]);
        proof {
            assert(out@ =~= mid + digits@.subrange(0, (m + 1) as int));
        }
        m = m + 1;
    }
    proof {
        assert(digits@.subrange(0, digits@.len() as int) =~= digits@);
        if u_dec(n as int).len() < w {
            assert(out@ =~= old(out)@ + pad_dec(n as int, w as int));
        } else {
            assert(out@ =~= old(out)@ + pad_dec(n as int, w as int));
        }
    }
}

/// Append `s[a..b]` to `out`.
pub fn push_range(out: &mut Vec<char>, s: &Vec<char>, a: usize, b: usize)
    requires
        a <= b <= s.len(),
    ensures
        final(out)@ == old(out)@ + s@.subrange(a as int, b as int),
{
    let mut k = a;
    while k < b
        invariant
            a <= k <= b <= s.len(),
            out@ == old(out)@ + s@.subrange(a as int, k as int),
        decreases b - k,
    {
        out.push(s[k]);
        proof {
            assert(out@ =~= old(out)@ + s@.subrange(a as int, (k + 1) as int));
        }
        k = k + 1;
    }
    proof {
        assert(out@ =~= old(out)@ + s@.subrange(a as int, b as int));
    }
}

// --- String conversion ---------------------------------------------------

use vstd::string::StrSliceExecFns;

/// The characters of `s`, in order.
pub fn to_chars(s: &str) -> (v: Vec<char>)
    ensures
        v@ == s@,
{
    let n = s.unicode_len();
    let mut v: Vec<char> = Vec::new();
    let mut i: usize = 0;
    while i < n
        invariant
            i <= n,
            n == s@.len(),
            v@ =~= s@.subrange(0, i as int),
        decreases n - i,
    {
        v.push(s.get_char(i));
        proof {
            assert(v@ =~= s@.subrange(0, (i + 1) as int));
        }
        i = i + 1;
    }
    proof {
        assert(s@.subrange(0, s@.len() as int) =~= s@);
    }
    v
}

/// Relies on `String`'s `FromIterator<char>`: collecting characters yields
/// the string of exactly those characters in order.
#[verifier::external_body]
pub fn chars_to_string(v: &Vec<char>) -> (s: String)
    ensures
        s@ == v@,
{
    v.iter().collect()
}

} // verus!
