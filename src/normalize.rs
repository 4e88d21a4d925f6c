//! Display symbols and canonical decimal strings.
use vstd::prelude::*;

verus! {

/// The display symbol `BASE/QUOTE-PRODUCT`.
pub open spec fn display_symbol(base: Seq<char>, quote: Seq<char>, product: Seq<char>) -> Seq<char> {
    base + seq!['/'] + quote + seq!['-'] + product
}

/// Composes the display symbol of a pair and a product label.
pub fn format_symbol(base_sym: &str, quote_sym: &str, prod_type: &str) -> (r: String)
    ensures
        r@ == display_symbol(base_sym@, quote_sym@, prod_type@),
{
    let mut out = String::from_str(base_sym);
    out.append("/");
    out.append(quote_sym);
    out.append("-");
    out.append(prod_type);
    proof {
        reveal_strlit("/");
        reveal_strlit("-");
    }
    out
}


pub open spec fn is_digit(c: char) -> bool {
    '0' <= c <= '9'
}

pub open spec fn all_digits(d: Seq<char>) -> bool {
    forall|i: int| 0 <= i < d.len() ==> is_digit(#[trigger] d[i])
}

/// Length of the optional leading sign.
pub open spec fn sign_len(s: Seq<char>) -> int {
    if s.len() > 0 && (s[0] == '+' || s[0] == '-') {
        1
    } else {
        0
    }
}

pub open spec fn is_negative(s: Seq<char>) -> bool {
    s.len() > 0 && s[0] == '-'
}

/// The text after the optional sign.
pub open spec fn unsigned_part(s: Seq<char>) -> Seq<char> {
    s.skip(sign_len(s))
}

/// `b` is integer digits up to `p`, then optionally a point and fraction
/// digits, with at least one digit in all.
pub open spec fn splits_at(b: Seq<char>, p: int) -> bool {
    &&& 0 <= p <= b.len()
    &&& all_digits(b.take(p))
    &&& (p == b.len() || (b[p] == '.' && all_digits(b.skip(p + 1))))
    &&& (if p < b.len() { b.len() > 1 } else { b.len() > 0 })
}

/// Plain decimal notation: a sign, digits, an optional point and digits.
pub open spec fn is_plain_decimal(s: Seq<char>) -> bool {
    exists|p: int| splits_at(unsigned_part(s), p)
}

pub open spec fn trim_leading_zeros(d: Seq<char>) -> Seq<char>
    decreases d.len(),
{
    if d.len() > 0 && d[0] == '0' {
        trim_leading_zeros(d.drop_first())
    } else {
        d
    }
}

pub open spec fn trim_trailing_zeros(d: Seq<char>) -> Seq<char>
    decreases d.len(),
{
    if d.len() > 0 && d.last() == '0' {
        trim_trailing_zeros(d.drop_last())
    } else {
        d
    }
}

/// The canonical text of a decimal split at `p`: no leading zeros in the
/// integer part (which is "0" when empty), no trailing zeros in the fraction,
/// no point without a fraction, and no sign on zero or on a positive value.
pub open spec fn canonical_decimal(s: Seq<char>, p: int) -> Seq<char> {
    let b = unsigned_part(s);
    let whole = trim_leading_zeros(b.take(p));
    let frac = if p < b.len() { trim_trailing_zeros(b.skip(p + 1)) } else { Seq::empty() };
    let sign = if is_negative(s) && (whole.len() > 0 || frac.len() > 0) {
        seq!['-']
    } else {
        Seq::empty()
    };
    let int_text = if whole.len() == 0 { seq!['0'] } else { whole };
    let frac_text = if frac.len() == 0 { Seq::empty() } else { seq!['.'] + frac };
    sign + int_text + frac_text
}

/// The canonical decimal text of `s`, or "0" where `s` is not a plain decimal.
pub open spec fn decimal_text(s: Seq<char>) -> Seq<char> {
    if is_plain_decimal(s) {
        canonical_decimal(s, choose|p: int| splits_at(unsigned_part(s), p))
    } else {
        seq!['0']
    }
}

/// A decimal splits only at its first character that is no digit.
pub proof fn lemma_split_at_first_non_digit(b: Seq<char>, p: int, q: int)
    requires
        0 <= p <= b.len(),
        all_digits(b.take(p)),
        p < b.len() ==> !is_digit(b[p]),
        splits_at(b, q),
    ensures
        p == q,
{
    if q < p {
        assert(b.take(p)[q] == b[q]);
    } else if p < q {
        assert(b.take(q)[p] == b[p]);
    }
}

fn is_digit_char(c: char) -> (r: bool)
    ensures
        r == is_digit(c),
{
    '0' <= c && c <= '9'
}

/// The end of the run of digits that starts at `from`.
fn digits_end(text: &str, from: usize, n: usize) -> (k: usize)
    requires
        n == text@.len(),
        from <= n,
    ensures
        from <= k <= n,
        all_digits(text@.subrange(from as int, k as int)),
        k < n ==> !is_digit(text@[k as int]),
{
    let ghost s = text@;
    let mut k: usize = from;
    while k < n && is_digit_char(text.get_char(k))
        invariant
            from <= k <= n,
            n == s.len(),
            s == text@,
            all_digits(s.subrange(from as int, k as int)),
        decreases n - k,
    {
        assert(s.subrange(from as int, k as int + 1) =~= s.subrange(from as int, k as int).push(
            s[k as int],
        ));
        k += 1;
    }
    k
}

/// The start of `text[from..to]` once its leading zeros are dropped.
fn skip_leading_zeros(text: &str, from: usize, to: usize) -> (i: usize)
    requires
        from <= to <= text@.len(),
    ensures
        from <= i <= to,
        trim_leading_zeros(text@.subrange(from as int, to as int)) == text@.subrange(
            i as int,
            to as int,
        ),
{
    let ghost s = text@;
    let mut i: usize = from;
    while i < to && text.get_char(i) == '0'
        invariant
            from <= i <= to <= s.len(),
            s == text@,
            trim_leading_zeros(s.subrange(from as int, to as int)) == trim_leading_zeros(
                s.subrange(i as int, to as int),
            ),
        decreases to - i,
    {
        assert(s.subrange(i as int, to as int).drop_first() =~= s.subrange(i as int + 1, to as int));
        i += 1;
    }
    i
}

/// The end of `text[from..to]` once its trailing zeros are dropped.
fn drop_trailing_zeros(text: &str, from: usize, to: usize) -> (e: usize)
    requires
        from <= to <= text@.len(),
    ensures
        from <= e <= to,
        trim_trailing_zeros(text@.subrange(from as int, to as int)) == text@.subrange(
            from as int,
            e as int,
        ),
{
    let ghost s = text@;
    let mut e: usize = to;
    while e > from && text.get_char(e - 1) == '0'
        invariant
            from <= e <= to <= s.len(),
            s == text@,
            trim_trailing_zeros(s.subrange(from as int, to as int)) == trim_trailing_zeros(
                s.subrange(from as int, e as int),
            ),
        decreases e,
    {
        assert(s.subrange(from as int, e as int).drop_last() =~= s.subrange(from as int, e as int - 1));
        e -= 1;
    }
    e
}

/// Rewrites a decimal string in canonical form: "0.0010000" becomes "0.001",
/// "5.000" becomes "5". Text that is not a plain decimal becomes "0".
pub fn remove_trailing_zeroes(num_str: &str) -> (r: String)
    ensures
        r@ == decimal_text(num_str@),
{
    let ghost s = num_str@;
    let n = num_str.unicode_len();
    let mut start: usize = 0;
    let mut negative = false;
    if n > 0 {
        let c = num_str.get_char(0);
        if c == '+' || c == '-' {
            start = 1;
            negative = c == '-';
        }
    }
    let ghost b = unsigned_part(s);
    assert(b =~= s.subrange(start as int, n as int));
    let p = digits_end(num_str, start, n);
    let ghost pp = p - start;
    assert(b.take(pp) =~= s.subrange(start as int, p as int));
    let mut frac_end: usize = n;
    let mut valid = n > start;
    if p < n {
        if num_str.get_char(p) == '.' {
            frac_end = digits_end(num_str, p + 1, n);
            assert(b.skip(pp + 1) =~= s.subrange(p + 1, n as int));
            assert(frac_end < n ==> b.skip(pp + 1)[frac_end - p - 1] == s[frac_end as int]);
            valid = frac_end == n && n > start + 1;
        } else {
            valid = false;
        }
    }
    if !valid {
        assert forall|q: int| !splits_at(b, q) by {
            if splits_at(b, q) {
                lemma_split_at_first_non_digit(b, pp, q);
            }
        }
        proof {
            reveal_strlit("0");
        }
        return String::from_str("0");
    }
    assert(splits_at(b, pp));
    proof {
        let c = choose|q: int| splits_at(b, q);
        lemma_split_at_first_non_digit(b, pp, c);
    }
    let i = skip_leading_zeros(num_str, start, p);
    let mut e: usize = n;
    if p < n {
        e = drop_trailing_zeros(num_str, p + 1, n);
    }
    let has_frac = p < n && e > p + 1;
    let mut out = String::new();
    if negative && (i < p || has_frac) {
        out.append("-");
    }
    if i == p {
        out.append("0");
    } else {
        out.append(num_str.substring_char(i, p));
    }
    if has_frac {
        out.append(".");
        out.append(num_str.substring_char(p + 1, e));
    }
    proof {
        reveal_strlit("-");
        reveal_strlit("0");
        reveal_strlit(".");
        assert(out@ =~= canonical_decimal(s, pp));
    }
    out
}

} // verus!
