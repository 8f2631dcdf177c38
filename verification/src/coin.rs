//! Parsing of amount/denomination strings such as `1000uosmo` into a
//! structured [`Coin`] value: a maximal run of leading decimal digits is the
//! amount, everything after it is the denomination.

use vstd::prelude::*;

verus! {

/// A structured on-chain token quantity: a non-negative amount together with
/// a denomination token.
#[derive(Debug, Clone, PartialEq, Eq)]
pub struct Coin {
    pub amount: u128,
    pub denom: String,
}

/// Why a string failed to parse as a coin. Each variant carries the offending
/// input so that the message can embed it.
#[derive(Debug, Clone, PartialEq, Eq)]
pub enum ParseError {
    /// The input does not start with a decimal digit.
    NoMatch(String),
    /// The digit group is absent. Kept for completeness of the taxonomy:
    /// an input without leading digits is reported as `NoMatch` instead,
    /// and [`CoinFromStr::from_str`] never returns this variant.
    MissingAmount(String),
    /// Nothing follows the leading digit run.
    MissingDenom(String),
    /// The digit run does not fit in a `u128` amount.
    AmountOverflow(String),
}

/// True when `c` is an ASCII decimal digit (`'0'` through `'9'`).
pub open spec fn is_digit_char(c: char) -> bool {
    48 <= c as u32 <= 57
}

/// Length of the maximal all-digit prefix of `s`.
pub open spec fn digit_count(s: Seq<char>) -> nat
    decreases s.len(),
{
    if s.len() > 0 && is_digit_char(s[0]) {
        (1 + digit_count(s.skip(1))) as nat
    } else {
        0
    }
}

/// Numeric value of a digit sequence read as a decimal numeral.
pub open spec fn digits_val(s: Seq<char>) -> int
    decreases s.len(),
{
    if s.len() == 0 {
        0
    } else {
        10 * digits_val(s.drop_last()) + (s.last() as u32 - 48)
    }
}

/// The maximal all-digit prefix of `s`: the amount part.
pub open spec fn amount_digits(s: Seq<char>) -> Seq<char> {
    s.take(digit_count(s) as int)
}

/// What remains of `s` after the maximal all-digit prefix: the denomination.
pub open spec fn denom_part(s: Seq<char>) -> Seq<char> {
    s.skip(digit_count(s) as int)
}

/// True when `s` parses as a coin: a non-empty digit run, followed by a
/// non-empty denomination, with an amount that fits in `u128`.
pub open spec fn parse_ok(s: Seq<char>) -> bool {
    &&& digit_count(s) > 0
    &&& digit_count(s) < s.len()
    &&& digits_val(amount_digits(s)) <= u128::MAX
}

/// A coin obtained by parsing a string.
#[derive(Debug, Clone, PartialEq, Eq)]
pub struct CoinFromStr {
    inner: Coin,
}

impl CoinFromStr {
    /// The parsed coin.
    pub closed spec fn spec_inner(&self) -> Coin {
        self.inner
    }

    /// Borrow the parsed coin.
    pub fn inner(&self) -> (r: &Coin)
        ensures
            *r == self.spec_inner(),
    {
        &self.inner
    }

    /// Parse `s` as an amount immediately followed by a denomination.
    ///
    /// The maximal run of leading decimal digits is the amount; everything
    /// after it, taken verbatim, is the denomination. Fails with `NoMatch`
    /// when `s` does not start with a digit, with `MissingDenom` when nothing
    /// follows the digits, and with `AmountOverflow` when the amount does not
    /// fit in a `u128`. Total: no input makes it panic.
    pub fn from_str(s: &str) -> (r: Result<CoinFromStr, ParseError>)
        ensures
            (match r {
                Ok(c) => {
                    &&& parse_ok(s@)
                    &&& c.spec_inner().amount as int == digits_val(amount_digits(s@))
                    &&& c.spec_inner().denom@ == denom_part(s@)
                    &&& c.spec_inner().denom@.len() > 0
                    &&& !is_digit_char(c.spec_inner().denom@[0])
                },
                Err(e) => match e {
                    ParseError::NoMatch(orig) => digit_count(s@) == 0 && orig@ == s@,
                    ParseError::MissingAmount(_) => false,
                    ParseError::MissingDenom(orig) => {
                        &&& digit_count(s@) > 0
                        &&& digit_count(s@) == s@.len()
                        &&& orig@ == s@
                    },
                    ParseError::AmountOverflow(orig) => {
                        &&& digit_count(s@) > 0
                        &&& digit_count(s@) < s@.len()
                        &&& digits_val(amount_digits(s@)) > u128::MAX
                        &&& orig@ == s@
                    },
                },
            }),
    {
        let n: usize = s.unicode_len();
        let mut i: usize = 0;
        loop
            invariant_except_break
                n == s@.len(),
                i <= n,
                forall|j: int| 0 <= j < i ==> is_digit_char(s@[j]),
            ensures
                n == s@.len(),
                i <= n,
                forall|j: int| 0 <= j < i ==> is_digit_char(s@[j]),
                i == n || !is_digit_char(s@[i as int]),
            decreases n - i,
        {
            if i >= n {
                break ;
            }
            let c: char = s.get_char(i);
            let v: u32 = c as u32;
            if !(48 <= v && v <= 57) {
                break ;
            }
            i += 1;
        }
        proof {
            lemma_digit_count_boundary(s@, i as int);
        }
        if i == 0 {
            return Err(ParseError::NoMatch(s.to_owned()));
        }
        if i == n {
            return Err(ParseError::MissingDenom(s.to_owned()));
        }
        let mut acc: u128 = 0;
        let mut j: usize = 0;
        while j < i
            invariant
                n == s@.len(),
                0 < i < n,
                j <= i,
                digit_count(s@) == i,
                forall|k: int| 0 <= k < i ==> is_digit_char(s@[k]),
                !is_digit_char(s@[i as int]),
                acc as int == digits_val(s@.take(j as int)),
            decreases i - j,
        {
            let c: char = s.get_char(j);
            let d: u128 = (c as u32 - 48) as u128;
            proof {
                lemma_digits_val_step(s@, j as int);
            }
            let next: u128 = match acc.checked_mul(10) {
                Some(m) => match m.checked_add(d) {
                    Some(v) => v,
                    None => {
                        proof {
                            lemma_digits_val_take_le(s@, j + 1, i as int);
                        }
                        return Err(ParseError::AmountOverflow(s.to_owned()));
                    },
                },
                None => {
                    proof {
                        lemma_digits_val_nonneg_take(s@, j as int);
                        lemma_digits_val_step(s@, j as int);
                        lemma_digits_val_take_le(s@, j + 1, i as int);
                    }
                    return Err(ParseError::AmountOverflow(s.to_owned()));
                },
            };
            acc = next;
            j += 1;
        }
        let denom: String = s.substring_char(i, n).to_owned();
        proof {
            assert(s@.subrange(i as int, n as int) =~= denom_part(s@));
            assert(s@.take(i as int) =~= amount_digits(s@));
        }
        Ok(CoinFromStr { inner: Coin { amount: acc, denom } })
    }
}

impl ParseError {
    /// The human-readable description of this failure, embedding the
    /// offending input.
    pub open spec fn spec_message(&self) -> Seq<char> {
        match self {
            ParseError::NoMatch(orig) => "Unable to parse `"@ + orig@ + "` as Coin."@,
            ParseError::MissingAmount(orig) => "`"@ + orig@ + "` does not contain valid amount"@,
            ParseError::MissingDenom(orig) => "`"@ + orig@ + "` does not contain valid denom"@,
            ParseError::AmountOverflow(orig) => "`"@ + orig@
                + "` holds an amount too large for a u128"@,
        }
    }

    /// Render the human-readable description of this failure.
    pub fn message(&self) -> (m: String)
        ensures
            m@ == self.spec_message(),
    {
        match self {
            ParseError::NoMatch(orig) => String::from_str("Unable to parse `").concat(
                orig.as_str(),
            ).concat("` as Coin."),
            ParseError::MissingAmount(orig) => String::from_str("`").concat(orig.as_str()).concat(
                "` does not contain valid amount",
            ),
            ParseError::MissingDenom(orig) => String::from_str("`").concat(orig.as_str()).concat(
                "` does not contain valid denom",
            ),
            ParseError::AmountOverflow(orig) => String::from_str("`").concat(orig.as_str()).concat(
                "` holds an amount too large for a u128",
            ),
        }
    }
}

/// The character for the decimal digit `d`.
pub open spec fn digit_char(d: int) -> char {
    ((48 + d) as u8) as char
}

/// The decimal numeral for `n`, without leading zeros.
pub open spec fn digits_of(n: int) -> Seq<char>
    decreases n,
{
    if n < 10 {
        seq![digit_char(n)]
    } else {
        digits_of(n / 10).push(digit_char(n % 10))
    }
}

/// The character for a decimal digit has the digit's value, offset by the
/// code point of `'0'`.
proof fn lemma_digit_char_val(d: int)
    requires
        0 <= d <= 9,
    ensures
        digit_char(d) as u32 == 48 + d,
        is_digit_char(digit_char(d)),
{
    assert(((48 + d) as u8) as char as u32 == 48 + d);
}

/// The decimal numeral of a non-negative number is a non-empty all-digit
/// sequence whose value is that number.
pub proof fn lemma_digits_of_val(n: int)
    requires
        n >= 0,
    ensures
        digits_of(n).len() > 0,
        forall|j: int| 0 <= j < digits_of(n).len() ==> is_digit_char(digits_of(n)[j]),
        digits_val(digits_of(n)) == n,
    decreases n,
{
    if n < 10 {
        lemma_digit_char_val(n);
        assert(digits_of(n) =~= seq![digit_char(n)]);
        assert(digits_of(n).drop_last() =~= Seq::<char>::empty());
        assert(digits_val(Seq::<char>::empty()) == 0);
        assert(digits_val(digits_of(n)) == n);
    } else {
        lemma_digits_of_val(n / 10);
        lemma_digit_char_val(n % 10);
        assert(digits_of(n).drop_last() =~= digits_of(n / 10));
        assert(digits_of(n).last() == digit_char(n % 10));
        assert(digits_val(digits_of(n)) == 10 * (n / 10) + n % 10);
    }
}

/// Any string made of a non-empty digit run followed by a non-empty suffix
/// whose first character is not a digit parses with the run as the amount and
/// the suffix, verbatim, as the denomination; it parses successfully whenever
/// the run's value fits in a `u128`.
pub proof fn lemma_parse_digits_then_suffix(d: Seq<char>, rest: Seq<char>)
    requires
        d.len() > 0,
        forall|j: int| 0 <= j < d.len() ==> is_digit_char(d[j]),
        rest.len() > 0,
        !is_digit_char(rest[0]),
    ensures
        digit_count(d + rest) == d.len(),
        amount_digits(d + rest) == d,
        denom_part(d + rest) == rest,
        digits_val(d) <= u128::MAX ==> parse_ok(d + rest),
{
    let s = d + rest;
    assert(forall|j: int| 0 <= j < d.len() ==> s[j] == d[j]);
    assert(s[d.len() as int] == rest[0]);
    lemma_digit_count_boundary(s, d.len() as int);
    assert(amount_digits(s) =~= d);
    assert(denom_part(s) =~= rest);
}

/// Re-parsing the canonical string form of a coin (its amount written as a
/// decimal numeral, immediately followed by its denomination) yields an equal
/// coin, whenever the denomination is non-empty and does not begin with a
/// digit, as holds of every parsed coin.
pub proof fn lemma_reparse_canonical(c: Coin)
    requires
        c.denom@.len() > 0,
        !is_digit_char(c.denom@[0]),
    ensures
        ({
            let s = digits_of(c.amount as int) + c.denom@;
            &&& parse_ok(s)
            &&& digits_val(amount_digits(s)) == c.amount as int
            &&& denom_part(s) == c.denom@
        }),
{
    lemma_digits_of_val(c.amount as int);
    lemma_parse_digits_then_suffix(digits_of(c.amount as int), c.denom@);
}

/// The maximal digit prefix ends exactly at the first position that is out of
/// range or holds a non-digit.
proof fn lemma_digit_count_boundary(s: Seq<char>, i: int)
    requires
        0 <= i <= s.len(),
        forall|j: int| 0 <= j < i ==> is_digit_char(s[j]),
        i == s.len() || !is_digit_char(s[i]),
    ensures
        digit_count(s) == i,
    decreases i,
{
    if i == 0 {
    } else {
        assert(is_digit_char(s[0]));
        lemma_digit_count_boundary(s.skip(1), i - 1);
    }
}

/// Reading one more digit multiplies the value so far by ten and adds it.
proof fn lemma_digits_val_step(s: Seq<char>, j: int)
    requires
        0 <= j < s.len(),
    ensures
        digits_val(s.take(j + 1)) == 10 * digits_val(s.take(j)) + (s[j] as u32 - 48),
{
    assert(s.take(j + 1).drop_last() =~= s.take(j));
    assert(s.take(j + 1).last() == s[j]);
}

/// The value of an all-digit sequence is non-negative.
proof fn lemma_digits_val_nonneg(s: Seq<char>)
    requires
        forall|k: int| 0 <= k < s.len() ==> is_digit_char(s[k]),
    ensures
        digits_val(s) >= 0,
    decreases s.len(),
{
    if s.len() > 0 {
        lemma_digits_val_nonneg(s.drop_last());
    }
}

/// The value of an all-digit prefix is non-negative.
proof fn lemma_digits_val_nonneg_take(s: Seq<char>, j: int)
    requires
        0 <= j <= s.len(),
        forall|k: int| 0 <= k < j ==> is_digit_char(s[k]),
    ensures
        digits_val(s.take(j)) >= 0,
{
    lemma_digits_val_nonneg(s.take(j));
}

/// Extending an all-digit prefix never decreases its value.
proof fn lemma_digits_val_take_le(s: Seq<char>, i: int, j: int)
    requires
        0 <= i <= j <= s.len(),
        forall|k: int| 0 <= k < j ==> is_digit_char(s[k]),
    ensures
        digits_val(s.take(i)) <= digits_val(s.take(j)),
    decreases j - i,
{
    if i < j {
        lemma_digits_val_take_le(s, i, j - 1);
        lemma_digits_val_nonneg_take(s, j - 1);
        lemma_digits_val_step(s, j - 1);
    }
}

} // verus!
