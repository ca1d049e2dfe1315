use vstd::prelude::*;
use crate::error::ValidationError;

verus! {

/// A decimal digit.
pub open spec fn is_digit(c: char) -> bool {
    '0' <= c && c <= '9'
}

/// The number that a decimal digit stands for.
pub open spec fn digit_value(c: char) -> nat {
    (c as nat - '0' as nat) as nat
}

/// The token begins with a sign.
pub open spec fn has_sign(s: Seq<char>) -> bool {
    s.len() > 0 && (s[0] == '-' || s[0] == '+')
}

/// The token without its sign.
pub open spec fn digits(s: Seq<char>) -> Seq<char> {
    if has_sign(s) {
        s.skip(1)
    } else {
        s
    }
}

/// The whole token is an optional sign and then one decimal digit or more.
pub open spec fn well_formed(s: Seq<char>) -> bool {
    digits(s).len() > 0 && forall|i: int| 0 <= i < digits(s).len() ==> is_digit(#[trigger] digits(s)[i])
}

/// The number that a run of decimal digits denotes.
pub open spec fn magnitude(d: Seq<char>) -> nat
    decreases d.len(),
{
    if d.len() == 0 {
        0
    } else {
        magnitude(d.drop_last()) * 10 + digit_value(d.last())
    }
}

/// The integer that a well-formed token denotes.
pub open spec fn denoted(s: Seq<char>) -> int {
    if s.len() > 0 && s[0] == '-' {
        -(magnitude(digits(s)) as int)
    } else {
        magnitude(digits(s)) as int
    }
}

/// What parsing a token gives: its value where it is well formed and fits in
/// 64 bits, and otherwise which of the two it is not.
pub open spec fn parsed(s: Seq<char>) -> Result<i64, ValidationError> {
    if !well_formed(s) {
        Err(ValidationError::InvalidInteger)
    } else if i64::MIN <= denoted(s) <= i64::MAX {
        Ok(denoted(s) as i64)
    } else {
        Err(ValidationError::IntegerOverflow)
    }
}

/// A run of digits denotes at least what each of its prefixes denotes.
pub proof fn lemma_magnitude_grows(d: Seq<char>, k: int)
    requires
        0 <= k <= d.len(),
    ensures
        magnitude(d.take(k)) <= magnitude(d),
    decreases d.len(),
{
    if k == d.len() {
        assert(d.take(k) =~= d);
    } else {
        assert(d.drop_last().take(k) =~= d.take(k));
        lemma_magnitude_grows(d.drop_last(), k);
    }
}

/// Reads a token as a signed decimal integer. The whole token must be used:
/// an optional sign, then digits and nothing else.
pub fn parse_integer(token: &[char]) -> (r: Result<i64, ValidationError>)
    ensures
        r == parsed(token@),
{
    let n: usize = token.len();
    let mut first: usize = 0;
    let mut negative: bool = false;
    if n > 0 && (token[0] == '-' || token[0] == '+') {
        negative = token[0] == '-';
        first = 1;
    }
    let ghost ds = digits(token@);
    assert(ds.len() == n - first);
    assert(forall|i: int| 0 <= i < ds.len() ==> ds[i] == token@[i + first]);
    if first == n {
        return Err(ValidationError::InvalidInteger);
    }
    let mut j: usize = first;
    while j < n
        invariant
            first <= j <= n,
            n == token@.len(),
            ds.len() == n - first,
            forall|i: int| 0 <= i < ds.len() ==> ds[i] == token@[i + first],
            forall|i: int| 0 <= i < j - first ==> is_digit(#[trigger] ds[i]),
            ds == digits(token@),
        decreases n - j,
    {
        let c: char = token[j];
        if !('0' <= c && c <= '9') {
            assert(ds[j - first] == c);
            assert(!is_digit(ds[j - first]));
            return Err(ValidationError::InvalidInteger);
        }
        j += 1;
    }
    assert(well_formed(token@));
    let limit: u64 = if negative {
        0x8000_0000_0000_0000u64
    } else {
        0x7fff_ffff_ffff_ffffu64
    };
    let mut acc: u64 = 0;
    j = first;
    assert(ds.take(0).len() == 0);
    while j < n
        invariant
            first <= j <= n,
            n == token@.len(),
            ds.len() == n - first,
            forall|i: int| 0 <= i < ds.len() ==> ds[i] == token@[i + first],
            forall|i: int| 0 <= i < ds.len() ==> is_digit(#[trigger] ds[i]),
            acc == magnitude(ds.take(j - first)),
            acc <= limit,
            ds == digits(token@),
            negative == (token@[0] == '-'),
            well_formed(token@),
            limit == if negative { 0x8000_0000_0000_0000u64 } else { 0x7fff_ffff_ffff_ffffu64 },
        decreases n - j,
    {
        let c: char = token[j];
        assert(ds[j - first] == c);
        assert(is_digit(ds[j - first]));
        let d: u64 = (c as u32 - '0' as u32) as u64;
        proof {
            let m = j - first;
            assert(d == digit_value(ds[m]));
            assert(ds.take(m + 1).drop_last() =~= ds.take(m));
            assert(ds.take(m + 1).last() == ds[m]);
            assert(magnitude(ds.take(m + 1)) == acc * 10 + d);
            lemma_magnitude_grows(ds, m + 1);
        }
        if acc > (limit - d) / 10 {
            return Err(ValidationError::IntegerOverflow);
        }
        acc = acc * 10 + d;
        j += 1;
    }
    assert(ds.take(n - first) =~= ds);
    if negative {
        if acc == 0x8000_0000_0000_0000u64 {
            Ok(i64::MIN)
        } else {
            Ok(-(acc as i64))
        }
    } else {
        Ok(acc as i64)
    }
}

} // verus!
