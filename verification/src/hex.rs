//! Parsing the transport's `0x`-prefixed hexadecimal variable values, such
//! as the advertised maximum download size, into a `u32`.

use vstd::prelude::*;

verus! {

/// Why a hexadecimal value failed to parse.
#[derive(Clone, Copy, Debug, PartialEq, Eq, Structural)]
pub enum HexParseError {
    /// The value does not start with `0x`.
    MissingPrefix,
    /// Nothing follows the `0x` prefix.
    Empty,
    /// A byte after the prefix is no hexadecimal digit.
    InvalidDigit,
    /// The value does not fit 32 bits.
    Overflow,
}

/// The value of one hexadecimal digit byte, or -1 for any other byte.
pub open spec fn spec_hex_digit_val(b: u8) -> int {
    if 0x30 <= b <= 0x39 {  // '0' ..= '9'
        b - 0x30
    } else if 0x61 <= b <= 0x66 {  // 'a' ..= 'f'
        b - 0x61 + 10
    } else if 0x41 <= b <= 0x46 {  // 'A' ..= 'F'
        b - 0x41 + 10
    } else {
        -1
    }
}

/// Every byte is a hexadecimal digit.
pub open spec fn spec_all_hex_digits(s: Seq<u8>) -> bool {
    forall|i: int| 0 <= i < s.len() ==> spec_hex_digit_val(#[trigger] s[i]) >= 0
}

/// The number a digit sequence denotes, most significant digit first.
pub open spec fn spec_hex_value(s: Seq<u8>) -> int
    decreases s.len(),
{
    if s.len() == 0 {
        0
    } else {
        spec_hex_value(s.drop_last()) * 16 + spec_hex_digit_val(s.last())
    }
}

/// What parsing a `0x`-prefixed hexadecimal byte string yields: digit
/// validity is established first, then the value must fit 32 bits.
pub open spec fn spec_parse_u32_hex(s: Seq<u8>) -> Result<u32, HexParseError> {
    if !(s.len() >= 2 && s[0] == 0x30u8 && s[1] == 0x78u8) {  // "0x"
        Err(HexParseError::MissingPrefix)
    } else if s.len() == 2 {
        Err(HexParseError::Empty)
    } else if !spec_all_hex_digits(s.skip(2)) {
        Err(HexParseError::InvalidDigit)
    } else if spec_hex_value(s.skip(2)) > u32::MAX {
        Err(HexParseError::Overflow)
    } else {
        Ok(spec_hex_value(s.skip(2)) as u32)
    }
}

fn hex_digit_val(b: u8) -> (r: Option<u8>)
    ensures
        r matches Some(v) ==> spec_hex_digit_val(b) == v,
        r is None ==> spec_hex_digit_val(b) == -1,
{
    if 0x30 <= b && b <= 0x39 {
        Some(b - 0x30)
    } else if 0x61 <= b && b <= 0x66 {
        Some(b - 0x61 + 10)
    } else if 0x41 <= b && b <= 0x46 {
        Some(b - 0x41 + 10)
    } else {
        None
    }
}

proof fn lemma_hex_take_step(s: Seq<u8>, j: int)
    requires
        0 <= j < s.len(),
    ensures
        spec_hex_value(s.take(j + 1)) == spec_hex_value(s.take(j)) * 16 + spec_hex_digit_val(
            s[j],
        ),
{
    assert(s.take(j + 1).drop_last() =~= s.take(j));
    assert(s.take(j + 1).last() == s[j]);
}

proof fn lemma_hex_value_nonneg(s: Seq<u8>)
    requires
        spec_all_hex_digits(s),
    ensures
        spec_hex_value(s) >= 0,
    decreases s.len(),
{
    if s.len() > 0 {
        assert forall|i: int| 0 <= i < s.drop_last().len() implies spec_hex_digit_val(
            #[trigger] s.drop_last()[i],
        ) >= 0 by {
            assert(s.drop_last()[i] == s[i]);
        }
        lemma_hex_value_nonneg(s.drop_last());
        assert(spec_hex_digit_val(s.last()) >= 0);
    }
}

proof fn lemma_hex_value_monotone(s: Seq<u8>, j: int)
    requires
        spec_all_hex_digits(s),
        0 <= j <= s.len(),
    ensures
        spec_hex_value(s.take(j)) <= spec_hex_value(s),
    decreases s.len() - j,
{
    if j == s.len() {
        assert(s.take(j) =~= s);
    } else {
        lemma_hex_take_step(s, j);
        lemma_hex_value_monotone(s, j + 1);
        assert forall|i: int| 0 <= i < s.take(j).len() implies spec_hex_digit_val(
            #[trigger] s.take(j)[i],
        ) >= 0 by {
            assert(s.take(j)[i] == s[i]);
        }
        lemma_hex_value_nonneg(s.take(j));
    }
}

/// Parse a `0x`-prefixed hexadecimal byte string, as the transport reports
/// its variables, into a `u32`.
pub fn parse_u32_hex(s: &[u8]) -> (r: Result<u32, HexParseError>)
    ensures
        r == spec_parse_u32_hex(s@),
{
    let n = s.len();
    if n < 2 || s[0] != 0x30 || s[1] != 0x78 {
        return Err(HexParseError::MissingPrefix);
    }
    if n == 2 {
        return Err(HexParseError::Empty);
    }
    let ghost d = s@.skip(2);
    // First establish that every byte is a digit.
    let mut j: usize = 2;
    while j < n
        invariant
            2 <= j <= n,
            n == s@.len(),
            n > 2,
            s@[0] == 0x30u8,
            s@[1] == 0x78u8,
            d == s@.skip(2),
            forall|i: int| 0 <= i < j - 2 ==> spec_hex_digit_val(#[trigger] d[i]) >= 0,
        decreases n - j,
    {
        proof {
            assert(d[j - 2] == s@[j as int]);
        }
        if hex_digit_val(s[j]).is_none() {
            proof {
                assert(spec_hex_digit_val(d[j - 2]) == -1);
                assert(!spec_all_hex_digits(d));
            }
            return Err(HexParseError::InvalidDigit);
        }
        j += 1;
    }
    assert(spec_all_hex_digits(d));
    // Then accumulate, watching for 32-bit overflow.
    let mut v: u64 = 0;
    let mut j: usize = 2;
    while j < n
        invariant
            2 <= j <= n,
            n == s@.len(),
            n > 2,
            s@[0] == 0x30u8,
            s@[1] == 0x78u8,
            d == s@.skip(2),
            spec_all_hex_digits(d),
            v == spec_hex_value(d.take(j - 2)),
            v <= u32::MAX,
        decreases n - j,
    {
        proof {
            assert(d[j - 2] == s@[j as int]);
        }
        let dig = match hex_digit_val(s[j]) {
            Some(x) => x,
            None => {
                proof {
                    assert(spec_hex_digit_val(d[j - 2]) >= 0);
                }
                return Err(HexParseError::InvalidDigit);
            },
        };
        let w: u64 = v * 16 + dig as u64;
        proof {
            lemma_hex_take_step(d, j - 2);
        }
        if w > u32::MAX as u64 {
            proof {
                lemma_hex_value_monotone(d, j - 1);
            }
            return Err(HexParseError::Overflow);
        }
        v = w;
        j += 1;
    }
    proof {
        assert(d.take(n - 2) =~= d);
    }
    Ok(v as u32)
}

} // verus!
