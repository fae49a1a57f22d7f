//! Decimal-string formatting of the transferred native value.

use vstd::prelude::*;

use vstd::utf8::{
    encode_utf8, encode_utf8_decode_utf8, encode_utf8_valid_utf8, is_ascii_chars,
    is_ascii_chars_encode_utf8,
};

use crate::codec::string_from_utf8;

verus! {

/// The decimal digit character for a value below ten.
pub open spec fn dec_digit(d: nat) -> char
    recommends
        d < 10,
{
    if d == 0 {
        '0'
    } else if d == 1 {
        '1'
    } else if d == 2 {
        '2'
    } else if d == 3 {
        '3'
    } else if d == 4 {
        '4'
    } else if d == 5 {
        '5'
    } else if d == 6 {
        '6'
    } else if d == 7 {
        '7'
    } else if d == 8 {
        '8'
    } else {
        '9'
    }
}

/// The decimal representation of a natural number, most significant digit
/// first, with no leading zeroes except for the number zero itself.
pub open spec fn dec_str(n: nat) -> Seq<char>
    decreases n,
{
    if n < 10 {
        seq![dec_digit(n)]
    } else {
        dec_str(n / 10).push(dec_digit(n % 10))
    }
}

/// Every decimal representation is a non-empty ASCII character sequence.
proof fn lemma_dec_str_ascii(n: nat)
    ensures
        is_ascii_chars(dec_str(n)),
        dec_str(n).len() >= 1,
    decreases n,
{
    if n < 10 {
        assert(is_ascii_chars(seq![dec_digit(n)]));
    } else {
        lemma_dec_str_ascii(n / 10);
        assert(is_ascii_chars(dec_str(n))) by {
            assert forall|i: int| 0 <= i < dec_str(n).len() implies '\0' <= #[trigger] dec_str(
                n,
            )[i] <= '\u{7f}' by {
                if i < dec_str(n / 10).len() {
                    assert(dec_str(n)[i] == dec_str(n / 10)[i]);
                }
            }
        }
    }
}

/// The view of digit bytes as characters.
spec fn bytes_as_chars(b: Seq<u8>) -> Seq<char> {
    b.map_values(|x: u8| x as char)
}

/// Formats the value in decimal, smallest-unit denomination.
pub fn to_decimal_string(n: u128) -> (r: String)
    ensures
        r@ == dec_str(n as nat),
{
    let mut digits: Vec<u8> = Vec::new();
    let mut m: u128 = n;
    loop
        invariant_except_break
            dec_str(n as nat) == dec_str(m as nat) + bytes_as_chars(digits@),
            forall|i: int| 0 <= i < digits@.len() ==> 48 <= #[trigger] digits@[i] <= 57,
        ensures
            dec_str(n as nat) == bytes_as_chars(digits@),
            forall|i: int| 0 <= i < digits@.len() ==> 48 <= #[trigger] digits@[i] <= 57,
        decreases m,
    {
        proof {
            if m < 10 {
                assert(dec_str(m as nat) =~= seq![dec_digit(m as nat)]);
            }
        }
        let ghost old_digits = digits@;
        let d: u8 = (m % 10) as u8 + 48;
        digits.insert(0, d);
        proof {
            assert(dec_digit((m % 10) as nat) as u8 == d);
            assert((d as char) as u8 == d);
            assert(dec_digit((m % 10) as nat) == d as char);
            assert(bytes_as_chars(digits@) =~= seq![d as char] + bytes_as_chars(old_digits));
            if m >= 10 {
                assert(dec_str(m as nat) == dec_str((m as nat) / 10).push(
                    dec_digit((m as nat) % 10),
                ));
                assert(dec_str((m as nat) / 10).push(dec_digit((m as nat) % 10)) =~= dec_str(
                    (m / 10) as nat,
                ) + seq![d as char]);
                assert(dec_str((m / 10) as nat) + (seq![d as char] + bytes_as_chars(old_digits))
                    =~= (dec_str((m / 10) as nat) + seq![d as char]) + bytes_as_chars(old_digits));
            } else {
                assert(seq![dec_digit(m as nat)] + bytes_as_chars(old_digits) =~= bytes_as_chars(
                    digits@,
                ));
            }
        }
        m = m / 10;
        if m == 0 {
            break ;
        }
        proof {
            assert(dec_str(n as nat) == dec_str(m as nat) + bytes_as_chars(digits@));
        }
    }
    proof {
        let cs = dec_str(n as nat);
        lemma_dec_str_ascii(n as nat);
        assert forall|i: int| 0 <= i < cs.len() implies '\0' <= #[trigger] cs[i] <= '\u{7f}' by {}
        is_ascii_chars_encode_utf8(cs);
        assert(encode_utf8(cs) =~= digits@) by {
            assert forall|i: int| 0 <= i < cs.len() implies #[trigger] encode_utf8(cs)[i]
                == digits@[i] by {
                assert(cs[i] == digits@[i] as char);
                assert((digits@[i] as char) as u8 == digits@[i]);
            }
        }
        encode_utf8_valid_utf8(cs);
        encode_utf8_decode_utf8(cs);
    }
    match string_from_utf8(digits.as_slice()) {
        Option::Some(s) => s,
        Option::None => {
            proof {
                assert(false);
            }
            String::new()
        },
    }
}

} // verus!
