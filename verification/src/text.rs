//! Small text utilities shared by the codec and the JSON decoder: decimal
//! rendering of ids, byte-wise equality of strings, and the one conversion
//! from raw reply bytes to text.

use vstd::prelude::*;
use vstd::string::StringSliceAdditionalSpecFns;

verus! {

/// The character for a single decimal digit.
pub open spec fn digit_char(d: nat) -> char {
    if d == 0 {
        '0'
    } else if d == 1 {
        '1'
    } else if d == 2 {
        '2'
    } else if d == 3 {
        '3'
    } else if d == 4 {
        '4'
    } else if d == 5 {
        '5'
    } else if d == 6 {
        '6'
    } else if d == 7 {
        '7'
    } else if d == 8 {
        '8'
    } else {
        '9'
    }
}

/// The usual decimal rendering of a number, most significant digit first,
/// with no sign and no leading zeros (`0` renders as "0").
pub open spec fn dec_chars(n: nat) -> Seq<char>
    decreases n,
{
    if n < 10 {
        seq![digit_char(n)]
    } else {
        dec_chars(n / 10).push(digit_char(n % 10))
    }
}

/// The digit characters of `digits` read back to front.
pub open spec fn rev_digit_chars(digits: Seq<u8>) -> Seq<char> {
    Seq::new(digits.len(), |i: int| digit_char(digits[digits.len() - 1 - i] as nat))
}

proof fn lemma_rev_digit_chars_push(digits: Seq<u8>, d: u8)
    ensures
        rev_digit_chars(digits.push(d)) == seq![digit_char(d as nat)] + rev_digit_chars(digits),
{
    assert(rev_digit_chars(digits.push(d)) =~= seq![digit_char(d as nat)] + rev_digit_chars(
        digits,
    ));
}

/// Renders `n` in decimal.
pub fn u32_text(n: u32) -> (r: String)
    ensures
        r@ == dec_chars(n as nat),
{
    let mut digits: Vec<u8> = Vec::new();
    digits.push((n % 10) as u8);
    let mut m: u32 = n / 10;
    proof {
        if n >= 10 {
            assert(n as nat / 10 >= 1) by (nonlinear_arith)
                requires
                    n >= 10,
            ;
        }
        lemma_rev_digit_chars_push(Seq::<u8>::empty(), (n % 10) as u8);
        assert(rev_digit_chars(Seq::<u8>::empty()) =~= Seq::<char>::empty());
    }
    while m != 0
        invariant
            digits@.len() >= 1,
            forall|i: int| 0 <= i < digits@.len() ==> digits@[i] < 10,
            dec_chars(n as nat) == (if m == 0 {
                Seq::<char>::empty()
            } else {
                dec_chars(m as nat)
            }) + rev_digit_chars(digits@),
        decreases m,
    {
        let d = (m % 10) as u8;
        let m2 = m / 10;
        proof {
            if m >= 10 {
                assert(m as nat / 10 >= 1) by (nonlinear_arith)
                    requires
                        m >= 10,
                ;
            }
            assert(m2 < m) by (nonlinear_arith)
                requires
                    m >= 1,
                    m2 == m / 10,
            ;
            lemma_rev_digit_chars_push(digits@, d);
        }
        digits.push(d);
        m = m2;
    }
    let mut out = String::new();
    let len = digits.len();
    proof {
        assert(dec_chars(n as nat) == rev_digit_chars(digits@));
        assert(rev_digit_chars(digits@).take(0) =~= Seq::<char>::empty());
    }
    for j in 0..len
        invariant
            len == digits@.len(),
            forall|i: int| 0 <= i < digits@.len() ==> digits@[i] < 10,
            dec_chars(n as nat) == rev_digit_chars(digits@),
            out@ == rev_digit_chars(digits@).take(j as int),
    {
        let d = digits[len - 1 - j];
        proof {
            reveal_strlit("0");
            reveal_strlit("1");
            reveal_strlit("2");
            reveal_strlit("3");
            reveal_strlit("4");
            reveal_strlit("5");
            reveal_strlit("6");
            reveal_strlit("7");
            reveal_strlit("8");
            reveal_strlit("9");
        }
        match d {
            0 => out.append("0"),
            1 => out.append("1"),
            2 => out.append("2"),
            3 => out.append("3"),
            4 => out.append("4"),
            5 => out.append("5"),
            6 => out.append("6"),
            7 => out.append("7"),
            8 => out.append("8"),
            _ => out.append("9"),
        }
        proof {
            assert(out@ =~= rev_digit_chars(digits@).take(j + 1));
        }
    }
    proof {
        assert(rev_digit_chars(digits@).take(len as int) =~= rev_digit_chars(digits@));
    }
    out
}

/// Whether two byte slices hold the same bytes.
pub fn bytes_eq(a: &[u8], b: &[u8]) -> (r: bool)
    ensures
        r == (a@ == b@),
{
    if a.len() != b.len() {
        return false;
    }
    let n = a.len();
    for i in 0..n
        invariant
            n == a@.len(),
            n == b@.len(),
            forall|j: int| 0 <= j < i ==> a@[j] == b@[j],
    {
        if a[i] != b[i] {
            return false;
        }
    }
    proof {
        assert(a@ =~= b@);
    }
    true
}

/// Whether two strings hold the same characters.  Works byte-wise; the
/// UTF-8 encoding is injective, so byte equality decides character equality.
pub fn str_eq(a: &str, b: &str) -> (r: bool)
    ensures
        r == (a@ == b@),
{
    let r = bytes_eq(a.as_bytes(), b.as_bytes());
    proof {
        if a.spec_bytes() == b.spec_bytes() {
            vstd::utf8::encode_utf8_decode_utf8(a@);
            vstd::utf8::encode_utf8_decode_utf8(b@);
        }
    }
    r
}

/// The text that lossy UTF-8 decoding makes of a byte sequence.
pub uninterp spec fn lossy_text(bytes: Seq<u8>) -> Seq<char>;

/// Relies on `String::from_utf8_lossy`: decodes the bytes as UTF-8,
/// replacing invalid sequences with the replacement character; valid UTF-8
/// decodes exactly, and the result depends on the bytes alone.
#[verifier::external_body]
pub fn bytes_to_text(bytes: &[u8]) -> (r: String)
    ensures
        r@ == lossy_text(bytes@),
        vstd::utf8::valid_utf8(bytes@) ==> r@ == vstd::utf8::decode_utf8(bytes@),
{
    String::from_utf8_lossy(bytes).into_owned()
}

} // verus!
