//! Decoding the manager's JSON state dumps into the typed model.
//!
//! The JSON text is parsed by serde_json into its generic document type;
//! a mathematical model of the document (`JDoc`, named by `json_doc` and
//! `value_doc`) stands behind every contract, so the decoded entity is
//! fixed exactly: which documents decode, and to what, is stated by the
//! `*_of` spec functions, field for field — camelCase wire keys mapped,
//! the lowercase enum tokens matched, integer ranges checked, and the
//! two-children-or-none invariant of the tiling tree enforced.  Any
//! mismatch is the one decode error, `MessageError::JsonCouldntParse`; a
//! malformed document never yields a tree, and a yielded tree is always
//! well formed.

use vstd::prelude::*;
use vstd::string::StringSliceAdditionalSpecFns;

use crate::MessageError;
use crate::common::{Layer, Layout, NodeCoordinates, NodeState, Rectangle};
use crate::reply::{
    client_view, desktop_view, monitor_view, node_view, state_view, BspwmState, BspwmStateV,
    Client, ClientV, Constraints, Desktop, DesktopV, Direction, Monitor, MonitorV, Node, NodeV,
    Padding, Presel, Ratio, SplitType,
};
use crate::text::str_eq;
use vstd::utf8::encode_utf8;

verus! {

#[verifier::external_type_specification]
#[verifier::external_body]
pub struct ExValue(serde_json::Value);

#[verifier::external_type_specification]
#[verifier::external_body]
pub struct ExNumber(serde_json::Number);

#[verifier::external_type_specification]
#[verifier::external_body]
pub struct ExJsonError(serde_json::Error);

/// A JSON document as mathematics: the shape every decode contract speaks
/// of.  A number appears as the decimal text serde_json prints for it,
/// which is also how the split-ratio decoder reads numbers.
pub enum JDoc {
    Null,
    Bool(bool),
    Num(Seq<char>),
    Text(Seq<char>),
    Arr(Seq<JDoc>),
    Obj(Map<Seq<char>, JDoc>),
}

/// What parsing a text as a JSON document yields: nothing where serde_json
/// refuses the text (bad syntax, nesting beyond its limit), the document
/// otherwise.  The result depends on the text alone.
pub uninterp spec fn json_doc(s: Seq<char>) -> Option<JDoc>;

/// The document behind a parsed serde_json value.
pub uninterp spec fn value_doc(v: serde_json::Value) -> JDoc;

/// The decimal text serde_json prints for a parsed number.
pub uninterp spec fn num_text(n: serde_json::Number) -> Seq<char>;

/// An ASCII decimal digit character.
pub open spec fn is_digit_char(c: char) -> bool {
    48 <= c as u32 && c as u32 <= 57
}

/// The canonical unsigned decimal texts: at least one digit, no leading
/// zero.  serde_json prints a number this way exactly when it holds a
/// non-negative integer.
pub open spec fn udec_text_valid(t: Seq<char>) -> bool {
    &&& t.len() >= 1
    &&& (forall|i: int| 0 <= i < t.len() ==> is_digit_char(#[trigger] t[i]))
    &&& (t[0] != '0' || t.len() == 1)
}

/// The number a run of digit characters names.
pub open spec fn udec_val(t: Seq<char>) -> nat
    decreases t.len(),
{
    if t.len() == 0 {
        0
    } else {
        udec_val(t.drop_last()) * 10 + (t.last() as u32 - 48) as nat
    }
}

/// The signed value of a canonical integer text: an optional minus before
/// a nonzero digit run, or a plain digit run.
pub open spec fn sdec_val(t: Seq<char>) -> Option<int> {
    if t.len() >= 2 && t[0] == '-' && udec_text_valid(t.skip(1)) && udec_val(t.skip(1)) > 0 {
        Some(-(udec_val(t.skip(1)) as int))
    } else if udec_text_valid(t) {
        Some(udec_val(t) as int)
    } else {
        None
    }
}

/// What `Value::as_u64` yields on a document: the value of a number whose
/// text is a plain digit run fitting `u64`.
pub open spec fn num_u64_of(d: JDoc) -> Option<u64> {
    match d {
        JDoc::Num(t) => if udec_text_valid(t) && udec_val(t) <= u64::MAX {
            Some(udec_val(t) as u64)
        } else {
            None
        },
        _ => None,
    }
}

/// What `Value::as_i64` yields on a document: the value of a number whose
/// text is a canonical integer fitting `i64`.
pub open spec fn num_i64_of(d: JDoc) -> Option<i64> {
    match d {
        JDoc::Num(t) => match sdec_val(t) {
            Some(n) => if i64::MIN <= n <= i64::MAX {
                Some(n as i64)
            } else {
                None
            },
            None => None,
        },
        _ => None,
    }
}

/// What `Value::as_bool` yields on a document.
pub open spec fn bool_of(d: JDoc) -> Option<bool> {
    match d {
        JDoc::Bool(b) => Some(b),
        _ => None,
    }
}

/// Key lookup in a document: something only on an object holding the key.
pub open spec fn obj_get(d: JDoc, key: Seq<char>) -> Option<JDoc> {
    match d {
        JDoc::Obj(m) => if m.contains_key(key) {
            Some(m[key])
        } else {
            None
        },
        _ => None,
    }
}

/// Relies on `serde_json::from_str::<Value>`: parses a JSON document.  It
/// succeeds exactly on the texts whose document `json_doc` names, and
/// yields that document.
#[verifier::external_body]
fn parse_value(payload: &str) -> (r: Result<serde_json::Value, serde_json::Error>)
    ensures
        r is Ok <==> json_doc(payload@) is Some,
        r matches Ok(v) ==> value_doc(v) == json_doc(payload@)->Some_0,
{
    serde_json::from_str(payload)
}

/// Relies on `Value::get` with a string key: the member of a JSON object,
/// `None` when the value is no object or has no such key.
#[verifier::external_body]
fn value_get<'a>(v: &'a serde_json::Value, key: &str) -> (r: Option<&'a serde_json::Value>)
    ensures
        r is Some <==> obj_get(value_doc(*v), key@) is Some,
        r matches Some(f) ==> Some(value_doc(*f)) == obj_get(value_doc(*v), key@),
{
    v.get(key)
}

/// Relies on `Value::as_u64`, and on the number formatting (integers print
/// through itoa): a number prints as a plain digit run exactly when it
/// holds a non-negative integer, and `as_u64` yields exactly that integer.
#[verifier::external_body]
fn value_as_u64(v: &serde_json::Value) -> (r: Option<u64>)
    ensures
        r == num_u64_of(value_doc(*v)),
{
    v.as_u64()
}

/// Relies on `Value::as_i64` and the number formatting: an integer in the
/// `i64` range prints as an optional minus and digits, and `as_i64` yields
/// exactly it; a float never prints as a bare integer text.
#[verifier::external_body]
fn value_as_i64(v: &serde_json::Value) -> (r: Option<i64>)
    ensures
        r == num_i64_of(value_doc(*v)),
{
    v.as_i64()
}

/// Relies on `Value::as_bool`: the value of a JSON boolean.
#[verifier::external_body]
fn value_as_bool(v: &serde_json::Value) -> (r: Option<bool>)
    ensures
        r == bool_of(value_doc(*v)),
{
    v.as_bool()
}

/// Relies on `Value::as_str`: the contents of a JSON string.
#[verifier::external_body]
fn value_as_str<'a>(v: &'a serde_json::Value) -> (r: Option<&'a str>)
    ensures
        r is Some <==> value_doc(*v) is Text,
        r matches Some(s) ==> value_doc(*v) == JDoc::Text(s@),
{
    v.as_str()
}

/// Relies on `Value::as_array`: the elements of a JSON array, in order,
/// each carrying its own document.
#[verifier::external_body]
fn value_as_array<'a>(v: &'a serde_json::Value) -> (r: Option<&'a Vec<serde_json::Value>>)
    ensures
        r is Some <==> value_doc(*v) is Arr,
        r matches Some(a) ==> (value_doc(*v) matches JDoc::Arr(l) && a@.len() == l.len() && forall|
            i: int,
        | 0 <= i < l.len() ==> value_doc(#[trigger] a@[i]) == l[i]),
{
    v.as_array()
}

/// Relies on `Value::is_null`: whether the value is the JSON null.
#[verifier::external_body]
fn value_is_null(v: &serde_json::Value) -> (r: bool)
    ensures
        r == (value_doc(*v) is Null),
{
    v.is_null()
}

/// Relies on `Value::as_number`: the number behind a numeric document.
#[verifier::external_body]
fn value_as_number<'a>(v: &'a serde_json::Value) -> (r: Option<&'a serde_json::Number>)
    ensures
        r is Some <==> value_doc(*v) is Num,
        r matches Some(n) ==> value_doc(*v) == JDoc::Num(num_text(*n)),
{
    v.as_number()
}

/// Relies on serde_json's `Display` for `Number`: the decimal text of the
/// number, as the document model carries it.
#[verifier::external_body]
fn number_text(n: &serde_json::Number) -> (r: String)
    ensures
        r@ == num_text(*n),
{
    n.to_string()
}

/// An ASCII decimal digit.
pub open spec fn is_digit(b: u8) -> bool {
    48 <= b && b <= 57
}

/// Every byte is an ASCII decimal digit.
pub open spec fn all_digits(s: Seq<u8>) -> bool {
    forall|i: int| 0 <= i < s.len() ==> is_digit(#[trigger] s[i])
}

/// The number named by a string of decimal digits, leading zeros allowed.
pub open spec fn digits_val(s: Seq<u8>) -> nat
    decreases s.len(),
{
    if s.len() == 0 {
        0
    } else {
        digits_val(s.drop_last()) * 10 + (s.last() - 48) as nat
    }
}

/// Ten to the `n`.
pub open spec fn pow10(n: nat) -> nat
    decreases n,
{
    if n == 0 {
        1nat
    } else {
        10 * pow10((n - 1) as nat)
    }
}

/// A decimal point at position `k` of a ratio text: one to six integer
/// digits before it, at least one fraction digit after it.
pub open spec fn dot_at(s: Seq<u8>, k: int) -> bool {
    &&& 1 <= k <= 6
    &&& k + 1 < s.len()
    &&& s[k] == 46
    &&& all_digits(s.take(k))
    &&& all_digits(s.skip(k + 1))
}

/// The texts accepted as a split ratio: a plain run of one to six digits,
/// or such a run followed by a decimal point and at least one digit.
pub open spec fn ratio_text_valid(s: Seq<u8>) -> bool {
    (1 <= s.len() <= 6 && all_digits(s)) || (exists|k: int| dot_at(s, k))
}

/// The first three fraction digits as thousandths, shorter fractions
/// padded with zeros.
pub open spec fn frac_millis(f: Seq<u8>) -> nat {
    if f.len() >= 3 {
        digits_val(f.take(3))
    } else if f.len() == 2 {
        digits_val(f) * 10
    } else {
        digits_val(f) * 100
    }
}

/// The value of a valid ratio text in thousandths, the fraction truncated
/// after three digits.
pub open spec fn ratio_millis(s: Seq<u8>) -> nat {
    if all_digits(s) {
        digits_val(s) * 1000
    } else {
        let k = choose|k: int| dot_at(s, k);
        digits_val(s.take(k)) * 1000 + frac_millis(s.skip(k + 1))
    }
}

proof fn lemma_dot_at_unique(s: Seq<u8>, k1: int, k2: int)
    requires
        dot_at(s, k1),
        dot_at(s, k2),
    ensures
        k1 == k2,
{
    if k1 < k2 {
        assert(s.take(k2)[k1] == s[k1]);
    }
    if k2 < k1 {
        assert(s.take(k1)[k2] == s[k2]);
    }
}

proof fn lemma_digits_val_step(s: Seq<u8>, i: int)
    requires
        0 <= i < s.len(),
        is_digit(s[i]),
    ensures
        digits_val(s.take(i + 1)) == digits_val(s.take(i)) * 10 + (s[i] - 48),
{
    assert(s.take(i + 1).drop_last() =~= s.take(i));
    assert(s.take(i + 1).last() == s[i]);
}

/// Accumulates the value of the digit run `b[from..to]`; `None` when a
/// byte in that range is no digit.
fn digits_value(b: &[u8], from: usize, to: usize, bound: u32) -> (r: Option<u32>)
    requires
        from <= to <= b@.len(),
        to - from <= 6,
        bound >= pow10((to - from) as nat),
    ensures
        all_digits(b@.subrange(from as int, to as int)) ==> (r matches Some(v) && v == digits_val(
            b@.subrange(from as int, to as int),
        ) && v < bound),
        !all_digits(b@.subrange(from as int, to as int)) ==> r is None,
{
    let seg = Ghost(b@.subrange(from as int, to as int));
    let mut acc: u32 = 0;
    let n = to - from;
    proof {
        assert(seg@.take(0) =~= Seq::<u8>::empty());
        lemma_pow10_monotone(0, n as nat);
    }
    for i in 0..n
        invariant
            from + n == to,
            to <= b@.len(),
            n == seg@.len(),
            n <= 6,
            seg@ == b@.subrange(from as int, to as int),
            bound >= pow10(n as nat),
            all_digits(seg@.take(i as int)),
            acc == digits_val(seg@.take(i as int)),
            acc < pow10(i as nat),
            pow10(i as nat) <= pow10(n as nat),
    {
        let d = b[from + i];
        proof {
            assert(seg@[i as int] == b@[from + i]);
        }
        if !(48 <= d && d <= 57) {
            proof {
                assert(!is_digit(seg@[i as int]));
            }
            return None;
        }
        proof {
            lemma_pow10_monotone((i + 1) as nat, n as nat);
            lemma_digits_val_step(seg@, i as int);
            assert(pow10((i + 1) as nat) == 10 * pow10(i as nat));
            assert(acc * 10 + (d - 48) < pow10((i + 1) as nat));
            assert forall|j: int| 0 <= j < i + 1 implies is_digit(
                #[trigger] seg@.take(i + 1)[j],
            ) by {
                assert(seg@.take(i + 1)[j] == seg@[j]);
                if j < i {
                    assert(seg@.take(i as int)[j] == seg@[j]);
                }
            }
        }
        acc = acc * 10 + ((d - 48) as u32);
    }
    proof {
        assert(seg@.take(n as int) =~= seg@);
    }
    Some(acc)
}

proof fn lemma_pow10_values()
    ensures
        pow10(0) == 1,
        pow10(1) == 10,
        pow10(2) == 100,
        pow10(3) == 1000,
        pow10(4) == 10000,
        pow10(5) == 100000,
        pow10(6) == 1000000,
{
    assert(pow10(0) == 1);
    assert(pow10(1) == 10);
    assert(pow10(2) == 100);
    assert(pow10(3) == 1000);
    assert(pow10(4) == 10000);
    assert(pow10(5) == 100000);
    assert(pow10(6) == 1000000);
}

proof fn lemma_pow10_monotone(a: nat, c: nat)
    requires
        a <= c,
    ensures
        pow10(a) <= pow10(c),
    decreases c,
{
    if a < c {
        lemma_pow10_monotone(a, (c - 1) as nat);
        assert(pow10(c) == 10 * pow10((c - 1) as nat));
    }
}

/// Parses the decimal text of a split ratio into thousandths: `"0.52"`
/// becomes `520`, `"1"` becomes `1000`; the fraction is truncated after
/// three digits.  Returns `None` on any other shape of text.
#[verifier::loop_isolation(false)]
pub fn ratio_millis_from_text(s: &str) -> (r: Option<u32>)
    ensures
        ratio_text_valid(s.spec_bytes()) ==> (r matches Some(v) && v == ratio_millis(
            s.spec_bytes(),
        )),
        !ratio_text_valid(s.spec_bytes()) ==> r is None,
{
    let b = s.as_bytes();
    let n = b.len();
    let mut k: usize = 0;
    while k < n && b[k] != 46
        invariant
            n == b@.len(),
            k <= n,
            forall|j: int| 0 <= j < k ==> b@[j] != 46,
        decreases n - k,
    {
        k = k + 1;
    }
    // `k` is the position of the first decimal point, or the length.
    if k < 1 || k > 6 {
        proof {
            lemma_ratio_invalid_bad_int(b@, k as int);
        }
        return None;
    }
    proof {
        lemma_pow10_values();
        lemma_pow10_monotone(k as nat, 6);
    }
    let int_part = match digits_value(b, 0, k, 1000000) {
        Some(v) => v,
        None => {
            proof {
                assert(b@.subrange(0, k as int) =~= b@.take(k as int));
                lemma_ratio_invalid_bad_digits(b@, k as int);
            }
            return None;
        },
    };
    proof {
        assert(b@.subrange(0, k as int) =~= b@.take(k as int));
    }
    if k == n {
        proof {
            assert(b@.take(k as int) =~= b@);
            assert(ratio_text_valid(b@));
            assert(ratio_millis(b@) == digits_val(b@) * 1000);
        }
        return Some(int_part * 1000);
    }
    // A decimal point: the fraction must be nonempty and all digits.
    if k + 1 >= n {
        proof {
            lemma_ratio_invalid_empty_frac(b@, k as int);
        }
        return None;
    }
    let frac_len = n - (k + 1);
    let frac_digits = if frac_len >= 3 {
        3
    } else {
        frac_len
    };
    proof {
        lemma_pow10_monotone(frac_digits as nat, 3);
    }
    let frac_raw = match digits_value(b, k + 1, k + 1 + frac_digits, 1000) {
        Some(v) => v,
        None => {
            proof {
                lemma_ratio_invalid_frac_not_digits(b@, k as int, frac_digits as int);
            }
            return None;
        },
    };
    // The rest of a long fraction must still be digits to be a number text.
    let mut j: usize = k + 1 + frac_digits;
    while j < n
        invariant
            n == b@.len(),
            k + 1 + frac_digits <= j <= n,
            forall|i: int| k + 1 + frac_digits <= i < j ==> is_digit(#[trigger] b@[i]),
        decreases n - j,
    {
        let d = b[j];
        if !(48 <= d && d <= 57) {
            proof {
                lemma_ratio_invalid_frac_tail(b@, k as int, frac_digits as int, j as int);
            }
            return None;
        }
        j = j + 1;
    }
    let frac = if frac_len == 1 {
        frac_raw * 100
    } else if frac_len == 2 {
        frac_raw * 10
    } else {
        frac_raw
    };
    proof {
        lemma_ratio_valid_with_dot(b@, k as int, frac_digits as int);
    }
    Some(int_part * 1000 + frac)
}

proof fn lemma_ratio_invalid_bad_int(s: Seq<u8>, k: int)
    requires
        0 <= k <= s.len(),
        forall|j: int| 0 <= j < k ==> s[j] != 46,
        k == s.len() || s[k] == 46,
        k < 1 || k > 6,
    ensures
        !ratio_text_valid(s),
{
    if k == s.len() {
        // No decimal point anywhere: a dot position cannot exist, and the
        // plain-digits shape needs one to six digits.
        assert forall|k2: int| !dot_at(s, k2) by {
            if 0 <= k2 < s.len() {
                assert(s[k2] != 46);
            }
        }
        if 1 <= s.len() <= 6 && all_digits(s) {
            assert(is_digit(s[0]) || s.len() > 6);
        }
    } else {
        assert(s[k] == 46);
        assert(!is_digit(s[k]));
        assert(!all_digits(s));
        assert forall|k2: int| !dot_at(s, k2) by {
            if dot_at(s, k2) {
                if k2 < k {
                    assert(s[k2] != 46);
                } else if k2 > k {
                    assert(s.take(k2)[k] == s[k]);
                    assert(!all_digits(s.take(k2)));
                } else {
                    assert(k2 == k && (k < 1 || k > 6));
                }
            }
        }
    }
}

proof fn lemma_ratio_invalid_bad_digits(s: Seq<u8>, k: int)
    requires
        1 <= k <= 6,
        k <= s.len(),
        forall|j: int| 0 <= j < k ==> s[j] != 46,
        k == s.len() || s[k] == 46,
        !all_digits(s.take(k)),
    ensures
        !ratio_text_valid(s),
{
    if all_digits(s) {
        assert forall|i: int| 0 <= i < k implies is_digit(#[trigger] s.take(k)[i]) by {
            assert(s.take(k)[i] == s[i]);
        }
    }
    assert forall|k2: int| !dot_at(s, k2) by {
        if dot_at(s, k2) {
            if k2 < k {
                assert(s[k2] != 46);
            } else if k2 == k {
                assert(all_digits(s.take(k)));
            } else {
                assert(k < s.len() && s.take(k2)[k] == s[k]);
                assert(s[k] == 46);
                assert(!all_digits(s.take(k2)));
            }
        }
    }
}

proof fn lemma_ratio_invalid_empty_frac(s: Seq<u8>, k: int)
    requires
        1 <= k <= 6,
        k < s.len(),
        s[k] == 46,
        k + 1 >= s.len(),
        forall|j: int| 0 <= j < k ==> s[j] != 46,
    ensures
        !ratio_text_valid(s),
{
    assert(!is_digit(s[k]));
    assert(!all_digits(s));
    assert forall|k2: int| !dot_at(s, k2) by {
        if dot_at(s, k2) {
            if k2 < k {
                assert(s[k2] != 46);
            } else if k2 > k {
                assert(s.take(k2)[k] == s[k]);
                assert(!all_digits(s.take(k2)));
            } else {
                assert(k2 + 1 < s.len());
            }
        }
    }
}

proof fn lemma_ratio_invalid_frac_not_digits(s: Seq<u8>, k: int, fd: int)
    requires
        1 <= k <= 6,
        k + 1 < s.len(),
        s[k] == 46,
        forall|j: int| 0 <= j < k ==> s[j] != 46,
        fd == if s.len() - (k + 1) >= 3 {
            3int
        } else {
            s.len() - (k + 1)
        },
        !all_digits(s.subrange(k + 1, k + 1 + fd)),
    ensures
        !ratio_text_valid(s),
{
    assert(!is_digit(s[k]));
    assert(!all_digits(s));
    assert forall|k2: int| !dot_at(s, k2) by {
        if dot_at(s, k2) {
            if k2 < k {
                assert(s[k2] != 46);
            } else if k2 > k {
                assert(s.take(k2)[k] == s[k]);
                assert(!all_digits(s.take(k2)));
            } else {
                assert(all_digits(s.skip(k + 1)));
                assert forall|i: int|
                    0 <= i < fd implies is_digit(#[trigger] s.subrange(k + 1, k + 1 + fd)[i]) by {
                    assert(s.subrange(k + 1, k + 1 + fd)[i] == s.skip(k + 1)[i]);
                }
            }
        }
    }
}

proof fn lemma_ratio_invalid_frac_tail(s: Seq<u8>, k: int, fd: int, j: int)
    requires
        1 <= k <= 6,
        k + 1 < s.len(),
        s[k] == 46,
        forall|i: int| 0 <= i < k ==> s[i] != 46,
        0 <= fd,
        k + 1 + fd <= j < s.len(),
        !is_digit(s[j]),
    ensures
        !ratio_text_valid(s),
{
    assert(!all_digits(s));
    assert forall|k2: int| !dot_at(s, k2) by {
        if dot_at(s, k2) {
            if k2 < k {
                assert(s[k2] != 46);
            } else if k2 > k {
                assert(s.take(k2)[k] == s[k]);
                assert(!all_digits(s.take(k2)));
            } else {
                assert(s.skip(k + 1)[j - (k + 1)] == s[(j - (k + 1)) + (k + 1)]);
                assert((j - (k + 1)) + (k + 1) == j);
                assert(!is_digit(s.skip(k + 1)[j - (k + 1)]));
                assert(!all_digits(s.skip(k + 1)));
            }
        }
    }
}

proof fn lemma_ratio_valid_with_dot(s: Seq<u8>, k: int, fd: int)
    requires
        1 <= k <= 6,
        k + 1 < s.len(),
        s[k] == 46,
        forall|i: int| 0 <= i < k ==> s[i] != 46,
        all_digits(s.take(k)),
        fd == if s.len() - (k + 1) >= 3 {
            3int
        } else {
            s.len() - (k + 1)
        },
        all_digits(s.subrange(k + 1, k + 1 + fd)),
        forall|i: int| k + 1 + fd <= i < s.len() ==> is_digit(#[trigger] s[i]),
    ensures
        ratio_text_valid(s),
        ratio_millis(s) == digits_val(s.take(k)) * 1000 + (if fd == 3 {
            digits_val(s.subrange(k + 1, k + 4))
        } else if fd == 2 {
            digits_val(s.subrange(k + 1, k + 3)) * 10
        } else {
            digits_val(s.subrange(k + 1, k + 2)) * 100
        }),
        !all_digits(s),
{
    assert(!is_digit(s[k]));
    assert(!all_digits(s));
    assert forall|i: int| 0 <= i < s.skip(k + 1).len() implies is_digit(
        #[trigger] s.skip(k + 1)[i],
    ) by {
        if i < fd {
            assert(s.subrange(k + 1, k + 1 + fd)[i] == s.skip(k + 1)[i]);
        } else {
            assert(s.skip(k + 1)[i] == s[k + 1 + i]);
        }
    }
    assert(dot_at(s, k));
    let kc = choose|k2: int| dot_at(s, k2);
    lemma_dot_at_unique(s, k, kc);
    let f = s.skip(k + 1);
    if fd == 3 {
        assert(f.len() >= 3);
        assert(f.take(3) =~= s.subrange(k + 1, k + 4));
    } else if fd == 2 {
        assert(f.len() == 2);
        assert(f =~= s.subrange(k + 1, k + 3));
    } else {
        assert(f.len() == 1);
        assert(f =~= s.subrange(k + 1, k + 2));
    }
}

/// A number field narrowed to `u32`.
pub open spec fn num_u32_of(d: JDoc) -> Option<u32> {
    match num_u64_of(d) {
        Some(n) => if n <= u32::MAX {
            Some(n as u32)
        } else {
            None
        },
        None => None,
    }
}

/// A number field narrowed to `u16`.
pub open spec fn num_u16_of(d: JDoc) -> Option<u16> {
    match num_u64_of(d) {
        Some(n) => if n <= u16::MAX {
            Some(n as u16)
        } else {
            None
        },
        None => None,
    }
}

/// A number field narrowed to `i16`.
pub open spec fn num_i16_of(d: JDoc) -> Option<i16> {
    match num_i64_of(d) {
        Some(n) => if i16::MIN <= n <= i16::MAX {
            Some(n as i16)
        } else {
            None
        },
        None => None,
    }
}

/// A number field narrowed to `i32`.
pub open spec fn num_i32_of(d: JDoc) -> Option<i32> {
    match num_i64_of(d) {
        Some(n) => if i32::MIN <= n <= i32::MAX {
            Some(n as i32)
        } else {
            None
        },
        None => None,
    }
}

/// An object's `u32` member.
pub open spec fn field_u32(d: JDoc, key: Seq<char>) -> Option<u32> {
    match obj_get(d, key) {
        Some(f) => num_u32_of(f),
        None => None,
    }
}

/// An object's `u16` member.
pub open spec fn field_u16(d: JDoc, key: Seq<char>) -> Option<u16> {
    match obj_get(d, key) {
        Some(f) => num_u16_of(f),
        None => None,
    }
}

/// An object's `u16` member under either of two keys, the first preferred.
pub open spec fn field_u16_pair(d: JDoc, primary: Seq<char>, fallback: Seq<char>) -> Option<u16> {
    match obj_get(d, primary) {
        Some(f) => num_u16_of(f),
        None => field_u16(d, fallback),
    }
}

/// An object's `i16` member.
pub open spec fn field_i16(d: JDoc, key: Seq<char>) -> Option<i16> {
    match obj_get(d, key) {
        Some(f) => num_i16_of(f),
        None => None,
    }
}

/// An object's `i32` member.
pub open spec fn field_i32(d: JDoc, key: Seq<char>) -> Option<i32> {
    match obj_get(d, key) {
        Some(f) => num_i32_of(f),
        None => None,
    }
}

/// An object's boolean member.
pub open spec fn field_bool(d: JDoc, key: Seq<char>) -> Option<bool> {
    match obj_get(d, key) {
        Some(f) => bool_of(f),
        None => None,
    }
}

/// An object's string member.
pub open spec fn field_text(d: JDoc, key: Seq<char>) -> Option<Seq<char>> {
    match obj_get(d, key) {
        Some(f) => match f {
            JDoc::Text(t) => Some(t),
            _ => None,
        },
        None => None,
    }
}

/// A split ratio read from a number's decimal text, in thousandths.
pub open spec fn ratio_of_num(d: JDoc) -> Option<Ratio> {
    match d {
        JDoc::Num(t) => if ratio_text_valid(encode_utf8(t)) {
            Some(Ratio { thousandths: ratio_millis(encode_utf8(t)) as u32 })
        } else {
            None
        },
        _ => None,
    }
}

/// An object's split-ratio member.
pub open spec fn field_ratio(d: JDoc, key: Seq<char>) -> Option<Ratio> {
    match obj_get(d, key) {
        Some(f) => ratio_of_num(f),
        None => None,
    }
}

/// The desktop layout a wire token names.
pub open spec fn layout_of_token(t: Seq<char>) -> Option<Layout> {
    if t == "tiled"@ {
        Some(Layout::Tiled)
    } else if t == "monocle"@ {
        Some(Layout::Monocle)
    } else {
        None
    }
}

/// The stacking layer a wire token names.
pub open spec fn layer_of_token(t: Seq<char>) -> Option<Layer> {
    if t == "below"@ {
        Some(Layer::Below)
    } else if t == "normal"@ {
        Some(Layer::Normal)
    } else if t == "above"@ {
        Some(Layer::Above)
    } else {
        None
    }
}

/// The window state a wire token names.
pub open spec fn node_state_of_token(t: Seq<char>) -> Option<NodeState> {
    if t == "tiled"@ {
        Some(NodeState::Tiled)
    } else if t == "pseudo_tiled"@ {
        Some(NodeState::PseudoTiled)
    } else if t == "floating"@ {
        Some(NodeState::Floating)
    } else if t == "fullscreen"@ {
        Some(NodeState::Fullscreen)
    } else {
        None
    }
}

/// The split orientation a wire token names.
pub open spec fn split_type_of_token(t: Seq<char>) -> Option<SplitType> {
    if t == "horizontal"@ {
        Some(SplitType::Horizontal)
    } else if t == "vertical"@ {
        Some(SplitType::Vertical)
    } else {
        None
    }
}

/// The preselection direction a wire token names.
pub open spec fn direction_of_token(t: Seq<char>) -> Option<Direction> {
    if t == "north"@ {
        Some(Direction::North)
    } else if t == "west"@ {
        Some(Direction::West)
    } else if t == "south"@ {
        Some(Direction::South)
    } else if t == "east"@ {
        Some(Direction::East)
    } else {
        None
    }
}

/// An object's layout-token member.
pub open spec fn field_layout(d: JDoc, key: Seq<char>) -> Option<Layout> {
    match field_text(d, key) {
        Some(t) => layout_of_token(t),
        None => None,
    }
}

/// An object's layer-token member.
pub open spec fn field_layer(d: JDoc, key: Seq<char>) -> Option<Layer> {
    match field_text(d, key) {
        Some(t) => layer_of_token(t),
        None => None,
    }
}

/// An object's window-state-token member.
pub open spec fn field_node_state(d: JDoc, key: Seq<char>) -> Option<NodeState> {
    match field_text(d, key) {
        Some(t) => node_state_of_token(t),
        None => None,
    }
}

/// An object's split-orientation-token member.
pub open spec fn field_split_type(d: JDoc, key: Seq<char>) -> Option<SplitType> {
    match field_text(d, key) {
        Some(t) => split_type_of_token(t),
        None => None,
    }
}

/// An object's direction-token member.
pub open spec fn field_direction(d: JDoc, key: Seq<char>) -> Option<Direction> {
    match field_text(d, key) {
        Some(t) => direction_of_token(t),
        None => None,
    }
}

/// The rectangle a document describes: `x`, `y`, `width`, `height`.
pub open spec fn rect_of(d: JDoc) -> Option<Rectangle> {
    match (field_i16(d, "x"@), field_i16(d, "y"@), field_u16(d, "width"@), field_u16(
        d,
        "height"@,
    )) {
        (Some(x), Some(y), Some(width), Some(height)) => Some(Rectangle { x, y, width, height }),
        _ => None,
    }
}

/// An object's rectangle member.
pub open spec fn field_rect(d: JDoc, key: Seq<char>) -> Option<Rectangle> {
    match obj_get(d, key) {
        Some(f) => rect_of(f),
        None => None,
    }
}

/// The padding a document describes.
pub open spec fn padding_of(d: JDoc) -> Option<Padding> {
    match (field_i16(d, "top"@), field_i16(d, "right"@), field_i16(d, "bottom"@), field_i16(
        d,
        "left"@,
    )) {
        (Some(top), Some(right), Some(bottom), Some(left)) => Some(
            Padding { top, right, bottom, left },
        ),
        _ => None,
    }
}

/// An object's padding member.
pub open spec fn field_padding(d: JDoc, key: Seq<char>) -> Option<Padding> {
    match obj_get(d, key) {
        Some(f) => padding_of(f),
        None => None,
    }
}

/// The size constraints a document describes; either spelling of each key
/// is taken, the snake one preferred.
pub open spec fn constraints_of(d: JDoc) -> Option<Constraints> {
    match (field_u16_pair(d, "min_width"@, "minWidth"@), field_u16_pair(
        d,
        "min_height"@,
        "minHeight"@,
    )) {
        (Some(min_width), Some(min_height)) => Some(Constraints { min_width, min_height }),
        _ => None,
    }
}

/// An object's constraints member.
pub open spec fn field_constraints(d: JDoc, key: Seq<char>) -> Option<Constraints> {
    match obj_get(d, key) {
        Some(f) => constraints_of(f),
        None => None,
    }
}

/// The preselection a document describes.
pub open spec fn presel_of(d: JDoc) -> Option<Presel> {
    match (field_direction(d, "splitDir"@), field_ratio(d, "splitRatio"@)) {
        (Some(split_dir), Some(split_ratio)) => Some(Presel { split_dir, split_ratio }),
        _ => None,
    }
}

/// The coordinate triple a document describes.
pub open spec fn coords_of(d: JDoc) -> Option<NodeCoordinates> {
    match (field_u32(d, "monitorId"@), field_u32(d, "desktopId"@), field_u32(d, "nodeId"@)) {
        (Some(monitor_id), Some(desktop_id), Some(node_id)) => Some(
            NodeCoordinates { monitor_id, desktop_id, node_id },
        ),
        _ => None,
    }
}

/// The client a document describes.
pub open spec fn client_of(d: JDoc) -> Option<ClientV> {
    match (field_u16(d, "borderWidth"@), field_text(d, "className"@), field_text(
        d,
        "instanceName"@,
    ), field_rect(d, "floatingRectangle"@), field_rect(d, "tiledRectangle"@)) {
        (
            Some(border_width),
            Some(class_name),
            Some(instance_name),
            Some(floating_rectangle),
            Some(tiled_rectangle),
        ) => match (field_layer(d, "lastLayer"@), field_layer(d, "layer"@), field_node_state(
            d,
            "lastState"@,
        ), field_node_state(d, "state"@), field_bool(d, "shown"@), field_bool(d, "urgent"@)) {
            (
                Some(last_layer),
                Some(layer),
                Some(last_state),
                Some(state),
                Some(shown),
                Some(urgent),
            ) => Some(
                ClientV {
                    border_width,
                    class_name,
                    floating_rectangle,
                    instance_name,
                    last_layer,
                    last_state,
                    layer,
                    shown,
                    state,
                    tiled_rectangle,
                    urgent,
                },
            ),
            _ => None,
        },
        _ => None,
    }
}

/// The optional client member of a node document: null is an absent
/// client, anything else must describe one.
pub open spec fn opt_client_of(d: JDoc) -> Option<Option<ClientV>> {
    match obj_get(d, "client"@) {
        Some(f) => if f is Null {
            Some(None)
        } else {
            match client_of(f) {
                Some(c) => Some(Some(c)),
                None => None,
            }
        },
        None => None,
    }
}

/// The optional preselection member of a node document.
pub open spec fn opt_presel_of(d: JDoc) -> Option<Option<Presel>> {
    match obj_get(d, "presel"@) {
        Some(f) => if f is Null {
            Some(None)
        } else {
            match presel_of(f) {
                Some(p) => Some(Some(p)),
                None => None,
            }
        },
        None => None,
    }
}

/// The optional child member of a node document: null is an absent child,
/// anything else must describe a subtree within the depth budget.
pub open spec fn child_of(d: JDoc, key: Seq<char>, depth: nat) -> Option<Option<NodeV>>
    decreases depth, 1int,
{
    match obj_get(d, key) {
        Some(f) => if f is Null {
            Some(None)
        } else {
            match node_of(f, depth) {
                Some(n) => Some(Some(n)),
                None => None,
            }
        },
        None => None,
    }
}

/// The node a document describes, to the given depth budget: all fields
/// present and well shaped, the children in a pair or absent together,
/// no client on an inner node.
pub open spec fn node_of(d: JDoc, depth: nat) -> Option<NodeV>
    decreases depth, 0int,
{
    if depth == 0 {
        None
    } else {
        match (field_u32(d, "id"@), opt_client_of(d), field_constraints(d, "constraints"@),
        opt_presel_of(d)) {
            (Some(id), Some(client), Some(constraints), Some(presel)) => match (field_rect(
                d,
                "rectangle"@,
            ), field_ratio(d, "splitRatio"@), field_split_type(d, "splitType"@)) {
                (Some(rectangle), Some(split_ratio), Some(split_type)) => match (field_bool(
                    d,
                    "hidden"@,
                ), field_bool(d, "locked"@), field_bool(d, "marked"@), field_bool(d, "private"@),
                field_bool(d, "sticky"@), field_bool(d, "vacant"@)) {
                    (
                        Some(hidden),
                        Some(locked),
                        Some(marked),
                        Some(private),
                        Some(sticky),
                        Some(vacant),
                    ) => match (child_of(d, "firstChild"@, (depth - 1) as nat), child_of(
                        d,
                        "secondChild"@,
                        (depth - 1) as nat,
                    )) {
                        (Some(first), Some(second)) => if (first is Some) != (second is Some) {
                            None
                        } else if first is Some && client is Some {
                            None
                        } else {
                            Some(
                                NodeV {
                                    client,
                                    constraints,
                                    children: (match first {
                                        Some(f) => seq![f],
                                        None => Seq::empty(),
                                    }) + (match second {
                                        Some(sc) => seq![sc],
                                        None => Seq::empty(),
                                    }),
                                    hidden,
                                    id,
                                    locked,
                                    marked,
                                    presel,
                                    private,
                                    rectangle,
                                    split_ratio,
                                    split_type,
                                    sticky,
                                    vacant,
                                },
                            )
                        },
                        _ => None,
                    },
                    _ => None,
                },
                _ => None,
            },
            _ => None,
        }
    }
}

/// The optional tree of a desktop document: null is an empty desktop.
pub open spec fn root_of(d: JDoc) -> Option<Option<NodeV>> {
    match obj_get(d, "root"@) {
        Some(f) => if f is Null {
            Some(None)
        } else {
            match node_of(f, MAX_TREE_DEPTH as nat) {
                Some(n) => Some(Some(n)),
                None => None,
            }
        },
        None => None,
    }
}

/// The desktop a document describes.
pub open spec fn desktop_of(d: JDoc) -> Option<DesktopV> {
    match (field_u16(d, "borderWidth"@), field_u32(d, "focusedNodeId"@), field_u32(d, "id"@),
    field_layout(d, "layout"@), field_layout(d, "userLayout"@)) {
        (Some(border_width), Some(focused_node_id), Some(id), Some(layout), Some(user_layout)) => match (
            field_text(d, "name"@),
            field_padding(d, "padding"@),
            field_i32(d, "windowGap"@),
            root_of(d),
        ) {
            (Some(name), Some(padding), Some(window_gap), Some(root)) => Some(
                DesktopV {
                    border_width,
                    focused_node_id,
                    id,
                    layout,
                    name,
                    padding,
                    root,
                    user_layout,
                    window_gap,
                },
            ),
            _ => None,
        },
        _ => None,
    }
}

/// The desktops of an array of documents: every element must describe one.
pub open spec fn desktops_of(l: Seq<JDoc>) -> Option<Seq<DesktopV>> {
    if forall|i: int| 0 <= i < l.len() ==> (#[trigger] desktop_of(l[i])) is Some {
        Some(Seq::new(l.len(), |i: int| desktop_of(l[i])->Some_0))
    } else {
        None
    }
}

/// An object's desktop-array member.
pub open spec fn field_desktops(d: JDoc, key: Seq<char>) -> Option<Seq<DesktopV>> {
    match obj_get(d, key) {
        Some(f) => match f {
            JDoc::Arr(l) => desktops_of(l),
            _ => None,
        },
        None => None,
    }
}

/// The monitor a document describes.
pub open spec fn monitor_of(d: JDoc) -> Option<MonitorV> {
    match (field_u16(d, "borderWidth"@), field_u32(d, "focusedDesktopId"@), field_u32(d, "id"@),
    field_text(d, "name"@), field_padding(d, "padding"@), field_u32(d, "randrId"@)) {
        (
            Some(border_width),
            Some(focused_desktop_id),
            Some(id),
            Some(name),
            Some(padding),
            Some(randr_id),
        ) => match (field_rect(d, "rectangle"@), field_u32(d, "stickyCount"@), field_i32(
            d,
            "windowGap"@,
        ), field_bool(d, "wired"@), field_desktops(d, "desktops"@)) {
            (Some(rectangle), Some(sticky_count), Some(window_gap), Some(wired), Some(desktops)) => Some(
                MonitorV {
                    border_width,
                    desktops,
                    focused_desktop_id,
                    id,
                    name,
                    padding,
                    randr_id,
                    rectangle,
                    sticky_count,
                    window_gap,
                    wired,
                },
            ),
            _ => None,
        },
        _ => None,
    }
}

/// The coordinate triples of an array of documents.
pub open spec fn coords_list_of(l: Seq<JDoc>) -> Option<Seq<NodeCoordinates>> {
    if forall|i: int| 0 <= i < l.len() ==> (#[trigger] coords_of(l[i])) is Some {
        Some(Seq::new(l.len(), |i: int| coords_of(l[i])->Some_0))
    } else {
        None
    }
}

/// The window ids of an array of documents.
pub open spec fn stacking_of(l: Seq<JDoc>) -> Option<Seq<u32>> {
    if forall|i: int| 0 <= i < l.len() ==> (#[trigger] num_u32_of(l[i])) is Some {
        Some(Seq::new(l.len(), |i: int| num_u32_of(l[i])->Some_0))
    } else {
        None
    }
}

/// The monitors of an array of documents.
pub open spec fn monitors_of(l: Seq<JDoc>) -> Option<Seq<MonitorV>> {
    if forall|i: int| 0 <= i < l.len() ==> (#[trigger] monitor_of(l[i])) is Some {
        Some(Seq::new(l.len(), |i: int| monitor_of(l[i])->Some_0))
    } else {
        None
    }
}

/// An object's coordinate-array member.
pub open spec fn field_coords_list(d: JDoc, key: Seq<char>) -> Option<Seq<NodeCoordinates>> {
    match obj_get(d, key) {
        Some(f) => match f {
            JDoc::Arr(l) => coords_list_of(l),
            _ => None,
        },
        None => None,
    }
}

/// An object's id-array member.
pub open spec fn field_stacking(d: JDoc, key: Seq<char>) -> Option<Seq<u32>> {
    match obj_get(d, key) {
        Some(f) => match f {
            JDoc::Arr(l) => stacking_of(l),
            _ => None,
        },
        None => None,
    }
}

/// An object's monitor-array member.
pub open spec fn field_monitors(d: JDoc, key: Seq<char>) -> Option<Seq<MonitorV>> {
    match obj_get(d, key) {
        Some(f) => match f {
            JDoc::Arr(l) => monitors_of(l),
            _ => None,
        },
        None => None,
    }
}

/// The whole manager state a document describes.
pub open spec fn state_of(d: JDoc) -> Option<BspwmStateV> {
    match (field_u32(d, "clientsCount"@), field_u32(d, "focusedMonitorId"@), field_u32(
        d,
        "primaryMonitorId"@,
    ), field_coords_list(d, "focusHistory"@), field_stacking(d, "stackingList"@), field_monitors(
        d,
        "monitors"@,
    )) {
        (
            Some(clients_count),
            Some(focused_monitor_id),
            Some(primary_monitor_id),
            Some(focus_history),
            Some(stacking_list),
            Some(monitors),
        ) => Some(
            BspwmStateV {
                clients_count,
                focus_history,
                focused_monitor_id,
                monitors,
                primary_monitor_id,
                stacking_list,
            },
        ),
        _ => None,
    }
}

/// The `tiled` / `monocle` tokens of a desktop layout; any other token is
/// unknown and refused.
pub fn layout_from_token(s: &str) -> (r: Option<Layout>)
    ensures
        r == layout_of_token(s@),
{
    if str_eq(s, "tiled") {
        Some(Layout::Tiled)
    } else if str_eq(s, "monocle") {
        Some(Layout::Monocle)
    } else {
        None
    }
}

/// The `below` / `normal` / `above` tokens of a stacking layer.
pub fn layer_from_token(s: &str) -> (r: Option<Layer>)
    ensures
        r == layer_of_token(s@),
{
    if str_eq(s, "below") {
        Some(Layer::Below)
    } else if str_eq(s, "normal") {
        Some(Layer::Normal)
    } else if str_eq(s, "above") {
        Some(Layer::Above)
    } else {
        None
    }
}

/// The `tiled` / `pseudo_tiled` / `floating` / `fullscreen` tokens of a
/// window state.
pub fn node_state_from_token(s: &str) -> (r: Option<NodeState>)
    ensures
        r == node_state_of_token(s@),
{
    if str_eq(s, "tiled") {
        Some(NodeState::Tiled)
    } else if str_eq(s, "pseudo_tiled") {
        Some(NodeState::PseudoTiled)
    } else if str_eq(s, "floating") {
        Some(NodeState::Floating)
    } else if str_eq(s, "fullscreen") {
        Some(NodeState::Fullscreen)
    } else {
        None
    }
}

/// The `horizontal` / `vertical` tokens of a split orientation.
pub fn split_type_from_token(s: &str) -> (r: Option<SplitType>)
    ensures
        r == split_type_of_token(s@),
{
    if str_eq(s, "horizontal") {
        Some(SplitType::Horizontal)
    } else if str_eq(s, "vertical") {
        Some(SplitType::Vertical)
    } else {
        None
    }
}

/// The `north` / `west` / `south` / `east` tokens of a preselection
/// direction.
pub fn direction_from_token(s: &str) -> (r: Option<Direction>)
    ensures
        r == direction_of_token(s@),
{
    if str_eq(s, "north") {
        Some(Direction::North)
    } else if str_eq(s, "west") {
        Some(Direction::West)
    } else if str_eq(s, "south") {
        Some(Direction::South)
    } else if str_eq(s, "east") {
        Some(Direction::East)
    } else {
        None
    }
}

/// The named field of a JSON object, or the decode error.
fn get_field<'a>(v: &'a serde_json::Value, key: &str) -> (r: Result<
    &'a serde_json::Value,
    MessageError,
>)
    ensures
        r is Ok <==> obj_get(value_doc(*v), key@) is Some,
        r matches Ok(f) ==> Some(value_doc(*f)) == obj_get(value_doc(*v), key@),
        r matches Err(e) ==> e == MessageError::JsonCouldntParse,
{
    match value_get(v, key) {
        Some(f) => Ok(f),
        None => Err(MessageError::JsonCouldntParse),
    }
}

/// A field that must be an unsigned integer fitting `u32`.
fn get_u32(v: &serde_json::Value, key: &str) -> (r: Result<u32, MessageError>)
    ensures
        match field_u32(value_doc(*v), key@) {
            Some(n) => r == Ok::<u32, MessageError>(n),
            None => r == Err::<u32, MessageError>(MessageError::JsonCouldntParse),
        },
{
    let f = match get_field(v, key) {
        Ok(f) => f,
        Err(e) => {
            return Err(e);
        },
    };
    match value_as_u64(f) {
        Some(n) => if n <= u32::MAX as u64 {
            Ok(n as u32)
        } else {
            Err(MessageError::JsonCouldntParse)
        },
        None => Err(MessageError::JsonCouldntParse),
    }
}

/// A field that must be an unsigned integer fitting `u16`.
fn get_u16(v: &serde_json::Value, key: &str) -> (r: Result<u16, MessageError>)
    ensures
        match field_u16(value_doc(*v), key@) {
            Some(n) => r == Ok::<u16, MessageError>(n),
            None => r == Err::<u16, MessageError>(MessageError::JsonCouldntParse),
        },
{
    let f = match get_field(v, key) {
        Ok(f) => f,
        Err(e) => {
            return Err(e);
        },
    };
    match value_as_u64(f) {
        Some(n) => if n <= u16::MAX as u64 {
            Ok(n as u16)
        } else {
            Err(MessageError::JsonCouldntParse)
        },
        None => Err(MessageError::JsonCouldntParse),
    }
}

/// A field that must be a signed integer fitting `i16`.
fn get_i16(v: &serde_json::Value, key: &str) -> (r: Result<i16, MessageError>)
    ensures
        match field_i16(value_doc(*v), key@) {
            Some(n) => r == Ok::<i16, MessageError>(n),
            None => r == Err::<i16, MessageError>(MessageError::JsonCouldntParse),
        },
{
    let f = match get_field(v, key) {
        Ok(f) => f,
        Err(e) => {
            return Err(e);
        },
    };
    match value_as_i64(f) {
        Some(n) => if i16::MIN as i64 <= n && n <= i16::MAX as i64 {
            Ok(n as i16)
        } else {
            Err(MessageError::JsonCouldntParse)
        },
        None => Err(MessageError::JsonCouldntParse),
    }
}

/// A field that must be a signed integer fitting `i32`.
fn get_i32(v: &serde_json::Value, key: &str) -> (r: Result<i32, MessageError>)
    ensures
        match field_i32(value_doc(*v), key@) {
            Some(n) => r == Ok::<i32, MessageError>(n),
            None => r == Err::<i32, MessageError>(MessageError::JsonCouldntParse),
        },
{
    let f = match get_field(v, key) {
        Ok(f) => f,
        Err(e) => {
            return Err(e);
        },
    };
    match value_as_i64(f) {
        Some(n) => if i32::MIN as i64 <= n && n <= i32::MAX as i64 {
            Ok(n as i32)
        } else {
            Err(MessageError::JsonCouldntParse)
        },
        None => Err(MessageError::JsonCouldntParse),
    }
}

/// A field that must be a boolean.
fn get_bool(v: &serde_json::Value, key: &str) -> (r: Result<bool, MessageError>)
    ensures
        match field_bool(value_doc(*v), key@) {
            Some(n) => r == Ok::<bool, MessageError>(n),
            None => r == Err::<bool, MessageError>(MessageError::JsonCouldntParse),
        },
{
    let f = match get_field(v, key) {
        Ok(f) => f,
        Err(e) => {
            return Err(e);
        },
    };
    match value_as_bool(f) {
        Some(b) => Ok(b),
        None => Err(MessageError::JsonCouldntParse),
    }
}

/// A field that must be a string.
fn get_string(v: &serde_json::Value, key: &str) -> (r: Result<String, MessageError>)
    ensures
        match field_text(value_doc(*v), key@) {
            Some(t) => r matches Ok(out) && out@ == t,
            None => r == Err::<String, MessageError>(MessageError::JsonCouldntParse),
        },
{
    let f = match get_field(v, key) {
        Ok(f) => f,
        Err(e) => {
            return Err(e);
        },
    };
    match value_as_str(f) {
        Some(s) => Ok(s.to_owned()),
        None => Err(MessageError::JsonCouldntParse),
    }
}

/// A field that must be a number whose text is a valid ratio.
fn get_ratio(v: &serde_json::Value, key: &str) -> (r: Result<Ratio, MessageError>)
    ensures
        match field_ratio(value_doc(*v), key@) {
            Some(ratio) => r == Ok::<Ratio, MessageError>(ratio),
            None => r == Err::<Ratio, MessageError>(MessageError::JsonCouldntParse),
        },
{
    let f = match get_field(v, key) {
        Ok(f) => f,
        Err(e) => {
            return Err(e);
        },
    };
    let n = match value_as_number(f) {
        Some(n) => n,
        None => {
            return Err(MessageError::JsonCouldntParse);
        },
    };
    let text = number_text(n);
    match ratio_millis_from_text(text.as_str()) {
        Some(thousandths) => Ok(Ratio { thousandths }),
        None => Err(MessageError::JsonCouldntParse),
    }
}

/// Decodes a rectangle object: `x`, `y`, `width`, `height`.
fn rectangle_from_value(v: &serde_json::Value) -> (r: Result<Rectangle, MessageError>)
    ensures
        match rect_of(value_doc(*v)) {
            Some(rect) => r == Ok::<Rectangle, MessageError>(rect),
            None => r == Err::<Rectangle, MessageError>(MessageError::JsonCouldntParse),
        },
{
    let x = match get_i16(v, "x") {
        Ok(n) => n,
        Err(e) => {
            return Err(e);
        },
    };
    let y = match get_i16(v, "y") {
        Ok(n) => n,
        Err(e) => {
            return Err(e);
        },
    };
    let width = match get_u16(v, "width") {
        Ok(n) => n,
        Err(e) => {
            return Err(e);
        },
    };
    let height = match get_u16(v, "height") {
        Ok(n) => n,
        Err(e) => {
            return Err(e);
        },
    };
    Ok(Rectangle { x, y, width, height })
}

/// Decodes a padding object: `top`, `right`, `bottom`, `left`.
fn padding_from_value(v: &serde_json::Value) -> (r: Result<Padding, MessageError>)
    ensures
        match padding_of(value_doc(*v)) {
            Some(p) => r == Ok::<Padding, MessageError>(p),
            None => r == Err::<Padding, MessageError>(MessageError::JsonCouldntParse),
        },
{
    let top = match get_i16(v, "top") {
        Ok(n) => n,
        Err(e) => {
            return Err(e);
        },
    };
    let right = match get_i16(v, "right") {
        Ok(n) => n,
        Err(e) => {
            return Err(e);
        },
    };
    let bottom = match get_i16(v, "bottom") {
        Ok(n) => n,
        Err(e) => {
            return Err(e);
        },
    };
    let left = match get_i16(v, "left") {
        Ok(n) => n,
        Err(e) => {
            return Err(e);
        },
    };
    Ok(Padding { top, right, bottom, left })
}

/// A field that must be an unsigned integer fitting `u16`, under either
/// of two keys; the first is taken when present.
fn get_u16_pair(v: &serde_json::Value, primary: &str, fallback: &str) -> (r: Result<
    u16,
    MessageError,
>)
    ensures
        match field_u16_pair(value_doc(*v), primary@, fallback@) {
            Some(n) => r == Ok::<u16, MessageError>(n),
            None => r == Err::<u16, MessageError>(MessageError::JsonCouldntParse),
        },
{
    match value_get(v, primary) {
        Some(f) => match value_as_u64(f) {
            Some(n) => if n <= u16::MAX as u64 {
                Ok(n as u16)
            } else {
                Err(MessageError::JsonCouldntParse)
            },
            None => Err(MessageError::JsonCouldntParse),
        },
        None => get_u16(v, fallback),
    }
}

/// Decodes a constraints object.  The manager's wire name of these keys
/// has varied in spelling, so both the snake and the camel form of each
/// are accepted, the snake one first.
fn constraints_from_value(v: &serde_json::Value) -> (r: Result<Constraints, MessageError>)
    ensures
        match constraints_of(value_doc(*v)) {
            Some(c) => r == Ok::<Constraints, MessageError>(c),
            None => r == Err::<Constraints, MessageError>(MessageError::JsonCouldntParse),
        },
{
    let min_width = match get_u16_pair(v, "min_width", "minWidth") {
        Ok(n) => n,
        Err(e) => {
            return Err(e);
        },
    };
    let min_height = match get_u16_pair(v, "min_height", "minHeight") {
        Ok(n) => n,
        Err(e) => {
            return Err(e);
        },
    };
    Ok(Constraints { min_width, min_height })
}

/// Decodes a preselection object: `splitDir` token and `splitRatio`.
fn presel_from_value(v: &serde_json::Value) -> (r: Result<Presel, MessageError>)
    ensures
        match presel_of(value_doc(*v)) {
            Some(p) => r == Ok::<Presel, MessageError>(p),
            None => r == Err::<Presel, MessageError>(MessageError::JsonCouldntParse),
        },
{
    let dir_field = match get_field(v, "splitDir") {
        Ok(f) => f,
        Err(e) => {
            return Err(e);
        },
    };
    let dir_str = match value_as_str(dir_field) {
        Some(s) => s,
        None => {
            return Err(MessageError::JsonCouldntParse);
        },
    };
    let split_dir = match direction_from_token(dir_str) {
        Some(d) => d,
        None => {
            return Err(MessageError::JsonCouldntParse);
        },
    };
    let split_ratio = match get_ratio(v, "splitRatio") {
        Ok(ratio) => ratio,
        Err(e) => {
            return Err(e);
        },
    };
    Ok(Presel { split_dir, split_ratio })
}

/// Decodes a client object, the window of a leaf node.
fn client_from_value(v: &serde_json::Value) -> (r: Result<Client, MessageError>)
    ensures
        match client_of(value_doc(*v)) {
            Some(cv) => r matches Ok(c) && client_view(c) == cv,
            None => r == Err::<Client, MessageError>(MessageError::JsonCouldntParse),
        },
{
    let border_width = match get_u16(v, "borderWidth") {
        Ok(n) => n,
        Err(e) => {
            return Err(e);
        },
    };
    let class_name = match get_string(v, "className") {
        Ok(s) => s,
        Err(e) => {
            return Err(e);
        },
    };
    let instance_name = match get_string(v, "instanceName") {
        Ok(s) => s,
        Err(e) => {
            return Err(e);
        },
    };
    let floating_rectangle = match get_field(v, "floatingRectangle") {
        Ok(f) => match rectangle_from_value(f) {
            Ok(rect) => rect,
            Err(e) => {
                return Err(e);
            },
        },
        Err(e) => {
            return Err(e);
        },
    };
    let tiled_rectangle = match get_field(v, "tiledRectangle") {
        Ok(f) => match rectangle_from_value(f) {
            Ok(rect) => rect,
            Err(e) => {
                return Err(e);
            },
        },
        Err(e) => {
            return Err(e);
        },
    };
    let last_layer = match get_layer(v, "lastLayer") {
        Ok(l) => l,
        Err(e) => {
            return Err(e);
        },
    };
    let layer = match get_layer(v, "layer") {
        Ok(l) => l,
        Err(e) => {
            return Err(e);
        },
    };
    let last_state = match get_node_state(v, "lastState") {
        Ok(s) => s,
        Err(e) => {
            return Err(e);
        },
    };
    let state = match get_node_state(v, "state") {
        Ok(s) => s,
        Err(e) => {
            return Err(e);
        },
    };
    let shown = match get_bool(v, "shown") {
        Ok(b) => b,
        Err(e) => {
            return Err(e);
        },
    };
    let urgent = match get_bool(v, "urgent") {
        Ok(b) => b,
        Err(e) => {
            return Err(e);
        },
    };
    Ok(
        Client {
            border_width,
            class_name,
            floating_rectangle,
            instance_name,
            last_layer,
            last_state,
            layer,
            shown,
            state,
            tiled_rectangle,
            urgent,
        },
    )
}

/// A field that must be a stacking-layer token.
fn get_layer(v: &serde_json::Value, key: &str) -> (r: Result<Layer, MessageError>)
    ensures
        match field_layer(value_doc(*v), key@) {
            Some(n) => r == Ok::<Layer, MessageError>(n),
            None => r == Err::<Layer, MessageError>(MessageError::JsonCouldntParse),
        },
{
    let f = match get_field(v, key) {
        Ok(f) => f,
        Err(e) => {
            return Err(e);
        },
    };
    let s = match value_as_str(f) {
        Some(s) => s,
        None => {
            return Err(MessageError::JsonCouldntParse);
        },
    };
    match layer_from_token(s) {
        Some(l) => Ok(l),
        None => Err(MessageError::JsonCouldntParse),
    }
}

/// A field that must be a window-state token.
fn get_node_state(v: &serde_json::Value, key: &str) -> (r: Result<NodeState, MessageError>)
    ensures
        match field_node_state(value_doc(*v), key@) {
            Some(n) => r == Ok::<NodeState, MessageError>(n),
            None => r == Err::<NodeState, MessageError>(MessageError::JsonCouldntParse),
        },
{
    let f = match get_field(v, key) {
        Ok(f) => f,
        Err(e) => {
            return Err(e);
        },
    };
    let s = match value_as_str(f) {
        Some(s) => s,
        None => {
            return Err(MessageError::JsonCouldntParse);
        },
    };
    match node_state_from_token(s) {
        Some(st) => Ok(st),
        None => Err(MessageError::JsonCouldntParse),
    }
}

/// A field that must be a desktop-layout token.
fn get_layout(v: &serde_json::Value, key: &str) -> (r: Result<Layout, MessageError>)
    ensures
        match field_layout(value_doc(*v), key@) {
            Some(n) => r == Ok::<Layout, MessageError>(n),
            None => r == Err::<Layout, MessageError>(MessageError::JsonCouldntParse),
        },
{
    let f = match get_field(v, key) {
        Ok(f) => f,
        Err(e) => {
            return Err(e);
        },
    };
    let s = match value_as_str(f) {
        Some(s) => s,
        None => {
            return Err(MessageError::JsonCouldntParse);
        },
    };
    match layout_from_token(s) {
        Some(l) => Ok(l),
        None => Err(MessageError::JsonCouldntParse),
    }
}

/// How deep a decoded tiling tree may nest.  The JSON reader refuses
/// documents nested deeper than this before the tree decoder ever runs, so
/// the bound loses no document that could otherwise be decoded.
pub const MAX_TREE_DEPTH: u32 = 128;

/// Decodes a node object and its whole subtree.  Enforces the tree
/// invariant: a node carrying exactly one of its two children, or a client
/// on an inner node, is malformed and refused, never traversed.
fn node_from_value(v: &serde_json::Value, depth: u32) -> (r: Result<Node, MessageError>)
    ensures
        r matches Ok(n) ==> n.wf(),
        match node_of(value_doc(*v), depth as nat) {
            Some(nv) => r matches Ok(n) && node_view(n) == nv,
            None => r == Err::<Node, MessageError>(MessageError::JsonCouldntParse),
        },
    decreases depth,
{
    if depth == 0 {
        return Err(MessageError::JsonCouldntParse);
    }
    let id = match get_u32(v, "id") {
        Ok(n) => n,
        Err(e) => {
            return Err(e);
        },
    };
    let client = match get_field(v, "client") {
        Ok(f) => if value_is_null(f) {
            None
        } else {
            match client_from_value(f) {
                Ok(c) => Some(c),
                Err(e) => {
                    return Err(e);
                },
            }
        },
        Err(e) => {
            return Err(e);
        },
    };
    let constraints = match get_field(v, "constraints") {
        Ok(f) => match constraints_from_value(f) {
            Ok(c) => c,
            Err(e) => {
                return Err(e);
            },
        },
        Err(e) => {
            return Err(e);
        },
    };
    let presel = match get_field(v, "presel") {
        Ok(f) => if value_is_null(f) {
            None
        } else {
            match presel_from_value(f) {
                Ok(p) => Some(p),
                Err(e) => {
                    return Err(e);
                },
            }
        },
        Err(e) => {
            return Err(e);
        },
    };
    let rectangle = match get_field(v, "rectangle") {
        Ok(f) => match rectangle_from_value(f) {
            Ok(rect) => rect,
            Err(e) => {
                return Err(e);
            },
        },
        Err(e) => {
            return Err(e);
        },
    };
    let split_ratio = match get_ratio(v, "splitRatio") {
        Ok(ratio) => ratio,
        Err(e) => {
            return Err(e);
        },
    };
    let split_type = match get_field(v, "splitType") {
        Ok(f) => match value_as_str(f) {
            Some(s) => match split_type_from_token(s) {
                Some(t) => t,
                None => {
                    return Err(MessageError::JsonCouldntParse);
                },
            },
            None => {
                return Err(MessageError::JsonCouldntParse);
            },
        },
        Err(e) => {
            return Err(e);
        },
    };
    let hidden = match get_bool(v, "hidden") {
        Ok(b) => b,
        Err(e) => {
            return Err(e);
        },
    };
    let locked = match get_bool(v, "locked") {
        Ok(b) => b,
        Err(e) => {
            return Err(e);
        },
    };
    let marked = match get_bool(v, "marked") {
        Ok(b) => b,
        Err(e) => {
            return Err(e);
        },
    };
    let private = match get_bool(v, "private") {
        Ok(b) => b,
        Err(e) => {
            return Err(e);
        },
    };
    let sticky = match get_bool(v, "sticky") {
        Ok(b) => b,
        Err(e) => {
            return Err(e);
        },
    };
    let vacant = match get_bool(v, "vacant") {
        Ok(b) => b,
        Err(e) => {
            return Err(e);
        },
    };
    let first_child = match get_field(v, "firstChild") {
        Ok(f) => if value_is_null(f) {
            None
        } else {
            match node_from_value(f, depth - 1) {
                Ok(n) => Some(Box::new(n)),
                Err(e) => {
                    return Err(e);
                },
            }
        },
        Err(e) => {
            return Err(e);
        },
    };
    let second_child = match get_field(v, "secondChild") {
        Ok(f) => if value_is_null(f) {
            None
        } else {
            match node_from_value(f, depth - 1) {
                Ok(n) => Some(Box::new(n)),
                Err(e) => {
                    return Err(e);
                },
            }
        },
        Err(e) => {
            return Err(e);
        },
    };
    if first_child.is_some() != second_child.is_some() {
        return Err(MessageError::JsonCouldntParse);
    }
    if first_child.is_some() && client.is_some() {
        return Err(MessageError::JsonCouldntParse);
    }
    Ok(
        Node {
            client,
            constraints,
            first_child,
            hidden,
            id,
            locked,
            marked,
            presel,
            private,
            rectangle,
            second_child,
            split_ratio,
            split_type,
            sticky,
            vacant,
        },
    )
}

/// Decodes a coordinate triple: `monitorId`, `desktopId`, `nodeId`.
fn coordinates_from_value(v: &serde_json::Value) -> (r: Result<NodeCoordinates, MessageError>)
    ensures
        match coords_of(value_doc(*v)) {
            Some(c) => r == Ok::<NodeCoordinates, MessageError>(c),
            None => r == Err::<NodeCoordinates, MessageError>(MessageError::JsonCouldntParse),
        },
{
    let monitor_id = match get_u32(v, "monitorId") {
        Ok(n) => n,
        Err(e) => {
            return Err(e);
        },
    };
    let desktop_id = match get_u32(v, "desktopId") {
        Ok(n) => n,
        Err(e) => {
            return Err(e);
        },
    };
    let node_id = match get_u32(v, "nodeId") {
        Ok(n) => n,
        Err(e) => {
            return Err(e);
        },
    };
    Ok(NodeCoordinates { monitor_id, desktop_id, node_id })
}

/// Decodes a desktop object; its node tree, when present, comes out well
/// formed.
fn desktop_from_value(v: &serde_json::Value) -> (r: Result<Desktop, MessageError>)
    ensures
        r matches Ok(dk) ==> dk.wf(),
        match desktop_of(value_doc(*v)) {
            Some(dv) => r matches Ok(dk) && desktop_view(dk) == dv,
            None => r == Err::<Desktop, MessageError>(MessageError::JsonCouldntParse),
        },
{
    let border_width = match get_u16(v, "borderWidth") {
        Ok(n) => n,
        Err(e) => {
            return Err(e);
        },
    };
    let focused_node_id = match get_u32(v, "focusedNodeId") {
        Ok(n) => n,
        Err(e) => {
            return Err(e);
        },
    };
    let id = match get_u32(v, "id") {
        Ok(n) => n,
        Err(e) => {
            return Err(e);
        },
    };
    let layout = match get_layout(v, "layout") {
        Ok(l) => l,
        Err(e) => {
            return Err(e);
        },
    };
    let user_layout = match get_layout(v, "userLayout") {
        Ok(l) => l,
        Err(e) => {
            return Err(e);
        },
    };
    let name = match get_string(v, "name") {
        Ok(s) => s,
        Err(e) => {
            return Err(e);
        },
    };
    let padding = match get_field(v, "padding") {
        Ok(f) => match padding_from_value(f) {
            Ok(p) => p,
            Err(e) => {
                return Err(e);
            },
        },
        Err(e) => {
            return Err(e);
        },
    };
    let window_gap = match get_i32(v, "windowGap") {
        Ok(n) => n,
        Err(e) => {
            return Err(e);
        },
    };
    let root = match get_field(v, "root") {
        Ok(f) => if value_is_null(f) {
            None
        } else {
            match node_from_value(f, MAX_TREE_DEPTH) {
                Ok(n) => Some(n),
                Err(e) => {
                    return Err(e);
                },
            }
        },
        Err(e) => {
            return Err(e);
        },
    };
    Ok(
        Desktop {
            border_width,
            focused_node_id,
            id,
            layout,
            name,
            padding,
            root,
            user_layout,
            window_gap,
        },
    )
}

/// Decodes a monitor object; every desktop's tree comes out well formed.
#[verifier::loop_isolation(false)]
fn monitor_from_value(v: &serde_json::Value) -> (r: Result<Monitor, MessageError>)
    ensures
        r matches Ok(m) ==> m.wf(),
        match monitor_of(value_doc(*v)) {
            Some(mv) => r matches Ok(m) && monitor_view(m) == mv,
            None => r == Err::<Monitor, MessageError>(MessageError::JsonCouldntParse),
        },
{
    let border_width = match get_u16(v, "borderWidth") {
        Ok(n) => n,
        Err(e) => {
            return Err(e);
        },
    };
    let focused_desktop_id = match get_u32(v, "focusedDesktopId") {
        Ok(n) => n,
        Err(e) => {
            return Err(e);
        },
    };
    let id = match get_u32(v, "id") {
        Ok(n) => n,
        Err(e) => {
            return Err(e);
        },
    };
    let name = match get_string(v, "name") {
        Ok(s) => s,
        Err(e) => {
            return Err(e);
        },
    };
    let padding = match get_field(v, "padding") {
        Ok(f) => match padding_from_value(f) {
            Ok(p) => p,
            Err(e) => {
                return Err(e);
            },
        },
        Err(e) => {
            return Err(e);
        },
    };
    let randr_id = match get_u32(v, "randrId") {
        Ok(n) => n,
        Err(e) => {
            return Err(e);
        },
    };
    let rectangle = match get_field(v, "rectangle") {
        Ok(f) => match rectangle_from_value(f) {
            Ok(rect) => rect,
            Err(e) => {
                return Err(e);
            },
        },
        Err(e) => {
            return Err(e);
        },
    };
    let sticky_count = match get_u32(v, "stickyCount") {
        Ok(n) => n,
        Err(e) => {
            return Err(e);
        },
    };
    let window_gap = match get_i32(v, "windowGap") {
        Ok(n) => n,
        Err(e) => {
            return Err(e);
        },
    };
    let wired = match get_bool(v, "wired") {
        Ok(b) => b,
        Err(e) => {
            return Err(e);
        },
    };
    let desktops_field = match get_field(v, "desktops") {
        Ok(f) => f,
        Err(e) => {
            return Err(e);
        },
    };
    let arr = match value_as_array(desktops_field) {
        Some(a) => a,
        None => {
            return Err(MessageError::JsonCouldntParse);
        },
    };
    let ghost dl = (match value_doc(*desktops_field) {
        JDoc::Arr(l) => l,
        _ => Seq::empty(),
    });
    let mut desktops: Vec<Desktop> = Vec::new();
    let n = arr.len();
    for i in 0..n
        invariant
            n == arr@.len(),
            desktops@.len() == i,
            forall|j: int| 0 <= j < i ==> (#[trigger] desktop_of(dl[j])) is Some,
            forall|j: int| 0 <= j < i ==> desktop_view(desktops@[j]) == desktop_of(dl[j])->Some_0,
            forall|j: int| 0 <= j < desktops@.len() ==> (#[trigger] desktops@[j]).wf(),
    {
        match desktop_from_value(&arr[i]) {
            Ok(d) => desktops.push(d),
            Err(e) => {
                proof {
                    assert(desktop_of(dl[i as int]) is None);
                }
                return Err(e);
            },
        }
    }
    proof {
        assert(desktops@.map_values(|dk: Desktop| desktop_view(dk)) =~= Seq::new(
            dl.len(),
            |j: int| desktop_of(dl[j])->Some_0,
        ));
    }
    Ok(
        Monitor {
            border_width,
            desktops,
            focused_desktop_id,
            id,
            name,
            padding,
            randr_id,
            rectangle,
            sticky_count,
            window_gap,
            wired,
        },
    )
}

/// Decodes the whole manager-state object; every tree in it comes out well
/// formed.
#[verifier::loop_isolation(false)]
fn state_from_value(v: &serde_json::Value) -> (r: Result<BspwmState, MessageError>)
    ensures
        r matches Ok(st) ==> st.wf(),
        match state_of(value_doc(*v)) {
            Some(sv) => r matches Ok(st) && state_view(st) == sv,
            None => r == Err::<BspwmState, MessageError>(MessageError::JsonCouldntParse),
        },
{
    let clients_count = match get_u32(v, "clientsCount") {
        Ok(n) => n,
        Err(e) => {
            return Err(e);
        },
    };
    let focused_monitor_id = match get_u32(v, "focusedMonitorId") {
        Ok(n) => n,
        Err(e) => {
            return Err(e);
        },
    };
    let primary_monitor_id = match get_u32(v, "primaryMonitorId") {
        Ok(n) => n,
        Err(e) => {
            return Err(e);
        },
    };
    let history_field = match get_field(v, "focusHistory") {
        Ok(f) => f,
        Err(e) => {
            return Err(e);
        },
    };
    let history_arr = match value_as_array(history_field) {
        Some(a) => a,
        None => {
            return Err(MessageError::JsonCouldntParse);
        },
    };
    let ghost hl = (match value_doc(*history_field) {
        JDoc::Arr(l) => l,
        _ => Seq::empty(),
    });
    let mut focus_history: Vec<NodeCoordinates> = Vec::new();
    let hn = history_arr.len();
    for i in 0..hn
        invariant
            hn == history_arr@.len(),
            focus_history@.len() == i,
            forall|j: int| 0 <= j < i ==> (#[trigger] coords_of(hl[j])) is Some,
            forall|j: int| 0 <= j < i ==> focus_history@[j] == coords_of(hl[j])->Some_0,
    {
        match coordinates_from_value(&history_arr[i]) {
            Ok(c) => focus_history.push(c),
            Err(e) => {
                proof {
                    assert(coords_of(hl[i as int]) is None);
                }
                return Err(e);
            },
        }
    }
    proof {
        assert(focus_history@ =~= Seq::new(hl.len(), |j: int| coords_of(hl[j])->Some_0));
    }
    let stacking_field = match get_field(v, "stackingList") {
        Ok(f) => f,
        Err(e) => {
            return Err(e);
        },
    };
    let stacking_arr = match value_as_array(stacking_field) {
        Some(a) => a,
        None => {
            return Err(MessageError::JsonCouldntParse);
        },
    };
    let ghost sl = (match value_doc(*stacking_field) {
        JDoc::Arr(l) => l,
        _ => Seq::empty(),
    });
    let mut stacking_list: Vec<u32> = Vec::new();
    let sn = stacking_arr.len();
    for i in 0..sn
        invariant
            sn == stacking_arr@.len(),
            stacking_list@.len() == i,
            forall|j: int| 0 <= j < i ==> (#[trigger] num_u32_of(sl[j])) is Some,
            forall|j: int| 0 <= j < i ==> stacking_list@[j] == num_u32_of(sl[j])->Some_0,
    {
        match value_as_u64(&stacking_arr[i]) {
            Some(id) => if id <= u32::MAX as u64 {
                stacking_list.push(id as u32);
            } else {
                proof {
                    assert(num_u32_of(sl[i as int]) is None);
                }
                return Err(MessageError::JsonCouldntParse);
            },
            None => {
                proof {
                    assert(num_u32_of(sl[i as int]) is None);
                }
                return Err(MessageError::JsonCouldntParse);
            },
        }
    }
    proof {
        assert(stacking_list@ =~= Seq::new(sl.len(), |j: int| num_u32_of(sl[j])->Some_0));
    }
    let monitors_field = match get_field(v, "monitors") {
        Ok(f) => f,
        Err(e) => {
            return Err(e);
        },
    };
    let monitors_arr = match value_as_array(monitors_field) {
        Some(a) => a,
        None => {
            return Err(MessageError::JsonCouldntParse);
        },
    };
    let ghost ml = (match value_doc(*monitors_field) {
        JDoc::Arr(l) => l,
        _ => Seq::empty(),
    });
    let mut monitors: Vec<Monitor> = Vec::new();
    let mn = monitors_arr.len();
    for i in 0..mn
        invariant
            mn == monitors_arr@.len(),
            monitors@.len() == i,
            forall|j: int| 0 <= j < i ==> (#[trigger] monitor_of(ml[j])) is Some,
            forall|j: int| 0 <= j < i ==> monitor_view(monitors@[j]) == monitor_of(ml[j])->Some_0,
            forall|j: int| 0 <= j < monitors@.len() ==> (#[trigger] monitors@[j]).wf(),
    {
        match monitor_from_value(&monitors_arr[i]) {
            Ok(m) => monitors.push(m),
            Err(e) => {
                proof {
                    assert(monitor_of(ml[i as int]) is None);
                }
                return Err(e);
            },
        }
    }
    proof {
        assert(monitors@.map_values(|mk: Monitor| monitor_view(mk)) =~= Seq::new(
            ml.len(),
            |j: int| monitor_of(ml[j])->Some_0,
        ));
    }
    Ok(
        BspwmState {
            clients_count,
            focus_history,
            focused_monitor_id,
            monitors,
            primary_monitor_id,
            stacking_list,
        },
    )
}

/// Parses a manager-state dump.  A success is a well-formed snapshot; any
/// syntax or shape mismatch is `JsonCouldntParse`, never a panic and never
/// a defaulted value.
pub fn parse_state(payload: &str) -> (r: Result<BspwmState, MessageError>)
    ensures
        r matches Ok(st) ==> st.wf(),
        json_doc(payload@) is None ==> r == Err::<BspwmState, MessageError>(
            MessageError::JsonCouldntParse,
        ),
        json_doc(payload@) matches Some(d) ==> match state_of(d) {
            Some(sv) => r matches Ok(st) && state_view(st) == sv,
            None => r == Err::<BspwmState, MessageError>(MessageError::JsonCouldntParse),
        },
{
    match parse_value(payload) {
        Ok(v) => state_from_value(&v),
        Err(_) => Err(MessageError::JsonCouldntParse),
    }
}

/// Parses a monitor dump; every desktop's tree in a success is well formed.
pub fn parse_monitor(payload: &str) -> (r: Result<Monitor, MessageError>)
    ensures
        r matches Ok(m) ==> m.wf(),
        json_doc(payload@) is None ==> r == Err::<Monitor, MessageError>(
            MessageError::JsonCouldntParse,
        ),
        json_doc(payload@) matches Some(d) ==> match monitor_of(d) {
            Some(mv) => r matches Ok(m) && monitor_view(m) == mv,
            None => r == Err::<Monitor, MessageError>(MessageError::JsonCouldntParse),
        },
{
    match parse_value(payload) {
        Ok(v) => monitor_from_value(&v),
        Err(_) => Err(MessageError::JsonCouldntParse),
    }
}

/// Parses a desktop dump; the tree in a success is well formed.
pub fn parse_desktop(payload: &str) -> (r: Result<Desktop, MessageError>)
    ensures
        r matches Ok(dk) ==> dk.wf(),
        json_doc(payload@) is None ==> r == Err::<Desktop, MessageError>(
            MessageError::JsonCouldntParse,
        ),
        json_doc(payload@) matches Some(d) ==> match desktop_of(d) {
            Some(dv) => r matches Ok(dk) && desktop_view(dk) == dv,
            None => r == Err::<Desktop, MessageError>(MessageError::JsonCouldntParse),
        },
{
    match parse_value(payload) {
        Ok(v) => desktop_from_value(&v),
        Err(_) => Err(MessageError::JsonCouldntParse),
    }
}

/// Parses a node dump; the subtree in a success is well formed.
pub fn parse_node(payload: &str) -> (r: Result<Node, MessageError>)
    ensures
        r matches Ok(n) ==> n.wf(),
        json_doc(payload@) is None ==> r == Err::<Node, MessageError>(
            MessageError::JsonCouldntParse,
        ),
        json_doc(payload@) matches Some(d) ==> match node_of(d, MAX_TREE_DEPTH as nat) {
            Some(nv) => r matches Ok(n) && node_view(n) == nv,
            None => r == Err::<Node, MessageError>(MessageError::JsonCouldntParse),
        },
{
    match parse_value(payload) {
        Ok(v) => node_from_value(&v, MAX_TREE_DEPTH),
        Err(_) => Err(MessageError::JsonCouldntParse),
    }
}

} // verus!
