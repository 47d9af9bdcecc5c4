//! Validation of explicit default literals against a field's resolved
//! type: decimal forms for the integer kinds with exact range checks,
//! decimal/exponent/infinity shapes for the floating kinds (whose literals
//! are retained as text and never computed with), `true`/`false` for bool,
//! verbatim text for string, C-style escape decoding for bytes, and a
//! declared value name for enums.

use vstd::prelude::*;

use crate::bytes::clone_bytes;
use crate::condition::{Condition, ConditionV};
use crate::scalar::ScalarKind;

verus! {

/// A parsed default value. The zero value of the field's kind applies
/// when a field declares none.
#[derive(Debug)]
pub enum DefaultValue {
    Bool(bool),
    I32(i32),
    I64(i64),
    U32(u32),
    U64(u64),
    /// A string default, verbatim.
    Text(Vec<u8>),
    /// A bytes default, after escape decoding.
    Bytes(Vec<u8>),
    /// The number of the named value of the field's enum.
    EnumNumber(i32),
    /// A floating-point default, kept as written.
    FloatLiteral(Vec<u8>),
}

/// Spec mirror of [`DefaultValue`].
#[verifier::ext_equal]
pub enum DefaultValueV {
    Bool(bool),
    I32(i32),
    I64(i64),
    U32(u32),
    U64(u64),
    Text(Seq<u8>),
    Bytes(Seq<u8>),
    EnumNumber(i32),
    FloatLiteral(Seq<u8>),
}

impl DefaultValue {
    pub open spec fn dv(&self) -> DefaultValueV {
        match self {
            DefaultValue::Bool(b) => DefaultValueV::Bool(*b),
            DefaultValue::I32(x) => DefaultValueV::I32(*x),
            DefaultValue::I64(x) => DefaultValueV::I64(*x),
            DefaultValue::U32(x) => DefaultValueV::U32(*x),
            DefaultValue::U64(x) => DefaultValueV::U64(*x),
            DefaultValue::Text(t) => DefaultValueV::Text(t@),
            DefaultValue::Bytes(t) => DefaultValueV::Bytes(t@),
            DefaultValue::EnumNumber(x) => DefaultValueV::EnumNumber(*x),
            DefaultValue::FloatLiteral(t) => DefaultValueV::FloatLiteral(t@),
        }
    }
}

impl Clone for DefaultValue {
    fn clone(&self) -> (r: Self)
        ensures
            r.dv() == self.dv(),
    {
        match self {
            DefaultValue::Bool(b) => DefaultValue::Bool(*b),
            DefaultValue::I32(x) => DefaultValue::I32(*x),
            DefaultValue::I64(x) => DefaultValue::I64(*x),
            DefaultValue::U32(x) => DefaultValue::U32(*x),
            DefaultValue::U64(x) => DefaultValue::U64(*x),
            DefaultValue::Text(t) => DefaultValue::Text(clone_bytes(t)),
            DefaultValue::Bytes(t) => DefaultValue::Bytes(clone_bytes(t)),
            DefaultValue::EnumNumber(x) => DefaultValue::EnumNumber(*x),
            DefaultValue::FloatLiteral(t) => DefaultValue::FloatLiteral(clone_bytes(t)),
        }
    }
}

/// The numeric value of a run of decimal digits.
pub open spec fn spec_digits_val(s: Seq<u8>) -> nat
    decreases s.len(),
{
    if s.len() == 0 {
        0
    } else {
        spec_digits_val(s.drop_last()) * 10 + (s.last() - 48) as nat
    }
}

/// Whether `s` is one or more decimal digits.
pub open spec fn spec_all_digits(s: Seq<u8>) -> bool {
    s.len() > 0 && forall|i: int| 0 <= i < s.len() ==> 48 <= #[trigger] s[i] <= 57
}

/// The value of an unsigned decimal literal, if it is one.
pub open spec fn spec_parse_uint(s: Seq<u8>) -> Option<nat> {
    if spec_all_digits(s) {
        Some(spec_digits_val(s))
    } else {
        None
    }
}

/// The value of a signed decimal literal, if it is one.
pub open spec fn spec_parse_int(s: Seq<u8>) -> Option<int> {
    if s.len() > 0 && s[0] == 45 {
        match spec_parse_uint(s.skip(1)) {
            Some(v) => Some(-(v as int)),
            None => None,
        }
    } else {
        match spec_parse_uint(s) {
            Some(v) => Some(v as int),
            None => None,
        }
    }
}

proof fn lemma_digits_val_step(s: Seq<u8>, k: int)
    requires
        0 <= k < s.len(),
    ensures
        spec_digits_val(s.take(k + 1)) == spec_digits_val(s.take(k)) * 10 + (s[k] - 48) as nat,
{
    assert(s.take(k + 1).drop_last() =~= s.take(k));
    assert(s.take(k + 1).last() == s[k]);
}

proof fn lemma_digits_val_grows(s: Seq<u8>, k: int)
    requires
        0 <= k <= s.len(),
    ensures
        spec_digits_val(s.take(k)) <= spec_digits_val(s),
    decreases s.len() - k,
{
    if k == s.len() {
        assert(s.take(k) =~= s);
    } else {
        lemma_digits_val_step(s, k);
        lemma_digits_val_grows(s, k + 1);
    }
}

/// Parses an unsigned decimal literal whose value is at most `max`;
/// any other text (or a larger value) yields `None`.
#[verifier::loop_isolation(false)]
pub fn parse_u64_bounded(s: &Vec<u8>, max: u64) -> (r: Option<u64>)
    ensures
        match spec_parse_uint(s@) {
            Some(v) => {
                if v <= max as nat {
                    r == Some(v as u64)
                } else {
                    r is None
                }
            },
            None => r is None,
        },
{
    if s.len() == 0 {
        return None;
    }
    let mut acc: u64 = 0;
    let mut i: usize = 0;
    while i < s.len()
        invariant
            i <= s.len(),
            forall|j: int| 0 <= j < i ==> 48 <= #[trigger] s@[j] <= 57,
            acc as nat == spec_digits_val(s@.take(i as int)),
            acc <= max,
        decreases s.len() - i,
    {
        let b = s[i];
        if b < 48 || b > 57 {
            return None;
        }
        let d = (b - 48) as u64;
        proof {
            lemma_digits_val_step(s@, i as int);
        }
        if acc > max / 10 || (acc == max / 10 && d > max % 10) {
            proof {
                assert(acc as nat * 10 + d as nat > max as nat) by (nonlinear_arith)
                    requires
                        acc as nat == spec_digits_val(s@.take(i as int)),
                        d < 10,
                        acc > max / 10 || (acc == max / 10 && d > max % 10),
                        max as nat == (max / 10) as nat * 10 + (max % 10) as nat,
                        max % 10 < 10,
                ;
                lemma_digits_val_grows(s@, i + 1);
                assert(spec_digits_val(s@) > max as nat);
            }
            return None;
        }
        proof {
            assert(acc as nat * 10 + d as nat <= max as nat) by (nonlinear_arith)
                requires
                    d < 10,
                    acc <= max / 10,
                    !(acc > max / 10 || (acc == max / 10 && d > max % 10)),
                    max as nat == (max / 10) as nat * 10 + (max % 10) as nat,
            ;
        }
        acc = acc * 10 + d;
        i += 1;
    }
    proof {
        assert(s@.take(s@.len() as int) =~= s@);
        assert(spec_all_digits(s@));
    }
    Some(acc)
}

/// Parses a signed decimal literal lying within `[lo, hi]`, where
/// `lo >= i64::MIN` and `hi <= i64::MAX`.
#[verifier::loop_isolation(false)]
pub fn parse_i64_bounded(s: &Vec<u8>, lo: i64, hi: i64) -> (r: Option<i64>)
    requires
        lo <= 0 <= hi,
    ensures
        match spec_parse_int(s@) {
            Some(v) => {
                if lo as int <= v <= hi as int {
                    r == Some(v as i64)
                } else {
                    r is None
                }
            },
            None => r is None,
        },
{
    if s.len() > 0 && s[0] == 45 {
        let mut mag: Vec<u8> = Vec::new();
        let mut i: usize = 1;
        while i < s.len()
            invariant
                1 <= i <= s.len(),
                mag@ == s@.skip(1).take(i - 1),
            decreases s.len() - i,
        {
            mag.push(s[i]);
            proof {
                assert(s@.skip(1).take(i - 1).push(s@[i as int]) =~= s@.skip(1).take(i as int));
            }
            i += 1;
        }
        proof {
            assert(s@.skip(1).take(s@.len() - 1) =~= s@.skip(1));
        }
        let bound: u64 = if lo == i64::MIN {
            9223372036854775808u64
        } else {
            (-lo) as u64
        };
        match parse_u64_bounded(&mag, bound) {
            Some(v) => {
                if v == 9223372036854775808u64 {
                    Some(i64::MIN)
                } else {
                    Some(-(v as i64))
                }
            },
            None => None,
        }
    } else {
        match parse_u64_bounded(s, hi as u64) {
            Some(v) => Some(v as i64),
            None => None,
        }
    }
}

/// Whether `s` scans as digits with at most one decimal point and at
/// least one digit, `dot` and `digit` carrying what was already seen.
pub open spec fn spec_scan_mantissa(s: Seq<u8>, seen_dot: bool, seen_digit: bool) -> bool
    decreases s.len(),
{
    if s.len() == 0 {
        seen_digit
    } else if 48 <= s[0] <= 57 {
        spec_scan_mantissa(s.skip(1), seen_dot, true)
    } else if s[0] == 46 && !seen_dot {
        spec_scan_mantissa(s.skip(1), true, seen_digit)
    } else {
        false
    }
}

/// Whether `s` is an exponent part: an optional sign and one or more
/// digits.
pub open spec fn spec_is_exponent(s: Seq<u8>) -> bool {
    if s.len() > 0 && (s[0] == 43 || s[0] == 45) {
        spec_all_digits(s.skip(1))
    } else {
        spec_all_digits(s)
    }
}

/// The position of the first exponent marker (`e` or `E`), if any.
pub open spec fn spec_find_exp(s: Seq<u8>, i: int) -> Option<int>
    decreases s.len() - i,
{
    if i < 0 || i >= s.len() {
        None
    } else if s[i] == 101 || s[i] == 69 {
        Some(i)
    } else {
        spec_find_exp(s, i + 1)
    }
}

/// Whether `s` is an unsigned floating-point shape: a mantissa with an
/// optional exponent, or one of the special words `inf` and `nan`.
pub open spec fn spec_is_unsigned_float(s: Seq<u8>) -> bool {
    ||| s =~= seq![105u8, 110u8, 102u8]
    ||| s =~= seq![110u8, 97u8, 110u8]
    ||| match spec_find_exp(s, 0) {
        Some(k) => spec_scan_mantissa(s.take(k), false, false) && spec_is_exponent(
            s.skip(k + 1),
        ),
        None => spec_scan_mantissa(s, false, false),
    }
}

/// Whether `s` is a floating-point literal shape, with an optional sign.
pub open spec fn spec_is_float_literal(s: Seq<u8>) -> bool {
    if s.len() > 0 && (s[0] == 43 || s[0] == 45) {
        spec_is_unsigned_float(s.skip(1))
    } else {
        spec_is_unsigned_float(s)
    }
}

#[verifier::loop_isolation(false)]
fn scan_mantissa(s: &Vec<u8>, from: usize, to: usize) -> (r: bool)
    requires
        from <= to <= s@.len(),
    ensures
        r == spec_scan_mantissa(s@.subrange(from as int, to as int), false, false),
{
    let mut i: usize = from;
    let mut seen_dot = false;
    let mut seen_digit = false;
    while i < to
        invariant
            from <= i <= to,
            spec_scan_mantissa(s@.subrange(from as int, to as int), false, false)
                == spec_scan_mantissa(s@.subrange(i as int, to as int), seen_dot, seen_digit),
        decreases to - i,
    {
        let ghost tail = s@.subrange(i as int, to as int);
        proof {
            assert(tail[0] == s@[i as int]);
            assert(tail.skip(1) =~= s@.subrange(i + 1, to as int));
        }
        let b = s[i];
        if 48 <= b && b <= 57 {
            seen_digit = true;
        } else if b == 46 && !seen_dot {
            seen_dot = true;
        } else {
            return false;
        }
        i += 1;
    }
    proof {
        assert(s@.subrange(to as int, to as int).len() == 0);
    }
    seen_digit
}

#[verifier::loop_isolation(false)]
fn is_exponent_part(s: &Vec<u8>, from: usize) -> (r: bool)
    requires
        from <= s@.len(),
    ensures
        r == spec_is_exponent(s@.skip(from as int)),
{
    let ghost part = s@.skip(from as int);
    let mut i: usize = from;
    if i < s.len() && (s[i] == 43 || s[i] == 45) {
        proof {
            assert(part[0] == s@[from as int]);
            assert(part.skip(1) =~= s@.skip(from + 1));
        }
        i += 1;
    } else {
        proof {
            if part.len() > 0 {
                assert(part[0] == s@[from as int]);
            }
        }
    }
    let ghost digits = s@.skip(i as int);
    let mut j: usize = i;
    if j == s.len() {
        proof {
            assert(!spec_all_digits(digits));
        }
        return false;
    }
    while j < s.len()
        invariant
            i <= j <= s@.len(),
            i < s@.len(),
            forall|k: int| i <= k < j ==> 48 <= #[trigger] s@[k] <= 57,
        decreases s@.len() - j,
    {
        if s[j] < 48 || s[j] > 57 {
            proof {
                assert(digits[j - i] == s@[j as int]);
                assert(!spec_all_digits(digits));
            }
            return false;
        }
        j += 1;
    }
    proof {
        assert forall|k: int| 0 <= k < digits.len() implies 48 <= #[trigger] digits[k] <= 57 by {
            assert(digits[k] == s@[k + i]);
        }
        assert(spec_all_digits(digits));
    }
    true
}

/// Decides whether a literal has a floating-point shape.
#[verifier::loop_isolation(false)]
pub fn is_float_literal(s: &Vec<u8>) -> (r: bool)
    ensures
        r == spec_is_float_literal(s@),
{
    let start: usize = if s.len() > 0 && (s[0] == 43 || s[0] == 45) {
        1
    } else {
        0
    };
    let ghost body = s@.skip(start as int);
    proof {
        if start == 1 {
            assert(spec_is_float_literal(s@) == spec_is_unsigned_float(body));
        } else {
            assert(body =~= s@);
        }
    }
    // the special words
    if s.len() - start == 3 {
        let a = s[start];
        let b = s[start + 1];
        let c = s[start + 2];
        if (a == 105 && b == 110 && c == 102) || (a == 110 && b == 97 && c == 110) {
            proof {
                if a == 105 {
                    assert(body =~= seq![105u8, 110u8, 102u8]);
                } else {
                    assert(body =~= seq![110u8, 97u8, 110u8]);
                }
            }
            return true;
        }
    }
    proof {
        assert(!(body =~= seq![105u8, 110u8, 102u8]) && !(body =~= seq![110u8, 97u8, 110u8]))
            by {
            if body =~= seq![105u8, 110u8, 102u8] {
                assert(s@.len() - start == 3);
                assert(s@[start as int] == 105 && s@[start + 1] == 110 && s@[start + 2] == 102);
            }
            if body =~= seq![110u8, 97u8, 110u8] {
                assert(s@.len() - start == 3);
                assert(s@[start as int] == 110 && s@[start + 1] == 97 && s@[start + 2] == 110);
            }
        }
    }
    // find the exponent marker
    let mut k: usize = start;
    while k < s.len()
        invariant
            start <= k <= s@.len(),
            spec_find_exp(body, 0) == spec_find_exp(body, k - start),
            forall|t: int| start <= t < k ==> s@[t] != 101 && s@[t] != 69,
        decreases s.len() - k,
    {
        proof {
            assert(body[k - start] == s@[k as int]);
        }
        if s[k] == 101 || s[k] == 69 {
            proof {
                assert(spec_find_exp(body, k - start) == Some(k - start));
            }
            let ghost mantissa = body.take(k - start);
            proof {
                assert(mantissa =~= s@.subrange(start as int, k as int));
                assert(body.skip(k - start + 1) =~= s@.skip(k + 1));
            }
            return scan_mantissa(s, start, k) && is_exponent_part(s, k + 1);
        }
        k += 1;
    }
    proof {
        assert(spec_find_exp(body, s@.len() - start) is None);
        assert(body =~= s@.subrange(start as int, s@.len() as int));
    }
    scan_mantissa(s, start, s.len())
}

/// C-style escape decoding for bytes defaults: the value of `s` with
/// `\n`-style, octal and hex escapes replaced, or `None` on a malformed
/// escape.
pub open spec fn spec_unescape(s: Seq<u8>) -> Option<Seq<u8>>
    decreases s.len(), 0nat,
{
    if s.len() == 0 {
        Some(Seq::empty())
    } else if s[0] != 92 {
        match spec_unescape(s.skip(1)) {
            Some(rest) => Some(seq![s[0]] + rest),
            None => None,
        }
    } else if s.len() == 1 {
        None
    } else {
        let e = s[1];
        if e == 110 {
            spec_unescape_push(10, s.skip(2))
        } else if e == 114 {
            spec_unescape_push(13, s.skip(2))
        } else if e == 116 {
            spec_unescape_push(9, s.skip(2))
        } else if e == 92 {
            spec_unescape_push(92, s.skip(2))
        } else if e == 39 {
            spec_unescape_push(39, s.skip(2))
        } else if e == 34 {
            spec_unescape_push(34, s.skip(2))
        } else if e == 48 {
            spec_unescape_push(0, s.skip(2))
        } else {
            None
        }
    }
}

/// Helper of [`spec_unescape`]: one decoded byte followed by the decoded
/// remainder.
pub open spec fn spec_unescape_push(b: u8, rest: Seq<u8>) -> Option<Seq<u8>>
    decreases rest.len(), 1nat,
{
    match spec_unescape(rest) {
        Some(r) => Some(seq![b] + r),
        None => None,
    }
}

/// Decodes the escapes of a bytes default.
pub fn unescape(s: &Vec<u8>) -> (r: Option<Vec<u8>>)
    ensures
        match r {
            Some(v) => spec_unescape(s@) == Some(v@),
            None => spec_unescape(s@) is None,
        },
{
    proof {
        assert(s@.skip(0) =~= s@);
    }
    unescape_from(s, 0)
}

#[verifier::loop_isolation(false)]
fn unescape_from(s: &Vec<u8>, from: usize) -> (r: Option<Vec<u8>>)
    requires
        from <= s@.len(),
    ensures
        match r {
            Some(v) => spec_unescape(s@.skip(from as int)) == Some(v@),
            None => spec_unescape(s@.skip(from as int)) is None,
        },
    decreases s@.len() - from,
{
    let ghost tail = s@.skip(from as int);
    if from == s.len() {
        let r: Vec<u8> = Vec::new();
        proof {
            assert(tail.len() == 0);
            assert(spec_unescape(tail) == Some(Seq::<u8>::empty()));
            assert(r@ =~= Seq::<u8>::empty());
        }
        return Some(r);
    }
    proof {
        assert(tail[0] == s@[from as int]);
        assert(tail.skip(1) =~= s@.skip(from + 1));
    }
    let b = s[from];
    if b != 92 {
        let rec = unescape_from(s, from + 1);
        match rec {
            Some(rest) => {
                let mut out: Vec<u8> = Vec::new();
                out.push(b);
                crate::bytes::push_all(&mut out, &rest);
                proof {
                    assert(out@ =~= seq![b] + rest@);
                    assert(spec_unescape(tail) == Some(seq![tail[0]] + rest@));
                }
                Some(out)
            },
            None => {
                proof {
                    assert(spec_unescape(tail) is None);
                }
                None
            },
        }
    } else if from + 1 == s.len() {
        proof {
            assert(tail.len() == 1);
            assert(spec_unescape(tail) is None);
        }
        None
    } else {
        let e = s[from + 1];
        proof {
            assert(tail[1] == s@[from + 1]);
            assert(tail.skip(2) =~= s@.skip(from + 2));
        }
        let decoded: u8;
        if e == 110 {
            decoded = 10;
        } else if e == 114 {
            decoded = 13;
        } else if e == 116 {
            decoded = 9;
        } else if e == 92 {
            decoded = 92;
        } else if e == 39 {
            decoded = 39;
        } else if e == 34 {
            decoded = 34;
        } else if e == 48 {
            decoded = 0;
        } else {
            proof {
                assert(spec_unescape(tail) is None);
            }
            return None;
        }
        let rec = unescape_from(s, from + 2);
        match rec {
            Some(rest) => {
                let mut out: Vec<u8> = Vec::new();
                out.push(decoded);
                crate::bytes::push_all(&mut out, &rest);
                proof {
                    assert(out@ =~= seq![decoded] + rest@);
                    assert(spec_unescape(tail) == spec_unescape_push(decoded, tail.skip(2)));
                    assert(spec_unescape(tail) == Some(seq![decoded] + rest@));
                }
                Some(out)
            },
            None => {
                proof {
                    assert(spec_unescape(tail) is None);
                }
                None
            },
        }
    }
}

/// The literal shape a scalar kind expects, for diagnostics.
pub open spec fn spec_expected_text(kind: ScalarKind) -> Seq<u8> {
    match kind {
        ScalarKind::Double | ScalarKind::Float => seq![110u8, 117u8, 109u8, 98u8, 101u8, 114u8],
        ScalarKind::Uint32 | ScalarKind::Uint64 | ScalarKind::Fixed32 | ScalarKind::Fixed64 => seq![117u8, 110u8, 115u8, 105u8, 103u8, 110u8, 101u8, 100u8, 32u8, 105u8, 110u8, 116u8, 101u8, 103u8, 101u8, 114u8],
        ScalarKind::Bool => seq![98u8, 111u8, 111u8, 108u8, 101u8, 97u8, 110u8],
        ScalarKind::String => seq![115u8, 116u8, 114u8, 105u8, 110u8, 103u8],
        ScalarKind::Bytes => seq![98u8, 121u8, 116u8, 101u8, 115u8],
        _ => seq![105u8, 110u8, 116u8, 101u8, 103u8, 101u8, 114u8],
    }
}

fn expected_text(kind: ScalarKind) -> (r: Vec<u8>)
    ensures
        r@ == spec_expected_text(kind),
{
    let mut t: Vec<u8> = Vec::new();
    match kind {
        ScalarKind::Double | ScalarKind::Float => {
            t.push(110);
            t.push(117);
            t.push(109);
            t.push(98);
            t.push(101);
            t.push(114);
        },
        ScalarKind::Uint32 | ScalarKind::Uint64 | ScalarKind::Fixed32 | ScalarKind::Fixed64 => {
            t.push(117);
            t.push(110);
            t.push(115);
            t.push(105);
            t.push(103);
            t.push(110);
            t.push(101);
            t.push(100);
            t.push(32);
            t.push(105);
            t.push(110);
            t.push(116);
            t.push(101);
            t.push(103);
            t.push(101);
            t.push(114);
        },
        ScalarKind::Bool => {
            t.push(98);
            t.push(111);
            t.push(111);
            t.push(108);
            t.push(101);
            t.push(97);
            t.push(110);
        },
        ScalarKind::String => {
            t.push(115);
            t.push(116);
            t.push(114);
            t.push(105);
            t.push(110);
            t.push(103);
        },
        ScalarKind::Bytes => {
            t.push(98);
            t.push(121);
            t.push(116);
            t.push(101);
            t.push(115);
        },
        _ => {
            t.push(105);
            t.push(110);
            t.push(116);
            t.push(101);
            t.push(103);
            t.push(101);
            t.push(114);
        },
    }
    proof {
        assert(t@ =~= spec_expected_text(kind));
    }
    t
}

/// The validation of a default literal against a scalar kind: the parsed
/// value, or the *ValueInvalidType* condition naming the expected shape
/// and the actual text.
pub open spec fn spec_parse_scalar_default(
    field: Seq<u8>,
    lit: Seq<u8>,
    kind: ScalarKind,
) -> Result<DefaultValueV, ConditionV> {
    let err = ConditionV::ValueInvalidType {
        field,
        expected: spec_expected_text(kind),
        actual: lit,
    };
    match kind {
        ScalarKind::Double | ScalarKind::Float => {
            if spec_is_float_literal(lit) {
                Ok(DefaultValueV::FloatLiteral(lit))
            } else {
                Err(err)
            }
        },
        ScalarKind::Int32 | ScalarKind::Sint32 | ScalarKind::Sfixed32 => {
            match spec_parse_int(lit) {
                Some(v) => if i32::MIN <= v <= i32::MAX {
                    Ok(DefaultValueV::I32(v as i32))
                } else {
                    Err(err)
                },
                None => Err(err),
            }
        },
        ScalarKind::Int64 | ScalarKind::Sint64 | ScalarKind::Sfixed64 => {
            match spec_parse_int(lit) {
                Some(v) => if i64::MIN <= v <= i64::MAX {
                    Ok(DefaultValueV::I64(v as i64))
                } else {
                    Err(err)
                },
                None => Err(err),
            }
        },
        ScalarKind::Uint32 | ScalarKind::Fixed32 => {
            match spec_parse_uint(lit) {
                Some(v) => if v <= u32::MAX {
                    Ok(DefaultValueV::U32(v as u32))
                } else {
                    Err(err)
                },
                None => Err(err),
            }
        },
        ScalarKind::Uint64 | ScalarKind::Fixed64 => {
            match spec_parse_uint(lit) {
                Some(v) => if v <= u64::MAX {
                    Ok(DefaultValueV::U64(v as u64))
                } else {
                    Err(err)
                },
                None => Err(err),
            }
        },
        ScalarKind::Bool => {
            if lit =~= seq![116u8, 114u8, 117u8, 101u8] {
                Ok(DefaultValueV::Bool(true))
            } else if lit =~= seq![102u8, 97u8, 108u8, 115u8, 101u8] {
                Ok(DefaultValueV::Bool(false))
            } else {
                Err(err)
            }
        },
        ScalarKind::String => Ok(DefaultValueV::Text(lit)),
        ScalarKind::Bytes => {
            match spec_unescape(lit) {
                Some(decoded) => Ok(DefaultValueV::Bytes(decoded)),
                None => Err(err),
            }
        },
    }
}

/// Validates a default literal against a scalar kind.
pub fn parse_scalar_default(field: &Vec<u8>, lit: &Vec<u8>, kind: ScalarKind) -> (r: Result<
    DefaultValue,
    Condition,
>)
    ensures
        match r {
            Ok(v) => spec_parse_scalar_default(field@, lit@, kind) == Ok::<
                DefaultValueV,
                ConditionV,
            >(v.dv()),
            Err(c) => spec_parse_scalar_default(field@, lit@, kind) == Err::<
                DefaultValueV,
                ConditionV,
            >(c.dv()),
        },
{
    let ok: bool;
    let mut value = DefaultValue::Bool(false);
    match kind {
        ScalarKind::Double | ScalarKind::Float => {
            if is_float_literal(lit) {
                ok = true;
                value = DefaultValue::FloatLiteral(clone_bytes(lit));
            } else {
                ok = false;
            }
        },
        ScalarKind::Int32 | ScalarKind::Sint32 | ScalarKind::Sfixed32 => {
            match parse_i64_bounded(lit, -2147483648i64, 2147483647i64) {
                Some(v) => {
                    ok = true;
                    value = DefaultValue::I32(v as i32);
                },
                None => {
                    ok = false;
                },
            }
        },
        ScalarKind::Int64 | ScalarKind::Sint64 | ScalarKind::Sfixed64 => {
            match parse_i64_bounded(lit, i64::MIN, i64::MAX) {
                Some(v) => {
                    ok = true;
                    value = DefaultValue::I64(v);
                },
                None => {
                    ok = false;
                },
            }
        },
        ScalarKind::Uint32 | ScalarKind::Fixed32 => {
            match parse_u64_bounded(lit, 4294967295u64) {
                Some(v) => {
                    ok = true;
                    value = DefaultValue::U32(v as u32);
                },
                None => {
                    ok = false;
                },
            }
        },
        ScalarKind::Uint64 | ScalarKind::Fixed64 => {
            match parse_u64_bounded(lit, u64::MAX) {
                Some(v) => {
                    ok = true;
                    value = DefaultValue::U64(v);
                },
                None => {
                    ok = false;
                },
            }
        },
        ScalarKind::Bool => {
            let is_true = lit.len() == 4 && lit[0] == 116 && lit[1] == 114 && lit[2] == 117
                && lit[3] == 101;
            let is_false = lit.len() == 5 && lit[0] == 102 && lit[1] == 97 && lit[2] == 108
                && lit[3] == 115 && lit[4] == 101;
            proof {
                if is_true {
                    assert(lit@ =~= seq![116u8, 114u8, 117u8, 101u8]);
                } else {
                    assert(!(lit@ =~= seq![116u8, 114u8, 117u8, 101u8]));
                }
                if is_false {
                    assert(lit@ =~= seq![102u8, 97u8, 108u8, 115u8, 101u8]);
                } else {
                    assert(!(lit@ =~= seq![102u8, 97u8, 108u8, 115u8, 101u8]));
                }
            }
            if is_true {
                ok = true;
                value = DefaultValue::Bool(true);
            } else if is_false {
                ok = true;
                value = DefaultValue::Bool(false);
            } else {
                ok = false;
            }
        },
        ScalarKind::String => {
            ok = true;
            value = DefaultValue::Text(clone_bytes(lit));
        },
        ScalarKind::Bytes => {
            match unescape(lit) {
                Some(decoded) => {
                    ok = true;
                    value = DefaultValue::Bytes(decoded);
                },
                None => {
                    ok = false;
                },
            }
        },
    }
    if ok {
        Ok(value)
    } else {
        Err(
            Condition::ValueInvalidType {
                field: clone_bytes(field),
                expected: expected_text(kind),
                actual: clone_bytes(lit),
            },
        )
    }
}

/// The first value of an enum with the given name.
pub open spec fn spec_find_enum_value(
    values: Seq<crate::record::EnumValueRecordV>,
    name: Seq<u8>,
    i: int,
) -> Option<int>
    decreases values.len() - i,
{
    if i < 0 || i >= values.len() {
        None
    } else if values[i].name == name {
        Some(i)
    } else {
        spec_find_enum_value(values, name, i + 1)
    }
}

/// The value names of an enum, for suggestion lists.
pub open spec fn spec_value_names(values: Seq<crate::record::EnumValueRecordV>) -> Seq<Seq<u8>> {
    Seq::new(values.len(), |i: int| values[i].name)
}

/// The validation of an enum field's default identifier: the named
/// value's number, or *InvalidEnumValue* listing the values that exist.
pub open spec fn spec_parse_enum_default(
    field: Seq<u8>,
    lit: Seq<u8>,
    values: Seq<crate::record::EnumValueRecordV>,
) -> Result<DefaultValueV, ConditionV> {
    match spec_find_enum_value(values, lit, 0) {
        Some(k) => Ok(DefaultValueV::EnumNumber(values[k].number)),
        None => Err(
            ConditionV::InvalidEnumValue {
                field,
                value: lit,
                help: crate::name::spec_possible_values_help(spec_value_names(values)),
            },
        ),
    }
}

/// Validates an enum field's default identifier against the target
/// enum's declared values.
#[verifier::loop_isolation(false)]
pub fn parse_enum_default(field: &Vec<u8>, lit: &Vec<u8>, values: &Vec<
    crate::record::EnumValueRecord,
>) -> (r: Result<DefaultValue, Condition>)
    ensures
        match r {
            Ok(v) => spec_parse_enum_default(
                field@,
                lit@,
                Seq::new(values@.len(), |i: int| values@[i].dv()),
            ) == Ok::<DefaultValueV, ConditionV>(v.dv()),
            Err(c) => spec_parse_enum_default(
                field@,
                lit@,
                Seq::new(values@.len(), |i: int| values@[i].dv()),
            ) == Err::<DefaultValueV, ConditionV>(c.dv()),
        },
{
    let ghost svalues = Seq::new(values@.len(), |i: int| values@[i].dv());
    let mut i: usize = 0;
    while i < values.len()
        invariant
            i <= values.len(),
            spec_find_enum_value(svalues, lit@, i as int) == spec_find_enum_value(
                svalues,
                lit@,
                0,
            ),
        decreases values.len() - i,
    {
        if crate::bytes::bytes_eq(&values[i].name, lit) {
            proof {
                assert(spec_find_enum_value(svalues, lit@, i as int) == Some(i as int));
            }
            return Ok(DefaultValue::EnumNumber(values[i].number));
        }
        proof {
            assert(spec_find_enum_value(svalues, lit@, i as int) == spec_find_enum_value(
                svalues,
                lit@,
                i + 1,
            ));
        }
        i += 1;
    }
    let mut names: Vec<Vec<u8>> = Vec::new();
    let mut j: usize = 0;
    while j < values.len()
        invariant
            j <= values.len(),
            names@.len() == j,
            forall|k: int| 0 <= k < j ==> names@[k]@ == values@[k].dv().name,
        decreases values.len() - j,
    {
        names.push(clone_bytes(&values[j].name));
        j += 1;
    }
    proof {
        assert(crate::name::dv_names(names@) =~= spec_value_names(svalues));
    }
    let help = crate::name::possible_values_help(names);
    Err(
        Condition::InvalidEnumValue {
            field: clone_bytes(field),
            value: clone_bytes(lit),
            help,
        },
    )
}

} // verus!
