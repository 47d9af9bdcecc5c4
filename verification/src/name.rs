//! Dotted-name arithmetic and the text fragments diagnostics are built
//! from. Names are byte strings; a fully-qualified name never carries the
//! leading separator, while reference text may.

use vstd::prelude::*;

verus! {

/// Uppercases one ASCII letter; anything else is returned unchanged.
pub open spec fn spec_upper(b: u8) -> u8 {
    if 97 <= b <= 122 {
        (b - 32) as u8
    } else {
        b
    }
}

fn upper_byte(b: u8) -> (r: u8)
    ensures
        r == spec_upper(b),
{
    if 97 <= b && b <= 122 {
        b - 32
    } else {
        b
    }
}

/// `scope.name`, or `name` alone at the root scope.
pub open spec fn spec_join(scope: Seq<u8>, name: Seq<u8>) -> Seq<u8> {
    if scope.len() == 0 {
        name
    } else {
        scope + seq![46u8] + name
    }
}

/// Joins a scope and a simple name with the dot separator.
pub fn join_name(scope: &Vec<u8>, name: &Vec<u8>) -> (r: Vec<u8>)
    ensures
        r@ == spec_join(scope@, name@),
{
    if scope.len() == 0 {
        return crate::bytes::clone_bytes(name);
    }
    let mut r = crate::bytes::clone_bytes(scope);
    r.push(46);
    crate::bytes::push_all(&mut r, name);
    proof {
        assert(scope@ + seq![46u8] + name@ =~= (scope@.push(46u8)) + name@);
    }
    r
}

/// Whether reference text is absolute (rooted), i.e. starts with a dot.
pub open spec fn spec_is_absolute(r: Seq<u8>) -> bool {
    r.len() > 0 && r[0] == 46
}

pub fn is_absolute(r: &Vec<u8>) -> (b: bool)
    ensures
        b == spec_is_absolute(r@),
{
    r.len() > 0 && r[0] == 46
}

/// The position just after the last dot of `s`, or 0 if there is none.
pub open spec fn spec_after_last_dot(s: Seq<u8>) -> int
    decreases s.len(),
{
    if s.len() == 0 {
        0
    } else if s.last() == 46 {
        s.len() as int
    } else {
        spec_after_last_dot(s.drop_last())
    }
}

pub proof fn lemma_after_last_dot_bounds(s: Seq<u8>)
    ensures
        0 <= spec_after_last_dot(s) <= s.len(),
    decreases s.len(),
{
    if s.len() > 0 && s.last() != 46 {
        lemma_after_last_dot_bounds(s.drop_last());
    }
}

/// The enclosing scope of a fully-qualified name: everything before the
/// last dot, or the root scope when the name has a single segment.
pub open spec fn spec_parent_scope(s: Seq<u8>) -> Seq<u8> {
    let p = spec_after_last_dot(s);
    if p == 0 {
        Seq::empty()
    } else {
        s.take(p - 1)
    }
}

/// Returns the enclosing scope of a dotted name.
pub fn parent_scope(s: &Vec<u8>) -> (r: Vec<u8>)
    ensures
        r@ == spec_parent_scope(s@),
{
    proof {
        lemma_after_last_dot_bounds(s@);
        assert(s@.take(s@.len() as int) =~= s@);
    }
    let mut i: usize = s.len();
    while i > 0
        invariant
            i <= s.len(),
            spec_after_last_dot(s@) == spec_after_last_dot(s@.take(i as int)),
        decreases i,
    {
        proof {
            assert(s@.take(i as int).last() == s@[i - 1]);
            assert(s@.take(i as int).drop_last() =~= s@.take(i - 1));
            lemma_after_last_dot_bounds(s@.take(i as int));
        }
        if s[i - 1] == 46 {
            let mut r: Vec<u8> = Vec::new();
            let mut j: usize = 0;
            while j < i - 1
                invariant
                    j <= i - 1,
                    i <= s.len(),
                    1 <= i,
                    r@ == s@.take(j as int),
                decreases i - 1 - j,
            {
                r.push(s[j]);
                proof {
                    assert(s@.take(j as int).push(s@[j as int]) =~= s@.take(j + 1));
                }
                j += 1;
            }
            proof {
                assert(spec_after_last_dot(s@) == i as int);
            }
            return r;
        }
        i -= 1;
    }
    proof {
        assert(s@.take(0) =~= Seq::<u8>::empty());
        assert(spec_after_last_dot(s@) == 0);
    }
    Vec::new()
}

/// The camel-case conversion used for JSON names: underscores are removed
/// and the letter after each underscore is uppercased.
pub open spec fn spec_camel(s: Seq<u8>, cap: bool) -> Seq<u8>
    decreases s.len(),
{
    if s.len() == 0 {
        Seq::empty()
    } else if s[0] == 95 {
        spec_camel(s.skip(1), true)
    } else {
        seq![if cap { spec_upper(s[0]) } else { s[0] }] + spec_camel(s.skip(1), false)
    }
}

/// Camel-cases a field name; `cap` asks for the first letter to be
/// uppercased as well.
pub fn camel_name(s: &Vec<u8>, cap: bool) -> (r: Vec<u8>)
    ensures
        r@ == spec_camel(s@, cap),
{
    let mut r: Vec<u8> = Vec::new();
    let mut i: usize = 0;
    let mut c = cap;
    proof {
        assert(s@.skip(0) =~= s@);
        assert(Seq::<u8>::empty() + spec_camel(s@, cap) =~= spec_camel(s@, cap));
    }
    while i < s.len()
        invariant
            i <= s.len(),
            spec_camel(s@, cap) == r@ + spec_camel(s@.skip(i as int), c),
        decreases s.len() - i,
    {
        proof {
            assert(s@.skip(i as int).skip(1) =~= s@.skip(i + 1));
            assert(s@.skip(i as int)[0] == s@[i as int]);
        }
        if s[i] == 95 {
            c = true;
        } else {
            let b = if c {
                upper_byte(s[i])
            } else {
                s[i]
            };
            let ghost r0 = r@;
            r.push(b);
            proof {
                assert(r0.push(b) + spec_camel(s@.skip(i + 1), false) =~= r0 + (seq![b]
                    + spec_camel(s@.skip(i + 1), false)));
            }
            c = false;
        }
        i += 1;
    }
    proof {
        assert(s@.skip(s@.len() as int) =~= Seq::<u8>::empty());
        assert(r@ + Seq::<u8>::empty() =~= r@);
    }
    r
}

/// The name of a synthesized map entry message: the field name title-cased
/// with an `Entry` suffix.
pub open spec fn spec_entry_name(field: Seq<u8>) -> Seq<u8> {
    spec_camel(field, true) + seq![69u8, 110u8, 116u8, 114u8, 121u8]
}

/// Builds the synthesized entry message name for a map field.
pub fn entry_name(field: &Vec<u8>) -> (r: Vec<u8>)
    ensures
        r@ == spec_entry_name(field@),
{
    let mut r = camel_name(field, true);
    r.push(69);
    r.push(110);
    r.push(116);
    r.push(114);
    r.push(121);
    proof {
        assert(r@ =~= spec_entry_name(field@));
    }
    r
}

/// The name of the oneof synthesized to give a scalar field explicit
/// presence: the field name behind the reserved underscore marker.
pub open spec fn spec_synthetic_oneof_name(field: Seq<u8>) -> Seq<u8> {
    seq![95u8] + field
}

/// Builds the synthesized oneof name for a field with explicit presence.
pub fn synthetic_oneof_name(field: &Vec<u8>) -> (r: Vec<u8>)
    ensures
        r@ == spec_synthetic_oneof_name(field@),
{
    let mut r: Vec<u8> = Vec::new();
    r.push(95);
    crate::bytes::push_all(&mut r, field);
    proof {
        assert(r@ =~= seq![95u8] + field@);
    }
    r
}

/// The decimal digits of `n`, most significant first.
pub open spec fn spec_decimal(n: nat) -> Seq<u8>
    decreases n,
{
    if n < 10 {
        seq![(48 + n) as u8]
    } else {
        spec_decimal(n / 10).push((48 + n % 10) as u8)
    }
}

/// The decimal rendering of a signed number.
pub open spec fn spec_decimal_i32(n: int) -> Seq<u8> {
    if n < 0 {
        seq![45u8] + spec_decimal((-n) as nat)
    } else {
        spec_decimal(n as nat)
    }
}

fn push_decimal_u64(n: u64, out: &mut Vec<u8>)
    ensures
        final(out)@ == old(out)@ + spec_decimal(n as nat),
    decreases n,
{
    if n < 10 {
        out.push(48 + (n as u8));
        proof {
            assert(old(out)@.push((48 + n) as u8) =~= old(out)@ + spec_decimal(n as nat));
        }
    } else {
        push_decimal_u64(n / 10, out);
        out.push(48 + ((n % 10) as u8));
        proof {
            assert((old(out)@ + spec_decimal((n / 10) as nat)).push((48 + n % 10) as u8) =~= old(
                out,
            )@ + spec_decimal(n as nat));
        }
    }
}

/// Appends the decimal rendering of `n` to `out`.
pub fn push_decimal_i32(n: i32, out: &mut Vec<u8>)
    ensures
        final(out)@ == old(out)@ + spec_decimal_i32(n as int),
{
    if n < 0 {
        out.push(45);
        let m = -(n as i64);
        push_decimal_u64(m as u64, out);
        proof {
            assert(old(out)@.push(45u8) + spec_decimal((-(n as int)) as nat) =~= old(out)@
                + spec_decimal_i32(n as int));
        }
    } else {
        push_decimal_u64(n as u64, out);
    }
}

/// Byte-wise lexicographic order on names.
pub open spec fn spec_lex_le(a: Seq<u8>, b: Seq<u8>) -> bool
    decreases a.len(),
{
    if a.len() == 0 {
        true
    } else if b.len() == 0 {
        false
    } else if a[0] < b[0] {
        true
    } else if a[0] > b[0] {
        false
    } else {
        spec_lex_le(a.skip(1), b.skip(1))
    }
}

/// Decides the lexicographic order used to sort suggestion lists.
pub fn lex_le(a: &Vec<u8>, b: &Vec<u8>) -> (r: bool)
    ensures
        r == spec_lex_le(a@, b@),
{
    let mut i: usize = 0;
    proof {
        assert(a@.skip(0) =~= a@);
        assert(b@.skip(0) =~= b@);
    }
    while i < a.len() && i < b.len()
        invariant
            i <= a.len(),
            i <= b.len(),
            spec_lex_le(a@, b@) == spec_lex_le(a@.skip(i as int), b@.skip(i as int)),
            forall|j: int| 0 <= j < i ==> a@[j] == b@[j],
        decreases a.len() - i,
    {
        proof {
            assert(a@.skip(i as int)[0] == a@[i as int]);
            assert(b@.skip(i as int)[0] == b@[i as int]);
            assert(a@.skip(i as int).skip(1) =~= a@.skip(i + 1));
            assert(b@.skip(i as int).skip(1) =~= b@.skip(i + 1));
        }
        if a[i] < b[i] {
            return true;
        }
        if a[i] > b[i] {
            return false;
        }
        i += 1;
    }
    proof {
        if i == a.len() {
            assert(a@.skip(i as int).len() == 0);
        } else {
            assert(b@.skip(i as int).len() == 0);
            assert(a@.skip(i as int).len() > 0);
        }
    }
    i == a.len()
}

/// Stable insertion of a name into a sorted list, keeping equal names in
/// arrival order.
pub open spec fn spec_insert_sorted(x: Seq<u8>, s: Seq<Seq<u8>>) -> Seq<Seq<u8>>
    decreases s.len(),
{
    if s.len() == 0 {
        seq![x]
    } else if spec_lex_le(s[0], x) {
        seq![s[0]] + spec_insert_sorted(x, s.skip(1))
    } else {
        seq![x] + s
    }
}

/// The insertion sort of a name list, the order every suggestion list is
/// presented in.
pub open spec fn spec_sort_names(s: Seq<Seq<u8>>) -> Seq<Seq<u8>>
    decreases s.len(),
{
    if s.len() == 0 {
        Seq::empty()
    } else {
        spec_insert_sorted(s[0], spec_sort_names(s.skip(1)))
    }
}

fn insert_sorted(x: Vec<u8>, s: Vec<Vec<u8>>) -> (r: Vec<Vec<u8>>)
    ensures
        dv_names(r@) == spec_insert_sorted(x@, dv_names(s@)),
    decreases s@.len(),
{
    let mut s = s;
    if s.len() == 0 {
        let mut r: Vec<Vec<u8>> = Vec::new();
        r.push(x);
        proof {
            assert(dv_names(r@) =~= seq![x@]);
        }
        return r;
    }
    proof {
        assert(dv_names(s@)[0] == s@[0]@);
    }
    if lex_le(&s[0], &x) {
        let ghost s0 = dv_names(s@);
        let head = s.remove(0);
        proof {
            assert(dv_names(s@) =~= s0.skip(1));
        }
        let rest = insert_sorted(x, s);
        let mut r: Vec<Vec<u8>> = Vec::new();
        r.push(head);
        let mut i: usize = 0;
        while i < rest.len()
            invariant
                i <= rest.len(),
                r@.len() == i + 1,
                r@[0] == head,
                forall|j: int| 0 <= j < i ==> r@[j + 1]@ == rest@[j]@,
            decreases rest.len() - i,
        {
            let e = crate::bytes::clone_bytes(&rest[i]);
            r.push(e);
            i += 1;
        }
        proof {
            assert(dv_names(r@) =~= seq![head@] + dv_names(rest@));
        }
        r
    } else {
        let mut r: Vec<Vec<u8>> = Vec::new();
        r.push(x);
        let mut i: usize = 0;
        while i < s.len()
            invariant
                i <= s.len(),
                r@.len() == i + 1,
                r@[0]@ == x@,
                forall|j: int| 0 <= j < i ==> r@[j + 1]@ == s@[j]@,
            decreases s.len() - i,
        {
            let e = crate::bytes::clone_bytes(&s[i]);
            r.push(e);
            i += 1;
        }
        proof {
            assert(dv_names(r@) =~= seq![x@] + dv_names(s@));
        }
        r
    }
}

/// The views of a list of names.
pub open spec fn dv_names(s: Seq<Vec<u8>>) -> Seq<Seq<u8>> {
    Seq::new(s.len(), |i: int| s[i]@)
}

/// Sorts a list of names lexicographically, preserving the relative order
/// of equal names.
pub fn sort_names(s: Vec<Vec<u8>>) -> (r: Vec<Vec<u8>>)
    ensures
        dv_names(r@) == spec_sort_names(dv_names(s@)),
    decreases s@.len(),
{
    let mut s = s;
    if s.len() == 0 {
        proof {
            assert(dv_names(s@) =~= Seq::<Seq<u8>>::empty());
        }
        return Vec::new();
    }
    let ghost s0 = dv_names(s@);
    let head = s.remove(0);
    proof {
        assert(dv_names(s@) =~= s0.skip(1));
    }
    let sorted = sort_names(s);
    insert_sorted(head, sorted)
}

/// A name wrapped in single quotes.
pub open spec fn spec_quoted(n: Seq<u8>) -> Seq<u8> {
    seq![39u8] + n + seq![39u8]
}

/// The conjunction join of a suggestion list: commas between items and
/// `and` before the last when there are at least two.
pub open spec fn spec_value_list(names: Seq<Seq<u8>>) -> Seq<u8>
    decreases names.len(),
{
    if names.len() == 0 {
        Seq::empty()
    } else if names.len() == 1 {
        spec_quoted(names[0])
    } else if names.len() == 2 {
        spec_quoted(names[0]) + seq![32u8, 97u8, 110u8, 100u8, 32u8] + spec_quoted(names[1])
    } else {
        spec_quoted(names[0]) + seq![44u8, 32u8] + spec_value_list(names.skip(1))
    }
}

fn push_quoted(out: &mut Vec<u8>, n: &Vec<u8>)
    ensures
        final(out)@ == old(out)@ + spec_quoted(n@),
{
    out.push(39);
    crate::bytes::push_all(out, n);
    out.push(39);
    proof {
        assert(final(out)@ =~= old(out)@ + spec_quoted(n@));
    }
}

fn push_value_list(out: &mut Vec<u8>, names: &Vec<Vec<u8>>, start: usize)
    requires
        start <= names@.len(),
    ensures
        final(out)@ == old(out)@ + spec_value_list(dv_names(names@).skip(start as int)),
    decreases names@.len() - start,
{
    let ghost tail = dv_names(names@).skip(start as int);
    if start == names.len() {
        proof {
            assert(tail.len() == 0);
            assert(old(out)@ + spec_value_list(tail) =~= old(out)@);
        }
        return;
    }
    proof {
        assert(tail[0] == names@[start as int]@);
        assert(tail.skip(1) =~= dv_names(names@).skip(start + 1));
        if start + 2 < names@.len() {
        }
    }
    if start + 1 == names.len() {
        push_quoted(out, &names[start]);
        proof {
            assert(final(out)@ =~= old(out)@ + spec_value_list(tail));
        }
    } else if start + 2 == names.len() {
        push_quoted(out, &names[start]);
        out.push(32);
        out.push(97);
        out.push(110);
        out.push(100);
        out.push(32);
        push_quoted(out, &names[start + 1]);
        proof {
            assert(tail[1] == names@[start + 1]@);
            assert(final(out)@ =~= old(out)@ + spec_value_list(tail));
        }
    } else {
        push_quoted(out, &names[start]);
        out.push(44);
        out.push(32);
        push_value_list(out, names, start + 1);
        proof {
            assert(final(out)@ =~= old(out)@ + spec_value_list(tail));
        }
    }
}

/// The help text of an unknown enum default: the enum's value names,
/// sorted, quoted and joined.
pub open spec fn spec_possible_values_help(names: Seq<Seq<u8>>) -> Seq<u8> {
    seq![112u8, 111u8, 115u8, 115u8, 105u8, 98u8, 108u8, 101u8, 32u8, 118u8, 97u8, 108u8, 117u8, 101u8, 115u8, 32u8, 97u8, 114u8, 101u8, 32u8] + spec_value_list(spec_sort_names(names))
}

/// Builds the `possible values are ...` help text from an enum's value
/// names.
pub fn possible_values_help(names: Vec<Vec<u8>>) -> (r: Vec<u8>)
    ensures
        r@ == spec_possible_values_help(dv_names(names@)),
{
    let sorted = sort_names(names);
    let mut out: Vec<u8> = Vec::new();
    out.push(112);
    out.push(111);
    out.push(115);
    out.push(115);
    out.push(105);
    out.push(98);
    out.push(108);
    out.push(101);
    out.push(32);
    out.push(118);
    out.push(97);
    out.push(108);
    out.push(117);
    out.push(101);
    out.push(115);
    out.push(32);
    out.push(97);
    out.push(114);
    out.push(101);
    out.push(32);
    proof {
        assert(dv_names(sorted@).skip(0) =~= dv_names(sorted@));
    }
    push_value_list(&mut out, &sorted, 0);
    out
}

/// The rendering of one extension range: a bare number for a single-point
/// range, `start to end` otherwise.
pub open spec fn spec_range_text(r: crate::record::NumberRange) -> Seq<u8> {
    if r.start == r.end {
        spec_decimal_i32(r.start as int)
    } else {
        spec_decimal_i32(r.start as int) + seq![32u8, 116u8, 111u8, 32u8] + spec_decimal_i32(r.end as int)
    }
}

/// The comma-joined rendering of a range list.
pub open spec fn spec_ranges_text(rs: Seq<crate::record::NumberRange>) -> Seq<u8>
    decreases rs.len(),
{
    if rs.len() == 0 {
        Seq::empty()
    } else if rs.len() == 1 {
        spec_range_text(rs[0])
    } else {
        spec_range_text(rs[0]) + seq![44u8, 32u8] + spec_ranges_text(rs.skip(1))
    }
}

fn push_range_text(out: &mut Vec<u8>, r: crate::record::NumberRange)
    ensures
        final(out)@ == old(out)@ + spec_range_text(r),
{
    push_decimal_i32(r.start, out);
    if r.start != r.end {
        out.push(32);
        out.push(116);
        out.push(111);
        out.push(32);
        push_decimal_i32(r.end, out);
        proof {
            assert(final(out)@ =~= old(out)@ + spec_range_text(r));
        }
    }
}

fn push_ranges_text(out: &mut Vec<u8>, rs: &Vec<crate::record::NumberRange>, start: usize)
    requires
        start <= rs@.len(),
    ensures
        final(out)@ == old(out)@ + spec_ranges_text(rs@.skip(start as int)),
    decreases rs@.len() - start,
{
    let ghost tail = rs@.skip(start as int);
    if start == rs.len() {
        proof {
            assert(old(out)@ + spec_ranges_text(tail) =~= old(out)@);
        }
        return;
    }
    proof {
        assert(tail[0] == rs@[start as int]);
        assert(tail.skip(1) =~= rs@.skip(start + 1));
    }
    if start + 1 == rs.len() {
        push_range_text(out, rs[start]);
        proof {
            assert(final(out)@ =~= old(out)@ + spec_ranges_text(tail));
        }
    } else {
        push_range_text(out, rs[start]);
        out.push(44);
        out.push(32);
        push_ranges_text(out, rs, start + 1);
        proof {
            assert(final(out)@ =~= old(out)@ + spec_ranges_text(tail));
        }
    }
}

/// The help text naming a message's declared extension ranges.
pub open spec fn spec_extension_ranges_help(rs: Seq<crate::record::NumberRange>) -> Seq<u8> {
    seq![97u8, 118u8, 97u8, 105u8, 108u8, 97u8, 98u8, 108u8, 101u8, 32u8, 101u8, 120u8, 116u8, 101u8, 110u8, 115u8, 105u8, 111u8, 110u8, 32u8, 110u8, 117u8, 109u8, 98u8, 101u8, 114u8, 115u8, 32u8, 97u8, 114u8, 101u8, 32u8] + spec_ranges_text(rs)
}

/// Builds the `available extension numbers are ...` help text.
pub fn extension_ranges_help(rs: &Vec<crate::record::NumberRange>) -> (r: Vec<u8>)
    ensures
        r@ == spec_extension_ranges_help(rs@),
{
    let mut out: Vec<u8> = Vec::new();
    out.push(97);
    out.push(118);
    out.push(97);
    out.push(105);
    out.push(108);
    out.push(97);
    out.push(98);
    out.push(108);
    out.push(101);
    out.push(32);
    out.push(101);
    out.push(120);
    out.push(116);
    out.push(101);
    out.push(110);
    out.push(115);
    out.push(105);
    out.push(111);
    out.push(110);
    out.push(32);
    out.push(110);
    out.push(117);
    out.push(109);
    out.push(98);
    out.push(101);
    out.push(114);
    out.push(115);
    out.push(32);
    out.push(97);
    out.push(114);
    out.push(101);
    out.push(32);
    proof {
        assert(rs@.skip(0) =~= rs@);
    }
    push_ranges_text(&mut out, rs, 0);
    out
}

} // verus!
