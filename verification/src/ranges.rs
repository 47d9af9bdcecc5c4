//! The range and number validator. Each message contributes three interval
//! sets — reserved ranges, extension ranges, and its fields as one-point
//! intervals — and each enum two (reserved ranges and values). A range
//! whose end precedes its start, or a number outside the permitted bounds,
//! is an *InvalidRange*; any overlap between two distinct valid
//! declarations is a *DuplicateNumber* identifying both sides. The
//! reported pair is ordered by start, with declaration order breaking
//! ties, so the report is the same whichever side was declared first.

use vstd::prelude::*;

use crate::condition::{Condition, ConditionV, NumberSpan, NumberSpanV};
use crate::bytes::clone_bytes;

verus! {

/// The largest field or extension number a message may use.
pub const MAX_FIELD_NUMBER: i32 = 536870911;

/// The first number of the block reserved for the wire format
/// implementation.
pub const IMPL_RESERVED_FIRST: i32 = 19000;

/// The last number of the block reserved for the wire format
/// implementation.
pub const IMPL_RESERVED_LAST: i32 = 19999;

/// Which container's numbering rules apply. An enum that sets the alias
/// option may give two values one number.
#[derive(Clone, Copy, Debug, PartialEq, Eq, Structural)]
pub enum ContainerKind {
    Message,
    Enum { allow_alias: bool },
}

/// One numbered declaration of a container, as an inclusive interval.
pub struct NumberItem {
    pub start: i32,
    pub end: i32,
    pub span: NumberSpan,
}

/// Spec mirror of [`NumberItem`].
#[verifier::ext_equal]
pub struct NumberItemV {
    pub start: i32,
    pub end: i32,
    pub span: NumberSpanV,
}

impl NumberItem {
    pub open spec fn dv(&self) -> NumberItemV {
        NumberItemV { start: self.start, end: self.end, span: self.span.dv() }
    }
}

pub open spec fn dv_items(s: Seq<NumberItem>) -> Seq<NumberItemV> {
    Seq::new(s.len(), |i: int| s[i].dv())
}

/// Whether an item respects its container's bounds. Enum values may use
/// the full signed range; everything else must lie between 1 and the
/// field-number maximum, and a field must stay clear of the
/// implementation-reserved block.
pub open spec fn spec_item_valid(kind: ContainerKind, it: NumberItemV) -> bool {
    match kind {
        ContainerKind::Message => {
            &&& it.start <= it.end
            &&& 1 <= it.start
            &&& it.end <= MAX_FIELD_NUMBER
            &&& (it.span is Field ==> !(IMPL_RESERVED_FIRST <= it.start <= IMPL_RESERVED_LAST))
        },
        ContainerKind::Enum { .. } => {
            if it.span is EnumValue {
                true
            } else {
                it.start <= it.end
            }
        },
    }
}

fn item_valid(kind: ContainerKind, it: &NumberItem) -> (r: bool)
    ensures
        r == spec_item_valid(kind, it.dv()),
{
    match kind {
        ContainerKind::Message => it.start <= it.end && 1 <= it.start && it.end <= MAX_FIELD_NUMBER
            && (!matches!(it.span, NumberSpan::Field { .. }) || !(IMPL_RESERVED_FIRST <= it.start
            && it.start <= IMPL_RESERVED_LAST)),
        ContainerKind::Enum { .. } => {
            if matches!(it.span, NumberSpan::EnumValue { .. }) {
                true
            } else {
                it.start <= it.end
            }
        },
    }
}

/// Whether two valid items claim a common number that must be reported:
/// under the alias option, two enum values may share one.
pub open spec fn spec_overlap(kind: ContainerKind, a: NumberItemV, b: NumberItemV) -> bool {
    &&& spec_item_valid(kind, a)
    &&& spec_item_valid(kind, b)
    &&& a.start <= b.end
    &&& b.start <= a.end
    &&& !(kind matches ContainerKind::Enum { allow_alias: true } && a.span is EnumValue
        && b.span is EnumValue)
}

/// The *InvalidRange* conditions of the first `n` items, in declaration
/// order.
pub open spec fn spec_invalid_conds(
    items: Seq<NumberItemV>,
    kind: ContainerKind,
    container: Seq<u8>,
    n: int,
) -> Seq<ConditionV>
    decreases n,
{
    if n <= 0 {
        Seq::empty()
    } else {
        let pre = spec_invalid_conds(items, kind, container, n - 1);
        if spec_item_valid(kind, items[n - 1]) {
            pre
        } else {
            pre.push(
                ConditionV::InvalidRange {
                    container,
                    start: items[n - 1].start,
                    end: items[n - 1].end,
                },
            )
        }
    }
}

/// The condition reported for one overlapping pair, `i` declared before
/// `j`: the side with the smaller start is named first, declaration order
/// deciding ties.
pub open spec fn spec_pair_condition(
    items: Seq<NumberItemV>,
    container: Seq<u8>,
    i: int,
    j: int,
) -> ConditionV {
    if items[i].start <= items[j].start {
        ConditionV::DuplicateNumber { container, first: items[i].span, second: items[j].span }
    } else {
        ConditionV::DuplicateNumber { container, first: items[j].span, second: items[i].span }
    }
}

/// The overlap conditions of item `j` against items `i..j`.
pub open spec fn spec_row_conds(
    items: Seq<NumberItemV>,
    kind: ContainerKind,
    container: Seq<u8>,
    j: int,
    i: int,
) -> Seq<ConditionV>
    decreases j - i,
{
    if i < 0 || i >= j {
        Seq::empty()
    } else {
        let rest = spec_row_conds(items, kind, container, j, i + 1);
        if spec_overlap(kind, items[i], items[j]) {
            seq![spec_pair_condition(items, container, i, j)] + rest
        } else {
            rest
        }
    }
}

/// Every overlap condition of the first `n` items: each later declaration
/// is checked against all earlier ones, so one condition arises per
/// overlapping pair of distinct declarations.
pub open spec fn spec_overlap_conds(
    items: Seq<NumberItemV>,
    kind: ContainerKind,
    container: Seq<u8>,
    n: int,
) -> Seq<ConditionV>
    decreases n,
{
    if n <= 0 {
        Seq::empty()
    } else {
        spec_overlap_conds(items, kind, container, n - 1) + spec_row_conds(
            items,
            kind,
            container,
            n - 1,
            0,
        )
    }
}

/// The full number validation of one container: invalid ranges first,
/// then the overlaps.
pub open spec fn spec_number_conds(
    items: Seq<NumberItemV>,
    kind: ContainerKind,
    container: Seq<u8>,
) -> Seq<ConditionV> {
    spec_invalid_conds(items, kind, container, items.len() as int) + spec_overlap_conds(
        items,
        kind,
        container,
        items.len() as int,
    )
}

fn make_pair_condition(items: &Vec<NumberItem>, container: &Vec<u8>, i: usize, j: usize) -> (r:
    Condition)
    requires
        i < items@.len(),
        j < items@.len(),
    ensures
        r.dv() == spec_pair_condition(dv_items(items@), container@, i as int, j as int),
{
    let r = if items[i].start <= items[j].start {
        Condition::DuplicateNumber {
            container: clone_bytes(container),
            first: items[i].span.clone(),
            second: items[j].span.clone(),
        }
    } else {
        Condition::DuplicateNumber {
            container: clone_bytes(container),
            first: items[j].span.clone(),
            second: items[i].span.clone(),
        }
    };
    proof {
        assert(r.dv() =~= spec_pair_condition(dv_items(items@), container@, i as int, j as int));
    }
    r
}

/// Validates one container's numbered declarations and reports every
/// invalid range and every overlapping pair.
#[verifier::loop_isolation(false)]
pub fn check_numbers(items: &Vec<NumberItem>, kind: ContainerKind, container: &Vec<u8>) -> (r:
    Vec<Condition>)
    ensures
        crate::condition::dv_conditions(r@) == spec_number_conds(
            dv_items(items@),
            kind,
            container@,
        ),
{
    let ghost sitems = dv_items(items@);
    let mut out: Vec<Condition> = Vec::new();
    let mut n: usize = 0;
    while n < items.len()
        invariant
            n <= items.len(),
            crate::condition::dv_conditions(out@) == spec_invalid_conds(
                sitems,
                kind,
                container@,
                n as int,
            ),
        decreases items.len() - n,
    {
        if !item_valid(kind, &items[n]) {
            let c = Condition::InvalidRange {
                container: clone_bytes(container),
                start: items[n].start,
                end: items[n].end,
            };
            let ghost pre = crate::condition::dv_conditions(out@);
            out.push(c);
            proof {
                assert(crate::condition::dv_conditions(out@) =~= pre.push(
                    ConditionV::InvalidRange {
                        container: container@,
                        start: sitems[n as int].start,
                        end: sitems[n as int].end,
                    },
                ));
            }
        }
        n += 1;
    }
    let ghost invalid_part = crate::condition::dv_conditions(out@);
    let mut j: usize = 0;
    while j < items.len()
        invariant
            j <= items.len(),
            crate::condition::dv_conditions(out@) == invalid_part + spec_overlap_conds(
                sitems,
                kind,
                container@,
                j as int,
            ),
        decreases items.len() - j,
    {
        let ghost row_base = crate::condition::dv_conditions(out@);
        let mut i: usize = 0;
        while i < j
            invariant
                i <= j,
                j < items.len(),
                crate::condition::dv_conditions(out@) + spec_row_conds(
                    sitems,
                    kind,
                    container@,
                    j as int,
                    i as int,
                ) == row_base + spec_row_conds(sitems, kind, container@, j as int, 0),
            decreases j - i,
        {
            let both_valid = item_valid(kind, &items[i]) && item_valid(kind, &items[j]);
            let aliased = matches!(kind, ContainerKind::Enum { allow_alias: true }) && matches!(
                items[i].span,
                NumberSpan::EnumValue { .. },
            ) && matches!(items[j].span, NumberSpan::EnumValue { .. });
            if both_valid && !aliased && items[i].start <= items[j].end && items[j].start
                <= items[i].end {
                let c = make_pair_condition(items, container, i, j);
                let ghost pre = crate::condition::dv_conditions(out@);
                out.push(c);
                proof {
                    assert(spec_overlap(kind, sitems[i as int], sitems[j as int]));
                    assert(crate::condition::dv_conditions(out@) =~= pre.push(
                        spec_pair_condition(sitems, container@, i as int, j as int),
                    ));
                    assert(pre.push(spec_pair_condition(sitems, container@, i as int, j as int))
                        + spec_row_conds(sitems, kind, container@, j as int, i + 1) =~= pre + (
                    seq![spec_pair_condition(sitems, container@, i as int, j as int)]
                        + spec_row_conds(sitems, kind, container@, j as int, i + 1)));
                }
            } else {
                proof {
                    assert(!spec_overlap(kind, sitems[i as int], sitems[j as int]));
                }
            }
            i += 1;
        }
        proof {
            assert(spec_row_conds(sitems, kind, container@, j as int, j as int)
                =~= Seq::<ConditionV>::empty());
            assert(crate::condition::dv_conditions(out@) + Seq::<ConditionV>::empty()
                =~= crate::condition::dv_conditions(out@));
            assert(crate::condition::dv_conditions(out@) =~= invalid_part + spec_overlap_conds(
                sitems,
                kind,
                container@,
                j + 1,
            ));
        }
        j += 1;
    }
    out
}

/// The number of overlapping pairs among the first `j` items and item `j`.
pub open spec fn spec_row_count(
    items: Seq<NumberItemV>,
    kind: ContainerKind,
    j: int,
    i: int,
) -> int
    decreases j - i,
{
    if i < 0 || i >= j {
        0
    } else {
        (if spec_overlap(kind, items[i], items[j]) {
            1int
        } else {
            0int
        }) + spec_row_count(items, kind, j, i + 1)
    }
}

/// The number of overlapping pairs of distinct declarations among the
/// first `n` items.
pub open spec fn spec_overlap_pair_count(items: Seq<NumberItemV>, kind: ContainerKind, n: int) -> int
    decreases n,
{
    if n <= 0 {
        0
    } else {
        spec_overlap_pair_count(items, kind, n - 1) + spec_row_count(items, kind, n - 1, 0)
    }
}

proof fn lemma_row_len(items: Seq<NumberItemV>, kind: ContainerKind, container: Seq<u8>, j: int, i: int)
    ensures
        spec_row_conds(items, kind, container, j, i).len() == spec_row_count(items, kind, j, i),
    decreases j - i,
{
    if 0 <= i < j {
        lemma_row_len(items, kind, container, j, i + 1);
    }
}

/// One condition arises for each overlapping pair of distinct
/// declarations, and none for a declaration against itself: the overlap
/// report count equals the overlapping-pair count exactly.
pub proof fn lemma_overlap_conds_count(
    items: Seq<NumberItemV>,
    kind: ContainerKind,
    container: Seq<u8>,
    n: int,
)
    ensures
        spec_overlap_conds(items, kind, container, n).len() == spec_overlap_pair_count(
            items,
            kind,
            n,
        ),
    decreases n,
{
    if n > 0 {
        lemma_overlap_conds_count(items, kind, container, n - 1);
        lemma_row_len(items, kind, container, n - 1, 0);
    }
}

proof fn lemma_row_reports(
    items: Seq<NumberItemV>,
    kind: ContainerKind,
    container: Seq<u8>,
    j: int,
    i: int,
    target: int,
)
    requires
        0 <= i <= target < j,
        spec_overlap(kind, items[target], items[j]),
    ensures
        spec_row_conds(items, kind, container, j, i).contains(
            spec_pair_condition(items, container, target, j),
        ),
    decreases j - i,
{
    let c = spec_pair_condition(items, container, target, j);
    let row = spec_row_conds(items, kind, container, j, i);
    if i == target {
        assert(row.contains(c)) by {
            assert(row[0] == c);
        }
    } else {
        lemma_row_reports(items, kind, container, j, i + 1, target);
        let rest = spec_row_conds(items, kind, container, j, i + 1);
        let k = choose|k: int| 0 <= k < rest.len() && rest[k] == c;
        if spec_overlap(kind, items[i], items[j]) {
            assert(row.contains(c)) by {
                assert(row[k + 1] == c);
            }
        } else {
            assert(row.contains(c)) by {
                assert(row[k] == c);
            }
        }
    }
}

/// Overlap symmetry: whenever two distinct declarations of one container
/// overlap, the validator's output contains the condition naming both of
/// them, whichever order they were declared in — the reported pair is
/// determined by the numbers, with declaration order only breaking ties.
pub proof fn lemma_overlap_reported(
    items: Seq<NumberItemV>,
    kind: ContainerKind,
    container: Seq<u8>,
    i: int,
    j: int,
)
    requires
        0 <= i < j < items.len(),
        spec_overlap(kind, items[i], items[j]),
    ensures
        spec_number_conds(items, kind, container).contains(
            spec_pair_condition(items, container, i, j),
        ),
{
    lemma_overlap_in_prefix(items, kind, container, i, j, items.len() as int);
    let c = spec_pair_condition(items, container, i, j);
    let oc = spec_overlap_conds(items, kind, container, items.len() as int);
    let k = choose|k: int| 0 <= k < oc.len() && oc[k] == c;
    let ic = spec_invalid_conds(items, kind, container, items.len() as int);
    assert(spec_number_conds(items, kind, container)[ic.len() + k] == c);
}

proof fn lemma_overlap_in_prefix(
    items: Seq<NumberItemV>,
    kind: ContainerKind,
    container: Seq<u8>,
    i: int,
    j: int,
    n: int,
)
    requires
        0 <= i < j < n <= items.len(),
        spec_overlap(kind, items[i], items[j]),
    ensures
        spec_overlap_conds(items, kind, container, n).contains(
            spec_pair_condition(items, container, i, j),
        ),
    decreases n,
{
    let c = spec_pair_condition(items, container, i, j);
    if j == n - 1 {
        lemma_row_reports(items, kind, container, j, 0, i);
        let row = spec_row_conds(items, kind, container, n - 1, 0);
        let k = choose|k: int| 0 <= k < row.len() && row[k] == c;
        assert(spec_overlap_conds(items, kind, container, n)[spec_overlap_conds(
            items,
            kind,
            container,
            n - 1,
        ).len() + k] == c);
    } else {
        lemma_overlap_in_prefix(items, kind, container, i, j, n - 1);
        let pre = spec_overlap_conds(items, kind, container, n - 1);
        let k = choose|k: int| 0 <= k < pre.len() && pre[k] == c;
        assert(spec_overlap_conds(items, kind, container, n)[k] == c);
    }
}

} // verus!
