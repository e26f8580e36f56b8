//! Laws the operators and the evaluator obey, proved over their specifications.
use vstd::prelude::*;

use crate::filter::{
    arity_ok, attribute_operand_value, eval_element, eval_operands, evaluate_spec, AttributeOperand,
    ContentFilter, ContentFilterElement, EvaluationError, FilterOperator, Operand,
};
use crate::address_space::AddressSpace;
use crate::operator::{
    and_spec, between_spec, equals_spec, greater_or_equal_spec, less_or_equal_spec,
    less_than_spec, number_of, or_spec, truth_of, is_null_spec,
};
use crate::types::{NodeId, Variant};

verus! {

/// Equals is symmetric: `Equals(a, b) == Equals(b, a)` for all values.
pub proof fn equals_is_symmetric(a: Variant, b: Variant)
    ensures
        equals_spec(a, b) == equals_spec(b, a),
{
}

/// LessThan is antisymmetric on numbers: when `a < b` holds, `b < a` does not.
pub proof fn less_than_is_antisymmetric(a: Variant, b: Variant)
    requires
        number_of(a) is Some,
        number_of(b) is Some,
    ensures
        less_than_spec(a, b) == Variant::Boolean(true) ==> less_than_spec(b, a) == Variant::Boolean(false),
{
}

/// On numbers, Between is GreaterOrEqual to the low end and LessOrEqual to the high end.
pub proof fn between_is_both_bounds(v: Variant, lo: Variant, hi: Variant)
    requires
        number_of(v) is Some,
        number_of(lo) is Some,
        number_of(hi) is Some,
    ensures
        between_spec(v, lo, hi) == and_spec(greater_or_equal_spec(v, lo), less_or_equal_spec(v, hi)),
{
}

/// A false side decides And, whatever the other side holds, Empty included.
pub proof fn false_decides_and(a: Variant, b: Variant)
    requires
        truth_of(a) == Some(false),
    ensures
        and_spec(a, b) == Variant::Boolean(false),
        and_spec(b, a) == Variant::Boolean(false),
{
}

/// A true side decides Or, whatever the other side holds, Empty included.
pub proof fn true_decides_or(a: Variant, b: Variant)
    requires
        truth_of(a) == Some(true),
    ensures
        or_spec(a, b) == Variant::Boolean(true),
        or_spec(b, a) == Variant::Boolean(true),
{
}

/// Against Empty, And keeps a true side unknown and Or keeps a false side unknown.
pub proof fn empty_stays_unknown(a: Variant)
    ensures
        truth_of(a) == Some(true) ==> and_spec(a, Variant::Empty) == Variant::Empty,
        truth_of(a) == Some(false) ==> or_spec(a, Variant::Empty) == Variant::Empty,
        and_spec(Variant::Empty, Variant::Empty) == Variant::Empty,
        or_spec(Variant::Empty, Variant::Empty) == Variant::Empty,
{
}

/// An attribute operand whose path leads to no node resolves to Empty, not to an error,
/// and a filter applying IsNull to it evaluates to true.
pub proof fn missing_path_is_null(s: AddressSpace, base: NodeId, a: AttributeOperand, f: ContentFilter)
    requires
        s.resolve(base, a.reference_type, a.browse_path@) is None,
        f.elements@.len() == 1,
        f.elements@[0].operator == FilterOperator::IsNull,
        f.elements@[0].operands@ == seq![Operand::Attribute(a)],
    ensures
        attribute_operand_value(s, base, a) == Variant::Empty,
        is_null_spec(attribute_operand_value(s, base, a)) == Variant::Boolean(true),
        evaluate_spec(s, base, f) == Ok::<Variant, crate::filter::EvaluationError>(Variant::Boolean(true)),
{
    let vis = Seq::new(1, |i: int| false);
    let ops = f.elements@[0].operands@;
    let vis1 = vis.update(0, true);
    assert(vis[0] == false);
    let r = eval_operands(s, base, f.elements@, ops, 1, seq![Variant::Empty], vis1, 0);
    assert(r == (Ok::<Seq<Variant>, crate::filter::EvaluationError>(seq![Variant::Empty]), vis1));
    assert(eval_operands(s, base, f.elements@, ops, 0, Seq::empty(), vis1, 0) == r) by {
        assert(Seq::<Variant>::empty().push(Variant::Empty) == seq![Variant::Empty]);
    }
}

/// Element `a` has an operand that refers to element `c`.
pub open spec fn refers(elems: Seq<ContentFilterElement>, a: int, c: int) -> bool {
    0 <= a < elems.len() && exists|k: int|
        0 <= k < elems[a].operands@.len() && #[trigger] elems[a].operands@[k] == Operand::Element(c as usize)
            && 0 <= c <= usize::MAX
}

/// Element `b` is reached from element `a` in `n` element references.
pub open spec fn reaches(elems: Seq<ContentFilterElement>, a: int, b: int, n: nat) -> bool
    decreases n,
{
    if n == 0 {
        a == b
    } else {
        exists|c: int| #[trigger] refers(elems, a, c) && reaches(elems, c, b, (n - 1) as nat)
    }
}

/// Every element reached from `j` is unmarked in `vis` and reaches itself by no path.
pub open spec fn safe_from(elems: Seq<ContentFilterElement>, j: int, vis: Seq<bool>) -> bool {
    forall|x: int, m: nat|
        #[trigger] reaches(elems, j, x, m) ==> !(0 <= x < vis.len() && vis[x]) && forall|n: nat|
            n >= 1 ==> !#[trigger] reaches(elems, x, x, n)
}

pub open spec fn grows(a: Seq<bool>, b: Seq<bool>) -> bool {
    b.len() == a.len() && forall|x: int| 0 <= x < a.len() && #[trigger] a[x] ==> b[x]
}

proof fn lemma_element_grows(s: AddressSpace, base: NodeId, elems: Seq<ContentFilterElement>, i: int, vis: Seq<bool>, fuel: nat)
    requires
        vis.len() == elems.len(),
    ensures
        grows(vis, eval_element(s, base, elems, i, vis, fuel).1),
    decreases fuel, 0nat,
{
    if 0 <= i < elems.len() && !vis[i] && fuel > 0 {
        let v1 = vis.update(i, true);
        assert(grows(vis, v1)) by {
            assert forall|x: int| 0 <= x < vis.len() && #[trigger] vis[x] implies v1[x] by {
                if x != i {
                    assert(v1[x] == vis[x]);
                }
            }
        }
        if arity_ok(elems[i].operator, elems[i].operands@.len()) {
            lemma_operands_grow(s, base, elems, elems[i].operands@, 0, Seq::empty(), v1, (fuel - 1) as nat);
            let out = eval_element(s, base, elems, i, vis, fuel).1;
            assert(grows(v1, out));
            assert forall|x: int| 0 <= x < vis.len() && #[trigger] vis[x] implies out[x] by {
                assert(v1[x]);
            }
        }
    }
}

proof fn lemma_operands_grow(
    s: AddressSpace,
    base: NodeId,
    elems: Seq<ContentFilterElement>,
    ops: Seq<Operand>,
    k: nat,
    acc: Seq<Variant>,
    vis: Seq<bool>,
    fuel: nat,
)
    requires
        vis.len() == elems.len(),
    ensures
        grows(vis, eval_operands(s, base, elems, ops, k, acc, vis, fuel).1),
    decreases fuel, ops.len() + 1 - k,
{
    if k < ops.len() {
        let (r, v) = match ops[k as int] {
            Operand::Literal(x) => (Ok(x), vis),
            Operand::Element(j) => eval_element(s, base, elems, j as int, vis, fuel),
            Operand::Attribute(a) => (Ok(attribute_operand_value(s, base, a)), vis),
        };
        if let Operand::Element(j) = ops[k as int] {
            lemma_element_grows(s, base, elems, j as int, vis, fuel);
        }
        if let Ok(x) = r {
            lemma_operands_grow(s, base, elems, ops, k + 1, acc.push(x), v, fuel);
        }
    }
}

proof fn lemma_element_safe(s: AddressSpace, base: NodeId, elems: Seq<ContentFilterElement>, i: int, vis: Seq<bool>, fuel: nat)
    requires
        vis.len() == elems.len(),
        eval_element(s, base, elems, i, vis, fuel).0 is Ok,
    ensures
        safe_from(elems, i, vis),
    decreases fuel, 0nat,
{
    let ops = elems[i].operands@;
    let v1 = vis.update(i, true);
    lemma_operands_safe(s, base, elems, ops, 0, Seq::empty(), v1, (fuel - 1) as nat);
    assert forall|x: int, m: nat| #[trigger] reaches(elems, i, x, m) implies !(0 <= x < vis.len() && vis[x])
        && forall|n: nat| n >= 1 ==> !#[trigger] reaches(elems, x, x, n) by {
        if m == 0 {
            assert(x == i);
            assert forall|n: nat| n >= 1 implies !#[trigger] reaches(elems, x, x, n) by {
                if reaches(elems, i, i, n) {
                    let c = choose|c: int| #[trigger] refers(elems, i, c) && reaches(elems, c, i, (n - 1) as nat);
                    let k = choose|k: int| 0 <= k < ops.len() && #[trigger] ops[k] == Operand::Element(c as usize);
                    assert(safe_from(elems, c, v1));
                    assert(reaches(elems, c, i, (n - 1) as nat));
                    assert(v1[i]);
                }
            }
        } else {
            let c = choose|c: int| #[trigger] refers(elems, i, c) && reaches(elems, c, x, (m - 1) as nat);
            let k = choose|k: int| 0 <= k < ops.len() && #[trigger] ops[k] == Operand::Element(c as usize);
            assert(safe_from(elems, c, v1));
            assert(reaches(elems, c, x, (m - 1) as nat));
        }
    }
}

proof fn lemma_operands_safe(
    s: AddressSpace,
    base: NodeId,
    elems: Seq<ContentFilterElement>,
    ops: Seq<Operand>,
    k: nat,
    acc: Seq<Variant>,
    vis: Seq<bool>,
    fuel: nat,
)
    requires
        vis.len() == elems.len(),
        eval_operands(s, base, elems, ops, k, acc, vis, fuel).0 is Ok,
    ensures
        forall|k2: int| k <= k2 < ops.len() && #[trigger] ops[k2] is Element ==> safe_from(elems, ops[k2]->Element_0 as int, vis),
    decreases fuel, ops.len() + 1 - k,
{
    if k < ops.len() {
        let (r, v) = match ops[k as int] {
            Operand::Literal(x) => (Ok(x), vis),
            Operand::Element(j) => eval_element(s, base, elems, j as int, vis, fuel),
            Operand::Attribute(a) => (Ok(attribute_operand_value(s, base, a)), vis),
        };
        if let Operand::Element(j) = ops[k as int] {
            lemma_element_safe(s, base, elems, j as int, vis, fuel);
            lemma_element_grows(s, base, elems, j as int, vis, fuel);
        }
        let x = r->Ok_0;
        lemma_operands_safe(s, base, elems, ops, k + 1, acc.push(x), v, fuel);
        assert forall|k2: int| k <= k2 < ops.len() && #[trigger] ops[k2] is Element implies safe_from(elems, ops[k2]->Element_0 as int, vis) by {
            if k2 > k {
                lemma_safe_shrinks(elems, ops[k2]->Element_0 as int, v, vis);
            }
        }
    }
}

proof fn lemma_safe_shrinks(elems: Seq<ContentFilterElement>, j: int, big: Seq<bool>, small: Seq<bool>)
    requires
        safe_from(elems, j, big),
        grows(small, big),
    ensures
        safe_from(elems, j, small),
{
    assert forall|x: int, m: nat| #[trigger] reaches(elems, j, x, m) implies !(0 <= x < small.len() && small[x])
        && forall|n: nat| n >= 1 ==> !#[trigger] reaches(elems, x, x, n) by {
        if 0 <= x < small.len() && small[x] {
            assert(big[x]);
        }
    }
}

/// Every element reference of the filter is in range and every element has the number
/// of operands its operator takes.
pub open spec fn well_formed_filter(elems: Seq<ContentFilterElement>) -> bool {
    &&& forall|a: int| 0 <= a < elems.len() ==> arity_ok(#[trigger] elems[a].operator, elems[a].operands@.len())
    &&& forall|a: int, k: int|
        0 <= a < elems.len() && 0 <= k < elems[a].operands@.len() && #[trigger] elems[a].operands@[k] is Element
            ==> (elems[a].operands@[k]->Element_0 as int) < elems.len()
}

proof fn lemma_element_only_cycles(s: AddressSpace, base: NodeId, elems: Seq<ContentFilterElement>, i: int, vis: Seq<bool>, fuel: nat)
    requires
        well_formed_filter(elems),
        0 <= i < elems.len(),
        vis.len() == elems.len(),
    ensures
        eval_element(s, base, elems, i, vis, fuel).0 matches Err(e) ==> e is CycleDetected,
    decreases fuel, 0nat,
{
    if !vis[i] && fuel > 0 {
        assert(arity_ok(elems[i].operator, elems[i].operands@.len()));
        lemma_operands_only_cycles(s, base, elems, i, 0, Seq::empty(), vis.update(i, true), (fuel - 1) as nat);
    }
}

proof fn lemma_operands_only_cycles(
    s: AddressSpace,
    base: NodeId,
    elems: Seq<ContentFilterElement>,
    a: int,
    k: nat,
    acc: Seq<Variant>,
    vis: Seq<bool>,
    fuel: nat,
)
    requires
        well_formed_filter(elems),
        0 <= a < elems.len(),
        vis.len() == elems.len(),
    ensures
        eval_operands(s, base, elems, elems[a].operands@, k, acc, vis, fuel).0 matches Err(e) ==> e is CycleDetected,
    decreases fuel, elems[a].operands@.len() + 1 - k,
{
    let ops = elems[a].operands@;
    if k < ops.len() {
        let (r, v) = match ops[k as int] {
            Operand::Literal(x) => (Ok(x), vis),
            Operand::Element(j) => eval_element(s, base, elems, j as int, vis, fuel),
            Operand::Attribute(o) => (Ok(attribute_operand_value(s, base, o)), vis),
        };
        if let Operand::Element(j) = ops[k as int] {
            assert(ops[k as int] is Element);
            lemma_element_only_cycles(s, base, elems, j as int, vis, fuel);
            lemma_element_grows(s, base, elems, j as int, vis, fuel);
        }
        if let Ok(x) = r {
            lemma_operands_only_cycles(s, base, elems, a, k + 1, acc.push(x), v, fuel);
        }
    }
}

/// On a filter whose references are in range and whose elements have the right number
/// of operands, element 0 leading to an element that leads back to itself gives a
/// cycle error.
pub proof fn cycle_in_well_formed_filter_is_reported(s: AddressSpace, base: NodeId, f: ContentFilter, i: int, m: nat, n: nat)
    requires
        well_formed_filter(f.elements@),
        reaches(f.elements@, 0, i, m),
        n >= 1,
        reaches(f.elements@, i, i, n),
    ensures
        evaluate_spec(s, base, f) matches Err(e) && e is CycleDetected,
{
    cyclic_filter_is_an_error(s, base, f, i, m, n);
    let len = f.elements@.len();
    if len == 0 {
        if m > 0 {
            let c = choose|c: int| #[trigger] refers(f.elements@, 0, c) && reaches(f.elements@, c, i, (m - 1) as nat);
        } else {
            let c = choose|c: int| #[trigger] refers(f.elements@, i, c) && reaches(f.elements@, c, i, (n - 1) as nat);
        }
    }
    lemma_element_only_cycles(s, base, f.elements@, 0, Seq::new(len, |k: int| false), len);
}

/// A filter in which element 0 leads to an element that leads back to itself never
/// evaluates to a value: the walk ends in an error, whatever the filter's size.
pub proof fn cyclic_filter_is_an_error(s: AddressSpace, base: NodeId, f: ContentFilter, i: int, m: nat, n: nat)
    requires
        reaches(f.elements@, 0, i, m),
        n >= 1,
        reaches(f.elements@, i, i, n),
    ensures
        evaluate_spec(s, base, f) is Err,
{
    let len = f.elements@.len();
    let vis = Seq::new(len, |k: int| false);
    if evaluate_spec(s, base, f) is Ok {
        lemma_element_safe(s, base, f.elements@, 0, vis, len);
        assert(reaches(f.elements@, 0, i, m));
        assert(!reaches(f.elements@, i, i, n));
    }
}

} // verus!
