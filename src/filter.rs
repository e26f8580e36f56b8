//! Content filters: elements of operators over operands, and their evaluation.
use vstd::prelude::*;

use crate::address_space::AddressSpace;
use crate::operator::{
    and, and_spec, between, between_spec, bitwise_and, bitwise_and_spec, bitwise_or,
    bitwise_or_spec, equals, equals_spec, greater_or_equal, greater_or_equal_spec, greater_than,
    greater_than_spec, in_list, in_list_spec, is_null, is_null_spec, less_or_equal,
    less_or_equal_spec, less_than, less_than_spec, like, like_spec, not, not_spec, or, or_spec,
};
use crate::types::{AttributeId, NodeId, Variant};

verus! {

#[derive(Debug, Clone, Copy, PartialEq, Eq, Structural)]
pub enum FilterOperator {
    Equals,
    IsNull,
    GreaterThan,
    LessThan,
    GreaterThanOrEqual,
    LessThanOrEqual,
    Like,
    Not,
    Between,
    InList,
    And,
    Or,
    BitwiseAnd,
    BitwiseOr,
}

/// An attribute of the node a browse path leads to from the base node.
#[derive(Debug, Clone, PartialEq)]
pub struct AttributeOperand {
    pub reference_type: NodeId,
    pub browse_path: Vec<String>,
    pub attribute_id: AttributeId,
    /// A range of array elements; values here are scalars, so an operand that names a
    /// range resolves to Empty.
    pub index_range: Option<String>,
}

#[derive(Debug, Clone, PartialEq)]
pub enum Operand {
    Literal(Variant),
    /// The value of another element of the same filter, by position.
    Element(usize),
    Attribute(AttributeOperand),
}

#[derive(Debug, Clone, PartialEq)]
pub struct ContentFilterElement {
    pub operator: FilterOperator,
    pub operands: Vec<Operand>,
}

/// A filter: element 0 is the root of the evaluation.
#[derive(Debug, Clone, PartialEq)]
pub struct ContentFilter {
    pub elements: Vec<ContentFilterElement>,
}

/// Why a filter could not be evaluated.
#[derive(Debug, Clone, Copy, PartialEq, Eq, Structural)]
pub enum EvaluationError {
    /// The element at this index was reached a second time.
    CycleDetected(usize),
    /// An element reference names this index, which is not in the filter.
    ElementOutOfRange(usize),
    /// The element at this index has the wrong number of operands for its operator.
    WrongOperandCount(usize),
}

pub open spec fn arity_ok(op: FilterOperator, n: nat) -> bool {
    match op {
        FilterOperator::IsNull | FilterOperator::Not => n == 1,
        FilterOperator::Between => n == 3,
        FilterOperator::InList => n >= 2,
        _ => n == 2,
    }
}

/// The operator applied to values of the right number.
pub open spec fn apply_spec(op: FilterOperator, v: Seq<Variant>) -> Variant {
    match op {
        FilterOperator::Equals => equals_spec(v[0], v[1]),
        FilterOperator::IsNull => is_null_spec(v[0]),
        FilterOperator::GreaterThan => greater_than_spec(v[0], v[1]),
        FilterOperator::LessThan => less_than_spec(v[0], v[1]),
        FilterOperator::GreaterThanOrEqual => greater_or_equal_spec(v[0], v[1]),
        FilterOperator::LessThanOrEqual => less_or_equal_spec(v[0], v[1]),
        FilterOperator::Like => like_spec(v[0], v[1]),
        FilterOperator::Not => not_spec(v[0]),
        FilterOperator::Between => between_spec(v[0], v[1], v[2]),
        FilterOperator::InList => in_list_spec(v[0], v.skip(1)),
        FilterOperator::And => and_spec(v[0], v[1]),
        FilterOperator::Or => or_spec(v[0], v[1]),
        FilterOperator::BitwiseAnd => bitwise_and_spec(v[0], v[1]),
        FilterOperator::BitwiseOr => bitwise_or_spec(v[0], v[1]),
    }
}

/// The value of an attribute operand at `base`.
pub open spec fn attribute_operand_value(s: AddressSpace, base: NodeId, a: AttributeOperand) -> Variant {
    if a.index_range is Some {
        Variant::Empty
    } else {
        match s.resolve(base, a.reference_type, a.browse_path@) {
            Some(id) => s.attribute(id, a.attribute_id),
            None => Variant::Empty,
        }
    }
}

/// Evaluates element `i` with the elements marked in `vis` already visited; the
/// result comes with the visited marks after the walk. Each element entered takes one
/// unit of `fuel`.
pub open spec fn eval_element(
    s: AddressSpace,
    base: NodeId,
    elems: Seq<ContentFilterElement>,
    i: int,
    vis: Seq<bool>,
    fuel: nat,
) -> (Result<Variant, EvaluationError>, Seq<bool>)
    decreases fuel, 0nat,
{
    if !(0 <= i < elems.len()) {
        (Err(EvaluationError::ElementOutOfRange(i as usize)), vis)
    } else if vis[i] || fuel == 0 {
        (Err(EvaluationError::CycleDetected(i as usize)), vis)
    } else if !arity_ok(elems[i].operator, elems[i].operands@.len()) {
        (Err(EvaluationError::WrongOperandCount(i as usize)), vis.update(i, true))
    } else {
        let (r, v) = eval_operands(s, base, elems, elems[i].operands@, 0, Seq::empty(), vis.update(i, true), (fuel - 1) as nat);
        match r {
            Ok(vals) => (Ok(apply_spec(elems[i].operator, vals)), v),
            Err(e) => (Err(e), v),
        }
    }
}

/// Resolves operands `k..` of `ops` in order after the values `acc` of those before.
pub open spec fn eval_operands(
    s: AddressSpace,
    base: NodeId,
    elems: Seq<ContentFilterElement>,
    ops: Seq<Operand>,
    k: nat,
    acc: Seq<Variant>,
    vis: Seq<bool>,
    fuel: nat,
) -> (Result<Seq<Variant>, EvaluationError>, Seq<bool>)
    decreases fuel, ops.len() + 1 - k,
{
    if k >= ops.len() {
        (Ok(acc), vis)
    } else {
        let (r, v) = match ops[k as int] {
            Operand::Literal(x) => (Ok(x), vis),
            Operand::Element(j) => eval_element(s, base, elems, j as int, vis, fuel),
            Operand::Attribute(a) => (Ok(attribute_operand_value(s, base, a)), vis),
        };
        match r {
            Ok(x) => eval_operands(s, base, elems, ops, k + 1, acc.push(x), v, fuel),
            Err(e) => (Err(e), v),
        }
    }
}

/// The verdict of a filter at `base`: the value of element 0.
pub open spec fn evaluate_spec(s: AddressSpace, base: NodeId, f: ContentFilter) -> Result<Variant, EvaluationError> {
    let n = f.elements@.len();
    eval_element(s, base, f.elements@, 0, Seq::new(n, |i: int| false), n).0
}

fn apply(op: FilterOperator, v: &Vec<Variant>) -> (r: Variant)
    requires
        arity_ok(op, v@.len()),
    ensures
        r == apply_spec(op, v@),
{
    match op {
        FilterOperator::Equals => equals(&v[0], &v[1]),
        FilterOperator::IsNull => is_null(&v[0]),
        FilterOperator::GreaterThan => greater_than(&v[0], &v[1]),
        FilterOperator::LessThan => less_than(&v[0], &v[1]),
        FilterOperator::GreaterThanOrEqual => greater_or_equal(&v[0], &v[1]),
        FilterOperator::LessThanOrEqual => less_or_equal(&v[0], &v[1]),
        FilterOperator::Like => like(&v[0], &v[1]),
        FilterOperator::Not => not(&v[0]),
        FilterOperator::Between => between(&v[0], &v[1], &v[2]),
        FilterOperator::InList => {
            let mut rest: Vec<Variant> = Vec::new();
            let mut k: usize = 1;
            while k < v.len()
                invariant
                    1 <= k <= v@.len(),
                    rest@ == v@.subrange(1, k as int),
                decreases v@.len() - k,
            {
                rest.push(v[k].copy());
                k = k + 1;
                assert(rest@ =~= v@.subrange(1, k as int));
            }
            assert(v@.skip(1) =~= rest@);
            in_list(&v[0], rest.as_slice())
        },
        FilterOperator::And => and(&v[0], &v[1]),
        FilterOperator::Or => or(&v[0], &v[1]),
        FilterOperator::BitwiseAnd => bitwise_and(&v[0], &v[1]),
        FilterOperator::BitwiseOr => bitwise_or(&v[0], &v[1]),
    }
}

fn attribute_operand_exec(s: &AddressSpace, base: &NodeId, a: &AttributeOperand) -> (r: Variant)
    ensures
        r == attribute_operand_value(*s, *base, *a),
{
    if a.index_range.is_some() {
        Variant::Empty
    } else {
        s.read_relative(base, &a.reference_type, &a.browse_path, a.attribute_id)
    }
}

fn eval_element_exec(
    s: &AddressSpace,
    base: &NodeId,
    elems: &Vec<ContentFilterElement>,
    i: usize,
    vis: &mut Vec<bool>,
    fuel: usize,
) -> (r: Result<Variant, EvaluationError>)
    requires
        old(vis)@.len() == elems@.len(),
    ensures
        final(vis)@.len() == elems@.len(),
        (r, final(vis)@) == eval_element(*s, *base, elems@, i as int, old(vis)@, fuel as nat),
    decreases fuel, 0nat,
{
    if i >= elems.len() {
        return Err(EvaluationError::ElementOutOfRange(i));
    }
    if vis[i] || fuel == 0 {
        return Err(EvaluationError::CycleDetected(i));
    }
    vis.set(i, true);
    let e = &elems[i];
    if !(match e.operator {
        FilterOperator::IsNull | FilterOperator::Not => e.operands.len() == 1,
        FilterOperator::Between => e.operands.len() == 3,
        FilterOperator::InList => e.operands.len() >= 2,
        _ => e.operands.len() == 2,
    }) {
        return Err(EvaluationError::WrongOperandCount(i));
    }
    match eval_operands_exec(s, base, elems, &e.operands, vis, fuel - 1) {
        Ok(vals) => Ok(apply(e.operator, &vals)),
        Err(err) => Err(err),
    }
}

fn eval_operands_exec(
    s: &AddressSpace,
    base: &NodeId,
    elems: &Vec<ContentFilterElement>,
    ops: &Vec<Operand>,
    vis: &mut Vec<bool>,
    fuel: usize,
) -> (r: Result<Vec<Variant>, EvaluationError>)
    requires
        old(vis)@.len() == elems@.len(),
    ensures
        final(vis)@.len() == elems@.len(),
        match r {
            Ok(vals) => eval_operands(*s, *base, elems@, ops@, 0, Seq::empty(), old(vis)@, fuel as nat)
                == (Ok::<Seq<Variant>, EvaluationError>(vals@), final(vis)@)
                && vals@.len() == ops@.len(),
            Err(e) => eval_operands(*s, *base, elems@, ops@, 0, Seq::empty(), old(vis)@, fuel as nat)
                == (Err::<Seq<Variant>, EvaluationError>(e), final(vis)@),
        },
    decreases fuel, 1nat,
{
    let mut vals: Vec<Variant> = Vec::new();
    let mut k: usize = 0;
    while k < ops.len()
        invariant
            k <= ops@.len(),
            vals@.len() == k,
            vis@.len() == elems@.len(),
            eval_operands(*s, *base, elems@, ops@, 0, Seq::empty(), old(vis)@, fuel as nat)
                == eval_operands(*s, *base, elems@, ops@, k as nat, vals@, vis@, fuel as nat),
        decreases ops@.len() - k,
    {
        let x = match &ops[k] {
            Operand::Literal(v) => v.copy(),
            Operand::Element(j) => match eval_element_exec(s, base, elems, *j, vis, fuel) {
                Ok(v) => v,
                Err(e) => {
                    return Err(e);
                },
            },
            Operand::Attribute(a) => attribute_operand_exec(s, base, a),
        };
        vals.push(x);
        k = k + 1;
    }
    Ok(vals)
}

/// Evaluates `filter` against the node `base`: the value of element 0, or the
/// structural error that stopped the walk.
pub fn evaluate_where_clause(base: &NodeId, filter: &ContentFilter, s: &AddressSpace) -> (r: Result<Variant, EvaluationError>)
    ensures
        r == evaluate_spec(*s, *base, *filter),
{
    let n = filter.elements.len();
    let mut vis: Vec<bool> = Vec::new();
    let mut i: usize = 0;
    while i < n
        invariant
            i <= n == filter.elements@.len(),
            vis@ == Seq::new(i as nat, |k: int| false),
        decreases n - i,
    {
        vis.push(false);
        i = i + 1;
        assert(vis@ =~= Seq::new(i as nat, |k: int| false));
    }
    eval_element_exec(s, base, &filter.elements, 0, &mut vis, n)
}

} // verus!
