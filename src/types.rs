//! Identifiers, values and the other plain data of the information model.
use vstd::prelude::*;

verus! {

/// The identifier part of a `NodeId`.
#[derive(Debug, Clone, PartialEq)]
pub enum Identifier {
    Numeric(u32),
    String(String),
    Opaque(Vec<u8>),
}

/// A node's identity: a namespace index and an identifier within it.
#[derive(Debug, Clone, PartialEq)]
pub struct NodeId {
    pub namespace: u16,
    pub identifier: Identifier,
}

/// Two node ids denote the same node.
pub open spec fn same_node(a: NodeId, b: NodeId) -> bool {
    a.namespace == b.namespace && match (a.identifier, b.identifier) {
        (Identifier::Numeric(x), Identifier::Numeric(y)) => x == y,
        (Identifier::String(x), Identifier::String(y)) => x@ == y@,
        (Identifier::Opaque(x), Identifier::Opaque(y)) => x@ == y@,
        _ => false,
    }
}

/// The null node id: namespace 0, numeric identifier 0.
pub open spec fn is_null_node(a: NodeId) -> bool {
    a.namespace == 0 && a.identifier == Identifier::Numeric(0)
}

impl NodeId {
    /// The namespace-0 node with a numeric identifier.
    pub open spec fn numeric_spec(value: u32) -> NodeId {
        NodeId { namespace: 0, identifier: Identifier::Numeric(value) }
    }

    pub fn numeric(namespace: u16, value: u32) -> (r: NodeId)
        ensures
            r == (NodeId { namespace, identifier: Identifier::Numeric(value) }),
    {
        NodeId { namespace, identifier: Identifier::Numeric(value) }
    }

    pub fn string(namespace: u16, value: &str) -> (r: NodeId)
        ensures
            r.namespace == namespace,
            r.identifier is String,
            r.identifier->String_0@ == value@,
    {
        NodeId { namespace, identifier: Identifier::String(String::from_str(value)) }
    }

    pub fn null() -> (r: NodeId)
        ensures
            is_null_node(r),
    {
        NodeId::numeric(0, 0)
    }

    pub fn is_null(&self) -> (r: bool)
        ensures
            r == is_null_node(*self),
    {
        self.namespace == 0 && match &self.identifier {
            Identifier::Numeric(v) => *v == 0,
            _ => false,
        }
    }

    /// A copy of this id.
    pub fn copy(&self) -> (r: NodeId)
        ensures
            same_node(r, *self),
            same_node(*self, r),
    {
        let identifier = match &self.identifier {
            Identifier::Numeric(v) => Identifier::Numeric(*v),
            Identifier::String(s) => Identifier::String(s.clone()),
            Identifier::Opaque(b) => Identifier::Opaque(copy_bytes(b)),
        };
        NodeId { namespace: self.namespace, identifier }
    }

    /// Whether the two ids denote the same node.
    pub fn same_as(&self, other: &NodeId) -> (r: bool)
        ensures
            r == same_node(*self, *other),
    {
        if self.namespace != other.namespace {
            return false;
        }
        match (&self.identifier, &other.identifier) {
            (Identifier::Numeric(x), Identifier::Numeric(y)) => *x == *y,
            (Identifier::String(x), Identifier::String(y)) => *x == *y,
            (Identifier::Opaque(x), Identifier::Opaque(y)) => bytes_equal(x, y),
            _ => false,
        }
    }
}

fn copy_bytes(b: &Vec<u8>) -> (r: Vec<u8>)
    ensures
        r@ == b@,
{
    let mut r: Vec<u8> = Vec::new();
    let mut i: usize = 0;
    while i < b.len()
        invariant
            i <= b@.len(),
            r@ == b@.take(i as int),
        decreases b@.len() - i,
    {
        r.push(b[i]);
        i = i + 1;
        assert(r@ =~= b@.take(i as int));
    }
    assert(r@ =~= b@);
    r
}

fn bytes_equal(a: &Vec<u8>, b: &Vec<u8>) -> (r: bool)
    ensures
        r == (a@ == b@),
{
    if a.len() != b.len() {
        return false;
    }
    let mut i: usize = 0;
    while i < a.len()
        invariant
            i <= a@.len() == b@.len(),
            forall|k: int| 0 <= k < i ==> a@[k] == b@[k],
        decreases a@.len() - i,
    {
        if a[i] != b[i] {
            return false;
        }
        i = i + 1;
    }
    assert(a@ =~= b@);
    true
}

/// A namespace-qualified name.
#[derive(Debug, Clone, PartialEq)]
pub struct QualifiedName {
    pub namespace: u16,
    pub name: String,
}

/// The class of a node.
#[derive(Debug, Clone, Copy, PartialEq, Eq, Structural)]
pub enum NodeClass {
    Object,
    Variable,
    Method,
    ObjectType,
    VariableType,
    ReferenceType,
    DataType,
    View,
}

/// The protocol's numeric code of a node class.
pub open spec fn node_class_code(c: NodeClass) -> i32 {
    match c {
        NodeClass::Object => 1,
        NodeClass::Variable => 2,
        NodeClass::Method => 4,
        NodeClass::ObjectType => 8,
        NodeClass::VariableType => 16,
        NodeClass::ReferenceType => 32,
        NodeClass::DataType => 64,
        NodeClass::View => 128,
    }
}

impl NodeClass {
    pub fn code(&self) -> (r: i32)
        ensures
            r == node_class_code(*self),
    {
        match self {
            NodeClass::Object => 1,
            NodeClass::Variable => 2,
            NodeClass::Method => 4,
            NodeClass::ObjectType => 8,
            NodeClass::VariableType => 16,
            NodeClass::ReferenceType => 32,
            NodeClass::DataType => 64,
            NodeClass::View => 128,
        }
    }
}

/// The attributes a filter may read off a node.
#[derive(Debug, Clone, Copy, PartialEq, Eq, Structural)]
pub enum AttributeId {
    NodeClass,
    BrowseName,
    DisplayName,
    Description,
    Value,
}

/// An exact decimal number, `mantissa / 10^scale`; stands for the protocol's
/// floating-point values.
#[derive(Debug, Clone, Copy, PartialEq, Eq, Structural)]
pub struct Decimal {
    pub mantissa: i64,
    pub scale: u32,
}

/// A value: a scalar of one of the protocol's types, or Empty.
#[derive(Debug, Clone, PartialEq)]
pub enum Variant {
    Empty,
    Boolean(bool),
    SByte(i8),
    Byte(u8),
    Int16(i16),
    UInt16(u16),
    Int32(i32),
    UInt32(u32),
    Int64(i64),
    UInt64(u64),
    Decimal(Decimal),
    String(String),
}

impl Variant {
    /// A copy of this value.
    pub fn copy(&self) -> (r: Variant)
        ensures
            r == *self,
    {
        match self {
            Variant::Empty => Variant::Empty,
            Variant::Boolean(v) => Variant::Boolean(*v),
            Variant::SByte(v) => Variant::SByte(*v),
            Variant::Byte(v) => Variant::Byte(*v),
            Variant::Int16(v) => Variant::Int16(*v),
            Variant::UInt16(v) => Variant::UInt16(*v),
            Variant::Int32(v) => Variant::Int32(*v),
            Variant::UInt32(v) => Variant::UInt32(*v),
            Variant::Int64(v) => Variant::Int64(*v),
            Variant::UInt64(v) => Variant::UInt64(*v),
            Variant::Decimal(v) => Variant::Decimal(*v),
            Variant::String(s) => Variant::String(s.clone()),
        }
    }

    pub fn is_empty(&self) -> (r: bool)
        ensures
            r == (*self is Empty),
    {
        match self {
            Variant::Empty => true,
            _ => false,
        }
    }
}

} // verus!
