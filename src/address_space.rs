//! The graph store: nodes, typed references, browsing and relative paths.
use vstd::prelude::*;

use crate::types::{same_node, AttributeId, NodeClass, NodeId, QualifiedName, Variant, node_class_code};

verus! {

/// Numeric ids (namespace 0) of the standard nodes the store starts with.
pub const ROOT_FOLDER: u32 = 84;
pub const OBJECTS_FOLDER: u32 = 85;
pub const TYPES_FOLDER: u32 = 86;
pub const VIEWS_FOLDER: u32 = 87;
pub const REFERENCES: u32 = 31;
pub const NON_HIERARCHICAL_REFERENCES: u32 = 32;
pub const HIERARCHICAL_REFERENCES: u32 = 33;
pub const HAS_CHILD: u32 = 34;
pub const ORGANIZES: u32 = 35;
pub const HAS_EVENT_SOURCE: u32 = 36;
pub const HAS_MODELLING_RULE: u32 = 37;
pub const HAS_TYPE_DEFINITION: u32 = 40;
pub const AGGREGATES: u32 = 44;
pub const HAS_SUBTYPE: u32 = 45;
pub const HAS_PROPERTY: u32 = 46;
pub const HAS_COMPONENT: u32 = 47;
pub const HAS_NOTIFIER: u32 = 48;

/// A node of the graph.
#[derive(Debug, Clone, PartialEq)]
pub struct Node {
    pub node_id: NodeId,
    pub node_class: NodeClass,
    pub browse_name: QualifiedName,
    pub display_name: String,
    pub description: String,
    /// The Value attribute; read only from Variable nodes.
    pub value: Variant,
}

/// A directed, typed edge `source --reference_type--> target`; it is browsed from
/// either end.
#[derive(Debug, Clone, PartialEq)]
pub struct Reference {
    pub source: NodeId,
    pub reference_type: NodeId,
    pub target: NodeId,
}

#[derive(Debug, Clone, Copy, PartialEq, Eq, Structural)]
pub enum BrowseDirection {
    Forward,
    Inverse,
    Both,
}

/// One reference seen from the browsed node.
#[derive(Debug, Clone, PartialEq)]
pub struct ReferenceDescription {
    pub reference_type: NodeId,
    pub node_id: NodeId,
    pub is_forward: bool,
}

/// The graph: nodes with distinct ids, and references in order of insertion.
pub struct AddressSpace {
    pub nodes: Vec<Node>,
    pub references: Vec<Reference>,
}

/// Index of the first node at or after `i` with the id `id`, if any.
pub open spec fn node_from(nodes: Seq<Node>, id: NodeId, i: nat) -> Option<int>
    decreases nodes.len() - i,
{
    if i >= nodes.len() {
        None
    } else if same_node(nodes[i as int].node_id, id) {
        Some(i as int)
    } else {
        node_from(nodes, id, i + 1)
    }
}

/// Index of the reference at or after `i` that declares `t` a direct subtype, if any.
pub open spec fn supertype_ref_from(refs: Seq<Reference>, t: NodeId, i: nat) -> Option<int>
    decreases refs.len() - i,
{
    if i >= refs.len() {
        None
    } else if same_node(refs[i as int].target, t) && refs[i as int].reference_type.namespace == 0
        && refs[i as int].reference_type.identifier == crate::types::Identifier::Numeric(HAS_SUBTYPE) {
        Some(i as int)
    } else {
        supertype_ref_from(refs, t, i + 1)
    }
}

/// `t` is `base`, or reaches `base` through at most `fuel` HasSubtype steps upwards.
pub open spec fn subtype_within(refs: Seq<Reference>, t: NodeId, base: NodeId, fuel: nat) -> bool
    decreases fuel,
{
    if same_node(t, base) {
        true
    } else if fuel == 0 {
        false
    } else {
        match supertype_ref_from(refs, t, 0) {
            Some(k) => subtype_within(refs, refs[k].source, base, (fuel - 1) as nat),
            None => false,
        }
    }
}

pub open spec fn browse_name_is(nodes: Seq<Node>, id: NodeId, name: Seq<char>) -> bool {
    match node_from(nodes, id, 0) {
        Some(k) => nodes[k].browse_name.name@ == name,
        None => false,
    }
}

/// Outcome of one hop of a relative path.
pub enum Hop {
    NoMatch,
    One(int),
    Several,
}

impl AddressSpace {
    pub open spec fn well_formed(&self) -> bool {
        forall|i: int, j: int|
            0 <= i < j < self.nodes@.len() ==> !same_node(
                #[trigger] self.nodes@[i].node_id,
                #[trigger] self.nodes@[j].node_id,
            )
    }

    pub open spec fn node_index(&self, id: NodeId) -> Option<int> {
        node_from(self.nodes@, id, 0)
    }

    /// `t` is `base` or one of its subtypes.
    pub open spec fn is_subtype(&self, t: NodeId, base: NodeId) -> bool {
        subtype_within(self.references@, t, base, self.references@.len())
    }

    pub open spec fn type_matches(&self, t: NodeId, wanted: NodeId, subtypes: bool) -> bool {
        if subtypes {
            self.is_subtype(t, wanted)
        } else {
            same_node(t, wanted)
        }
    }

    /// Reference `r` is a forward hop from `from` along `rt` (or a subtype) to a node
    /// named `name`.
    pub open spec fn hop_matches(&self, r: Reference, from: NodeId, rt: NodeId, name: Seq<char>) -> bool {
        same_node(r.source, from) && self.is_subtype(r.reference_type, rt)
            && browse_name_is(self.nodes@, r.target, name)
    }

    /// The hop over the first `n` references.
    pub open spec fn hop_upto(&self, from: NodeId, rt: NodeId, name: Seq<char>, n: nat) -> Hop
        decreases n,
    {
        if n == 0 {
            Hop::NoMatch
        } else {
            let prev = self.hop_upto(from, rt, name, (n - 1) as nat);
            if self.hop_matches(self.references@[n - 1], from, rt, name) {
                match prev {
                    Hop::NoMatch => Hop::One(n - 1),
                    _ => Hop::Several,
                }
            } else {
                prev
            }
        }
    }

    pub open spec fn hop(&self, from: NodeId, rt: NodeId, name: Seq<char>) -> Hop {
        self.hop_upto(from, rt, name, self.references@.len())
    }

    /// The node a relative path leads to: each segment must be matched by exactly one
    /// reference.
    pub open spec fn resolve(&self, from: NodeId, rt: NodeId, path: Seq<String>) -> Option<NodeId>
        decreases path.len(),
    {
        if path.len() == 0 {
            Some(from)
        } else {
            match self.hop(from, rt, path[0]@) {
                Hop::One(k) => self.resolve(self.references@[k].target, rt, path.drop_first()),
                _ => None,
            }
        }
    }

    /// The attribute of the node with the id `id`; Empty where the node or the
    /// attribute is absent.
    pub open spec fn attribute(&self, id: NodeId, attr: AttributeId) -> Variant {
        match self.node_index(id) {
            Some(k) => attribute_of(self.nodes@[k], attr),
            None => Variant::Empty,
        }
    }

    /// Reference `r` is seen from `node` when browsing in `dir` for `rt`.
    pub open spec fn browse_matches(
        &self,
        r: Reference,
        node: NodeId,
        rt: NodeId,
        dir: BrowseDirection,
        subtypes: bool,
    ) -> bool {
        self.type_matches(r.reference_type, rt, subtypes) && (
        (dir != BrowseDirection::Inverse && same_node(r.source, node))
            || (dir != BrowseDirection::Forward && same_node(r.target, node)))
    }

    /// Indices of the references among the first `n` seen from `node`, in order.
    pub open spec fn browse_upto(
        &self,
        node: NodeId,
        rt: NodeId,
        dir: BrowseDirection,
        subtypes: bool,
        n: nat,
    ) -> Seq<int>
        decreases n,
    {
        if n == 0 {
            Seq::empty()
        } else {
            let prev = self.browse_upto(node, rt, dir, subtypes, (n - 1) as nat);
            if self.browse_matches(self.references@[n - 1], node, rt, dir, subtypes) {
                prev.push(n - 1)
            } else {
                prev
            }
        }
    }
}

pub open spec fn attribute_of(n: Node, attr: AttributeId) -> Variant {
    match attr {
        AttributeId::NodeClass => Variant::Int32(node_class_code(n.node_class)),
        AttributeId::BrowseName => Variant::String(n.browse_name.name),
        AttributeId::DisplayName => Variant::String(n.display_name),
        AttributeId::Description => Variant::String(n.description),
        AttributeId::Value => if n.node_class == NodeClass::Variable {
            n.value
        } else {
            Variant::Empty
        },
    }
}

impl AddressSpace {
    /// Index of the node with the id `id`.
    pub fn find_node(&self, id: &NodeId) -> (r: Option<usize>)
        ensures
            match r {
                None => self.node_index(*id) is None,
                Some(k) => self.node_index(*id) == Some(k as int) && k < self.nodes@.len(),
            },
    {
        let mut i: usize = 0;
        while i < self.nodes.len()
            invariant
                i <= self.nodes@.len(),
                node_from(self.nodes@, *id, 0) == node_from(self.nodes@, *id, i as nat),
            decreases self.nodes@.len() - i,
        {
            if self.nodes[i].node_id.same_as(id) {
                return Some(i);
            }
            i = i + 1;
        }
        None
    }

    /// The node with the id `id`.
    pub fn get_node(&self, id: &NodeId) -> (r: Option<&Node>)
        ensures
            match r {
                None => self.node_index(*id) is None,
                Some(n) => exists|k: int| self.node_index(*id) == Some(k) && *n == self.nodes@[k],
            },
    {
        match self.find_node(id) {
            Some(k) => Some(&self.nodes[k]),
            None => None,
        }
    }

    /// Adds `node` unless a node with its id is present; says whether it was added.
    pub fn insert_node(&mut self, node: Node) -> (r: bool)
        requires
            old(self).well_formed(),
        ensures
            final(self).well_formed(),
            final(self).references@ == old(self).references@,
            r == (old(self).node_index(node.node_id) is None),
            r ==> final(self).nodes@ == old(self).nodes@.push(node),
            !r ==> final(self).nodes@ == old(self).nodes@,
    {
        match self.find_node(&node.node_id) {
            Some(_) => false,
            None => {
                proof {
                    lemma_node_absent(self.nodes@, node.node_id, 0);
                }
                self.nodes.push(node);
                true
            },
        }
    }

    /// Adds the reference `source --reference_type--> target` when both ends are
    /// present; says whether it was added.
    pub fn insert_reference(&mut self, source: NodeId, reference_type: NodeId, target: NodeId) -> (r: bool)
        ensures
            final(self).nodes@ == old(self).nodes@,
            r == (old(self).node_index(source) is Some && old(self).node_index(target) is Some),
            r ==> final(self).references@ == old(self).references@.push(
                Reference { source, reference_type, target },
            ),
            !r ==> final(self).references@ == old(self).references@,
    {
        if self.find_node(&source).is_none() || self.find_node(&target).is_none() {
            return false;
        }
        self.references.push(Reference { source, reference_type, target });
        true
    }

    fn supertype_ref(&self, t: &NodeId) -> (r: Option<usize>)
        ensures
            match r {
                None => supertype_ref_from(self.references@, *t, 0) is None,
                Some(k) => supertype_ref_from(self.references@, *t, 0) == Some(k as int)
                    && k < self.references@.len(),
            },
    {
        let mut i: usize = 0;
        while i < self.references.len()
            invariant
                i <= self.references@.len(),
                supertype_ref_from(self.references@, *t, 0) == supertype_ref_from(
                    self.references@,
                    *t,
                    i as nat,
                ),
            decreases self.references@.len() - i,
        {
            let r = &self.references[i];
            if r.target.same_as(t) && r.reference_type.namespace == 0 && match &r.reference_type.identifier {
                crate::types::Identifier::Numeric(v) => *v == HAS_SUBTYPE,
                _ => false,
            } {
                return Some(i);
            }
            i = i + 1;
        }
        None
    }

    /// Whether `t` is `base` or one of its subtypes.
    pub fn is_subtype_of(&self, t: &NodeId, base: &NodeId) -> (r: bool)
        ensures
            r == self.is_subtype(*t, *base),
    {
        let mut cur: &NodeId = t;
        let mut fuel: usize = self.references.len();
        loop
            invariant
                fuel <= self.references@.len(),
                self.is_subtype(*t, *base) == subtype_within(self.references@, *cur, *base, fuel as nat),
            decreases fuel,
        {
            if cur.same_as(base) {
                return true;
            }
            if fuel == 0 {
                return false;
            }
            match self.supertype_ref(cur) {
                None => {
                    return false;
                },
                Some(k) => {
                    cur = &self.references[k].source;
                    fuel = fuel - 1;
                },
            }
        }
    }

    fn type_matches_exec(&self, t: &NodeId, wanted: &NodeId, subtypes: bool) -> (r: bool)
        ensures
            r == self.type_matches(*t, *wanted, subtypes),
    {
        if subtypes {
            self.is_subtype_of(t, wanted)
        } else {
            t.same_as(wanted)
        }
    }

    /// The references seen from `node` in the direction `dir` whose type is `rt` (or,
    /// with `subtypes`, one of its subtypes), in order of insertion.
    pub fn browse(&self, node: &NodeId, rt: &NodeId, dir: BrowseDirection, subtypes: bool) -> (r: Vec<ReferenceDescription>)
        ensures
            ({
                let found = self.browse_upto(*node, *rt, dir, subtypes, self.references@.len());
                &&& r@.len() == found.len()
                &&& forall|i: int| 0 <= i < r@.len() ==> #[trigger] self.describes(r@[i], found[i], *node, dir)
            }),
    {
        let mut out: Vec<ReferenceDescription> = Vec::new();
        let mut i: usize = 0;
        while i < self.references.len()
            invariant
                i <= self.references@.len(),
                ({
                    let found = self.browse_upto(*node, *rt, dir, subtypes, i as nat);
                    &&& out@.len() == found.len()
                    &&& forall|j: int| 0 <= j < out@.len() ==> #[trigger] self.describes(out@[j], found[j], *node, dir)
                }),
            decreases self.references@.len() - i,
        {
            let r = &self.references[i];
            let ghost prev = self.browse_upto(*node, *rt, dir, subtypes, i as nat);
            if self.type_matches_exec(&r.reference_type, rt, subtypes) {
                let fwd = dir != BrowseDirection::Inverse && r.source.same_as(node);
                let inv = dir != BrowseDirection::Forward && r.target.same_as(node);
                if fwd || inv {
                    let other = if fwd { r.target.copy() } else { r.source.copy() };
                    let d = ReferenceDescription { reference_type: r.reference_type.copy(), node_id: other, is_forward: fwd };
                    out.push(d);
                    proof {
                        let found = self.browse_upto(*node, *rt, dir, subtypes, (i + 1) as nat);
                        assert(found == prev.push(i as int));
                        assert forall|j: int| 0 <= j < out@.len() implies #[trigger] self.describes(out@[j], found[j], *node, dir) by {
                            if j < prev.len() {
                                assert(found[j] == prev[j]);
                            }
                        }
                    }
                }
            }
            i = i + 1;
        }
        out
    }

    /// `d` describes the reference at index `k` as seen from `node`.
    pub open spec fn describes(&self, d: ReferenceDescription, k: int, node: NodeId, dir: BrowseDirection) -> bool {
        let r = self.references@[k];
        &&& 0 <= k < self.references@.len()
        &&& same_node(d.reference_type, r.reference_type)
        &&& d.is_forward == (dir != BrowseDirection::Inverse && same_node(r.source, node))
        &&& if d.is_forward { same_node(d.node_id, r.target) } else { same_node(d.node_id, r.source) }
    }
}

impl AddressSpace {
    fn hop_matches_exec(&self, r: &Reference, from: &NodeId, rt: &NodeId, name: &String) -> (b: bool)
        ensures
            b == self.hop_matches(*r, *from, *rt, name@),
    {
        if !r.source.same_as(from) || !self.is_subtype_of(&r.reference_type, rt) {
            return false;
        }
        match self.find_node(&r.target) {
            Some(k) => self.nodes[k].browse_name.name == *name,
            None => false,
        }
    }

    /// The one reference along which `name` is reached from `from`, if exactly one is.
    fn hop_exec(&self, from: &NodeId, rt: &NodeId, name: &String) -> (r: Option<usize>)
        ensures
            match r {
                Some(k) => self.hop(*from, *rt, name@) == Hop::One(k as int) && k < self.references@.len(),
                None => !(self.hop(*from, *rt, name@) is One),
            },
    {
        let mut found: Option<usize> = None;
        let mut several = false;
        let mut i: usize = 0;
        while i < self.references.len()
            invariant
                i <= self.references@.len(),
                match self.hop_upto(*from, *rt, name@, i as nat) {
                    Hop::NoMatch => found is None && !several,
                    Hop::One(k) => found == Some(k as usize) && !several && 0 <= k < i,
                    Hop::Several => several,
                },
            decreases self.references@.len() - i,
        {
            if self.hop_matches_exec(&self.references[i], from, rt, name) {
                if found.is_some() {
                    several = true;
                } else {
                    found = Some(i);
                }
            }
            i = i + 1;
        }
        if several {
            None
        } else {
            found
        }
    }

    /// The attribute `attr` of the node with the id `id`; Empty where the node or the
    /// attribute is absent.
    pub fn read_attribute(&self, id: &NodeId, attr: AttributeId) -> (r: Variant)
        ensures
            r == self.attribute(*id, attr),
    {
        match self.find_node(id) {
            Some(k) => attribute_value(&self.nodes[k], attr),
            None => Variant::Empty,
        }
    }

    /// Follows `path` from `base` and reads `attr` off the node it leads to; Empty where
    /// the path leads nowhere.
    pub fn read_relative(&self, base: &NodeId, rt: &NodeId, path: &Vec<String>, attr: AttributeId) -> (r: Variant)
        ensures
            r == match self.resolve(*base, *rt, path@) {
                Some(id) => self.attribute(id, attr),
                None => Variant::Empty,
            },
    {
        let mut cur: &NodeId = base;
        let mut i: usize = 0;
        assert(path@.skip(0) =~= path@);
        while i < path.len()
            invariant
                i <= path@.len(),
                self.resolve(*base, *rt, path@) == self.resolve(*cur, *rt, path@.skip(i as int)),
            decreases path@.len() - i,
        {
            assert(path@.skip(i as int)[0] == path@[i as int]);
            assert(path@.skip(i as int).drop_first() =~= path@.skip(i + 1));
            match self.hop_exec(cur, rt, &path[i]) {
                Some(k) => {
                    cur = &self.references[k].target;
                },
                None => {
                    return Variant::Empty;
                },
            }
            i = i + 1;
        }
        assert(path@.skip(i as int) =~= Seq::<String>::empty());
        self.read_attribute(cur, attr)
    }

    /// The node `path` leads to from `base`: each segment names the one target of a
    /// forward reference of type `rt` (or a subtype).
    pub fn resolve_relative_path(&self, base: &NodeId, rt: &NodeId, path: &Vec<String>) -> (r: Option<NodeId>)
        ensures
            match (r, self.resolve(*base, *rt, path@)) {
                (Some(a), Some(b)) => same_node(a, b),
                (None, None) => true,
                _ => false,
            },
    {
        let mut cur: &NodeId = base;
        let mut i: usize = 0;
        assert(path@.skip(0) =~= path@);
        while i < path.len()
            invariant
                i <= path@.len(),
                self.resolve(*base, *rt, path@) == self.resolve(*cur, *rt, path@.skip(i as int)),
            decreases path@.len() - i,
        {
            assert(path@.skip(i as int)[0] == path@[i as int]);
            assert(path@.skip(i as int).drop_first() =~= path@.skip(i + 1));
            match self.hop_exec(cur, rt, &path[i]) {
                Some(k) => {
                    cur = &self.references[k].target;
                },
                None => {
                    return None;
                },
            }
            i = i + 1;
        }
        assert(path@.skip(i as int) =~= Seq::<String>::empty());
        Some(cur.copy())
    }
}

fn attribute_value(n: &Node, attr: AttributeId) -> (r: Variant)
    ensures
        r == attribute_of(*n, attr),
{
    match attr {
        AttributeId::NodeClass => Variant::Int32(n.node_class.code()),
        AttributeId::BrowseName => Variant::String(n.browse_name.name.clone()),
        AttributeId::DisplayName => Variant::String(n.display_name.clone()),
        AttributeId::Description => Variant::String(n.description.clone()),
        AttributeId::Value => match n.node_class {
            NodeClass::Variable => n.value.copy(),
            _ => Variant::Empty,
        },
    }
}

impl Node {
    /// A node without a value.
    pub fn new(node_id: NodeId, node_class: NodeClass, browse_name: &str, display_name: &str) -> (r: Node)
        ensures
            r.node_id == node_id,
            r.node_class == node_class,
            r.browse_name.namespace == node_id.namespace,
            r.browse_name.name@ == browse_name@,
            r.display_name@ == display_name@,
            r.description@ == Seq::<char>::empty(),
            r.value == Variant::Empty,
    {
        let namespace = node_id.namespace;
        Node {
            node_id,
            node_class,
            browse_name: QualifiedName { namespace, name: String::from_str(browse_name) },
            display_name: String::from_str(display_name),
            description: String::new(),
            value: Variant::Empty,
        }
    }

    /// A Variable node holding `value`.
    pub fn variable(node_id: NodeId, browse_name: &str, display_name: &str, value: Variant) -> (r: Node)
        ensures
            r.node_id == node_id,
            r.node_class == NodeClass::Variable,
            r.browse_name.name@ == browse_name@,
            r.display_name@ == display_name@,
            r.value == value,
    {
        let mut n = Node::new(node_id, NodeClass::Variable, browse_name, display_name);
        n.value = value;
        n
    }
}

impl AddressSpace {
    /// A store with no nodes and no references.
    pub fn empty() -> (r: AddressSpace)
        ensures
            r.well_formed(),
            r.nodes@.len() == 0,
            r.references@.len() == 0,
    {
        AddressSpace { nodes: Vec::new(), references: Vec::new() }
    }

    fn add_standard(&mut self, id: u32, class: NodeClass, name: &str)
        requires
            old(self).well_formed(),
            ids_below(old(self).nodes@, id as int),
        ensures
            final(self).well_formed(),
            ids_below(final(self).nodes@, id as int + 1),
            final(self).references@ == old(self).references@,
            final(self).nodes@.len() == old(self).nodes@.len() + 1,
            final(self).nodes@.drop_last() == old(self).nodes@,
            standard_node_is(final(self).nodes@.last(), id, class, name@),
    {
        self.nodes.push(Node::new(NodeId::numeric(0, id), class, name, name));
        assert(self.nodes@.drop_last() =~= old(self).nodes@);
    }

    fn link(&mut self, source: u32, reference_type: u32, target: u32)
        ensures
            final(self).nodes@ == old(self).nodes@,
            final(self).references@ == old(self).references@.push(
                Reference {
                    source: NodeId::numeric_spec(source),
                    reference_type: NodeId::numeric_spec(reference_type),
                    target: NodeId::numeric_spec(target),
                },
            ),
    {
        self.references.push(Reference {
            source: NodeId::numeric(0, source),
            reference_type: NodeId::numeric(0, reference_type),
            target: NodeId::numeric(0, target),
        });
    }

    /// The standard folders (Root organizing Objects, Types and Views) and the standard
    /// hierarchy of reference types.
    pub fn new() -> (r: AddressSpace)
        ensures
            r.well_formed(),
            r.nodes@.len() == 17,
            standard_node_is(r.nodes@[0], REFERENCES, NodeClass::ReferenceType, "References"@),
            standard_node_is(r.nodes@[1], NON_HIERARCHICAL_REFERENCES, NodeClass::ReferenceType, "NonHierarchicalReferences"@),
            standard_node_is(r.nodes@[2], HIERARCHICAL_REFERENCES, NodeClass::ReferenceType, "HierarchicalReferences"@),
            standard_node_is(r.nodes@[3], HAS_CHILD, NodeClass::ReferenceType, "HasChild"@),
            standard_node_is(r.nodes@[4], ORGANIZES, NodeClass::ReferenceType, "Organizes"@),
            standard_node_is(r.nodes@[5], HAS_EVENT_SOURCE, NodeClass::ReferenceType, "HasEventSource"@),
            standard_node_is(r.nodes@[6], HAS_MODELLING_RULE, NodeClass::ReferenceType, "HasModellingRule"@),
            standard_node_is(r.nodes@[7], HAS_TYPE_DEFINITION, NodeClass::ReferenceType, "HasTypeDefinition"@),
            standard_node_is(r.nodes@[8], AGGREGATES, NodeClass::ReferenceType, "Aggregates"@),
            standard_node_is(r.nodes@[9], HAS_SUBTYPE, NodeClass::ReferenceType, "HasSubtype"@),
            standard_node_is(r.nodes@[10], HAS_PROPERTY, NodeClass::ReferenceType, "HasProperty"@),
            standard_node_is(r.nodes@[11], HAS_COMPONENT, NodeClass::ReferenceType, "HasComponent"@),
            standard_node_is(r.nodes@[12], HAS_NOTIFIER, NodeClass::ReferenceType, "HasNotifier"@),
            standard_node_is(r.nodes@[13], ROOT_FOLDER, NodeClass::Object, "Root"@),
            standard_node_is(r.nodes@[14], OBJECTS_FOLDER, NodeClass::Object, "Objects"@),
            standard_node_is(r.nodes@[15], TYPES_FOLDER, NodeClass::Object, "Types"@),
            standard_node_is(r.nodes@[16], VIEWS_FOLDER, NodeClass::Object, "Views"@),
            r.references@.len() == standard_links().len(),
            forall|k: int| 0 <= k < standard_links().len() ==> #[trigger] r.references@[k] == (Reference {
                source: NodeId::numeric_spec(standard_links()[k].0),
                reference_type: NodeId::numeric_spec(standard_links()[k].1),
                target: NodeId::numeric_spec(standard_links()[k].2),
            }),
    {
        let mut s = AddressSpace::empty();
        s.add_standard(REFERENCES, NodeClass::ReferenceType, "References");
        s.add_standard(NON_HIERARCHICAL_REFERENCES, NodeClass::ReferenceType, "NonHierarchicalReferences");
        s.add_standard(HIERARCHICAL_REFERENCES, NodeClass::ReferenceType, "HierarchicalReferences");
        s.add_standard(HAS_CHILD, NodeClass::ReferenceType, "HasChild");
        s.add_standard(ORGANIZES, NodeClass::ReferenceType, "Organizes");
        s.add_standard(HAS_EVENT_SOURCE, NodeClass::ReferenceType, "HasEventSource");
        s.add_standard(HAS_MODELLING_RULE, NodeClass::ReferenceType, "HasModellingRule");
        s.add_standard(HAS_TYPE_DEFINITION, NodeClass::ReferenceType, "HasTypeDefinition");
        s.add_standard(AGGREGATES, NodeClass::ReferenceType, "Aggregates");
        s.add_standard(HAS_SUBTYPE, NodeClass::ReferenceType, "HasSubtype");
        s.add_standard(HAS_PROPERTY, NodeClass::ReferenceType, "HasProperty");
        s.add_standard(HAS_COMPONENT, NodeClass::ReferenceType, "HasComponent");
        s.add_standard(HAS_NOTIFIER, NodeClass::ReferenceType, "HasNotifier");
        s.add_standard(ROOT_FOLDER, NodeClass::Object, "Root");
        s.add_standard(OBJECTS_FOLDER, NodeClass::Object, "Objects");
        s.add_standard(TYPES_FOLDER, NodeClass::Object, "Types");
        s.add_standard(VIEWS_FOLDER, NodeClass::Object, "Views");
        s.link(ROOT_FOLDER, ORGANIZES, OBJECTS_FOLDER);
        s.link(ROOT_FOLDER, ORGANIZES, TYPES_FOLDER);
        s.link(ROOT_FOLDER, ORGANIZES, VIEWS_FOLDER);
        s.link(REFERENCES, HAS_SUBTYPE, HIERARCHICAL_REFERENCES);
        s.link(REFERENCES, HAS_SUBTYPE, NON_HIERARCHICAL_REFERENCES);
        s.link(HIERARCHICAL_REFERENCES, HAS_SUBTYPE, HAS_CHILD);
        s.link(HIERARCHICAL_REFERENCES, HAS_SUBTYPE, ORGANIZES);
        s.link(HIERARCHICAL_REFERENCES, HAS_SUBTYPE, HAS_EVENT_SOURCE);
        s.link(HAS_CHILD, HAS_SUBTYPE, AGGREGATES);
        s.link(HAS_CHILD, HAS_SUBTYPE, HAS_SUBTYPE);
        s.link(AGGREGATES, HAS_SUBTYPE, HAS_PROPERTY);
        s.link(AGGREGATES, HAS_SUBTYPE, HAS_COMPONENT);
        s.link(HAS_EVENT_SOURCE, HAS_SUBTYPE, HAS_NOTIFIER);
        s.link(NON_HIERARCHICAL_REFERENCES, HAS_SUBTYPE, HAS_MODELLING_RULE);
        s.link(NON_HIERARCHICAL_REFERENCES, HAS_SUBTYPE, HAS_TYPE_DEFINITION);
        assert(s.references@ =~= Seq::new(standard_links().len(), |k: int| Reference {
            source: NodeId::numeric_spec(standard_links()[k].0),
            reference_type: NodeId::numeric_spec(standard_links()[k].1),
            target: NodeId::numeric_spec(standard_links()[k].2),
        }));
        s
    }
}

/// Node `n` is the namespace-0 node `id` of class `class` named `name`.
pub open spec fn standard_node_is(n: Node, id: u32, class: NodeClass, name: Seq<char>) -> bool {
    n.node_id == NodeId::numeric_spec(id) && n.node_class == class && n.browse_name.name@ == name
}

/// Every node has a namespace-0 numeric id below `bound`.
pub open spec fn ids_below(nodes: Seq<Node>, bound: int) -> bool {
    forall|k: int| 0 <= k < nodes.len() ==> {
        let id = (#[trigger] nodes[k]).node_id;
        id.namespace == 0 && id.identifier is Numeric && (id.identifier->Numeric_0 as int) < bound
    }
}

/// The references a new store holds, in order, as (source, reference type, target).
pub open spec fn standard_links() -> Seq<(u32, u32, u32)> {
    seq![
        (ROOT_FOLDER, ORGANIZES, OBJECTS_FOLDER),
        (ROOT_FOLDER, ORGANIZES, TYPES_FOLDER),
        (ROOT_FOLDER, ORGANIZES, VIEWS_FOLDER),
        (REFERENCES, HAS_SUBTYPE, HIERARCHICAL_REFERENCES),
        (REFERENCES, HAS_SUBTYPE, NON_HIERARCHICAL_REFERENCES),
        (HIERARCHICAL_REFERENCES, HAS_SUBTYPE, HAS_CHILD),
        (HIERARCHICAL_REFERENCES, HAS_SUBTYPE, ORGANIZES),
        (HIERARCHICAL_REFERENCES, HAS_SUBTYPE, HAS_EVENT_SOURCE),
        (HAS_CHILD, HAS_SUBTYPE, AGGREGATES),
        (HAS_CHILD, HAS_SUBTYPE, HAS_SUBTYPE),
        (AGGREGATES, HAS_SUBTYPE, HAS_PROPERTY),
        (AGGREGATES, HAS_SUBTYPE, HAS_COMPONENT),
        (HAS_EVENT_SOURCE, HAS_SUBTYPE, HAS_NOTIFIER),
        (NON_HIERARCHICAL_REFERENCES, HAS_SUBTYPE, HAS_MODELLING_RULE),
        (NON_HIERARCHICAL_REFERENCES, HAS_SUBTYPE, HAS_TYPE_DEFINITION),
    ]
}

pub proof fn lemma_node_absent(nodes: Seq<Node>, id: NodeId, i: nat)
    requires
        node_from(nodes, id, i) is None,
    ensures
        forall|k: int| i <= k < nodes.len() ==> !same_node(#[trigger] nodes[k].node_id, id),
    decreases nodes.len() - i,
{
    if i < nodes.len() {
        lemma_node_absent(nodes, id, i + 1);
    }
}

} // verus!
