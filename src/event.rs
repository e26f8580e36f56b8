//! Event instances: transient subgraphs inserted whole, or not at all.
use vstd::prelude::*;

use crate::address_space::{
    browse_name_is, lemma_node_absent, node_from, AddressSpace, Node, Reference, HAS_MODELLING_RULE,
    HAS_EVENT_SOURCE, HAS_PROPERTY, HAS_TYPE_DEFINITION, ORGANIZES,
};
use crate::types::{is_null_node, same_node, Identifier, NodeClass, NodeId, QualifiedName, Variant};

verus! {

/// Numeric id (namespace 0) of the Mandatory modelling rule.
pub const MODELLING_RULE_MANDATORY: u32 = 78;

/// A property an event carries: the id of its node, its name and its value.
#[derive(Debug, Clone, PartialEq)]
pub struct EventProperty {
    pub node_id: NodeId,
    pub name: String,
    pub value: Variant,
}

/// An event to be raised: an Object node of type `event_type` under a parent folder,
/// with its properties as Variable nodes.
#[derive(Debug, Clone, PartialEq)]
pub struct EventInstance {
    pub node_id: NodeId,
    pub browse_name: String,
    pub event_type: NodeId,
    pub source_node: NodeId,
    pub message: String,
    pub properties: Vec<EventProperty>,
}

#[derive(Debug, Clone, Copy, PartialEq, Eq, Structural)]
pub enum EventError {
    /// The event type or the source node is the null id.
    InvalidEvent,
    /// The event type, the source node or the parent is not in the graph.
    MissingNode,
    /// A property that the event type declares mandatory is not supplied.
    MissingMandatoryProperty,
    /// The id of the event or of one of its properties is taken, or used twice.
    NodeIdInUse,
}

pub open spec fn is_standard(id: NodeId, value: u32) -> bool {
    id.namespace == 0 && id.identifier == Identifier::Numeric(value)
}

/// Node `n` carries the Mandatory modelling rule.
pub open spec fn is_mandatory(s: AddressSpace, n: NodeId) -> bool {
    exists|q: int|
        0 <= q < s.references@.len() && same_node(#[trigger] s.references@[q].source, n)
            && is_standard(s.references@[q].reference_type, HAS_MODELLING_RULE)
            && is_standard(s.references@[q].target, MODELLING_RULE_MANDATORY)
}

/// Reference `q` declares a mandatory property of the type `t`.
pub open spec fn declares_mandatory(s: AddressSpace, t: NodeId, q: int) -> bool {
    0 <= q < s.references@.len() && same_node(s.references@[q].source, t) && is_standard(
        s.references@[q].reference_type,
        HAS_PROPERTY,
    ) && is_mandatory(s, s.references@[q].target)
}

/// Some property of `props` is named as the node `n` is.
pub open spec fn supplied(s: AddressSpace, props: Seq<EventProperty>, n: NodeId) -> bool {
    exists|p: int| 0 <= p < props.len() && browse_name_is(s.nodes@, n, (#[trigger] props[p]).name@)
}

pub open spec fn mandatory_supplied(s: AddressSpace, e: EventInstance) -> bool {
    forall|q: int| #[trigger] declares_mandatory(s, e.event_type, q) ==> supplied(s, e.properties@, s.references@[q].target)
}

/// The ids the event would occupy: its own, then its properties' in order.
pub open spec fn event_ids(e: EventInstance) -> Seq<NodeId> {
    seq![e.node_id] + e.properties@.map_values(|p: EventProperty| p.node_id)
}

/// None of `ids` is in the graph, and no two of them are the same.
pub open spec fn ids_fresh(s: AddressSpace, ids: Seq<NodeId>) -> bool {
    &&& forall|i: int| 0 <= i < ids.len() ==> node_from(s.nodes@, #[trigger] ids[i], 0) is None
    &&& forall|i: int, j: int| 0 <= j < i < ids.len() ==> !same_node(#[trigger] ids[j], #[trigger] ids[i])
}

/// What inserting `e` under `parent` gives: Ok, or the first rule it breaks.
pub open spec fn insert_event_outcome(s: AddressSpace, e: EventInstance, parent: NodeId) -> Result<(), EventError> {
    if is_null_node(e.event_type) || is_null_node(e.source_node) {
        Err(EventError::InvalidEvent)
    } else if s.node_index(e.event_type) is None || s.node_index(e.source_node) is None
        || s.node_index(parent) is None {
        Err(EventError::MissingNode)
    } else if !mandatory_supplied(s, e) {
        Err(EventError::MissingMandatoryProperty)
    } else if !ids_fresh(s, event_ids(e)) {
        Err(EventError::NodeIdInUse)
    } else {
        Ok(())
    }
}

pub open spec fn event_node(e: EventInstance) -> Node {
    Node {
        node_id: e.node_id,
        node_class: NodeClass::Object,
        browse_name: QualifiedName { namespace: e.node_id.namespace, name: e.browse_name },
        display_name: e.browse_name,
        description: e.message,
        value: Variant::Empty,
    }
}

pub open spec fn property_node(p: EventProperty) -> Node {
    Node {
        node_id: p.node_id,
        node_class: NodeClass::Variable,
        browse_name: QualifiedName { namespace: p.node_id.namespace, name: p.name },
        display_name: p.name,
        description: p.name,
        value: p.value,
    }
}

/// Reference `r` runs `source --rt--> target`, up to the sameness of ids.
pub open spec fn links(r: Reference, source: NodeId, rt: u32, target: NodeId) -> bool {
    same_node(r.source, source) && is_standard(r.reference_type, rt) && same_node(r.target, target)
}

fn is_standard_exec(id: &NodeId, value: u32) -> (r: bool)
    ensures
        r == is_standard(*id, value),
{
    id.namespace == 0 && match &id.identifier {
        Identifier::Numeric(v) => *v == value,
        _ => false,
    }
}

impl AddressSpace {
    fn is_mandatory_exec(&self, n: &NodeId) -> (r: bool)
        ensures
            r == is_mandatory(*self, *n),
    {
        let mut q: usize = 0;
        while q < self.references.len()
            invariant
                q <= self.references@.len(),
                forall|k: int|
                    0 <= k < q ==> !(same_node(#[trigger] self.references@[k].source, *n)
                        && is_standard(self.references@[k].reference_type, HAS_MODELLING_RULE)
                        && is_standard(self.references@[k].target, MODELLING_RULE_MANDATORY)),
            decreases self.references@.len() - q,
        {
            let r = &self.references[q];
            if r.source.same_as(n) && is_standard_exec(&r.reference_type, HAS_MODELLING_RULE)
                && is_standard_exec(&r.target, MODELLING_RULE_MANDATORY) {
                return true;
            }
            q = q + 1;
        }
        false
    }

    fn supplied_exec(&self, props: &Vec<EventProperty>, n: &NodeId) -> (r: bool)
        ensures
            r == supplied(*self, props@, *n),
    {
        let k = match self.find_node(n) {
            Some(k) => k,
            None => {
                return false;
            },
        };
        let mut p: usize = 0;
        while p < props.len()
            invariant
                p <= props@.len(),
                self.node_index(*n) == Some(k as int),
                k < self.nodes@.len(),
                forall|j: int| 0 <= j < p ==> !browse_name_is(self.nodes@, *n, (#[trigger] props@[j]).name@),
            decreases props@.len() - p,
        {
            if self.nodes[k].browse_name.name == props[p].name {
                return true;
            }
            p = p + 1;
        }
        false
    }

    fn mandatory_supplied_exec(&self, e: &EventInstance) -> (r: bool)
        ensures
            r == mandatory_supplied(*self, *e),
    {
        let mut q: usize = 0;
        while q < self.references.len()
            invariant
                q <= self.references@.len(),
                forall|k: int|
                    0 <= k < q && #[trigger] declares_mandatory(*self, e.event_type, k) ==> supplied(
                        *self,
                        e.properties@,
                        self.references@[k].target,
                    ),
            decreases self.references@.len() - q,
        {
            let r = &self.references[q];
            if r.source.same_as(&e.event_type) && is_standard_exec(&r.reference_type, HAS_PROPERTY)
                && self.is_mandatory_exec(&r.target) {
                if !self.supplied_exec(&e.properties, &r.target) {
                    assert(declares_mandatory(*self, e.event_type, q as int));
                    return false;
                }
            }
            q = q + 1;
        }
        true
    }

    fn ids_fresh_exec(&self, e: &EventInstance) -> (r: bool)
        ensures
            r == ids_fresh(*self, event_ids(*e)),
    {
        let ghost ids = event_ids(*e);
        let ghost n = ids.len();
        assert(n == e.properties@.len() + 1);
        let mut i: usize = 0;
        while i <= e.properties.len()
            invariant
                n == ids.len() == e.properties@.len() + 1,
                ids == event_ids(*e),
                i <= n,
                forall|a: int| 0 <= a < i ==> node_from(self.nodes@, #[trigger] ids[a], 0) is None,
                forall|a: int, b: int| 0 <= b < a < i ==> !same_node(#[trigger] ids[b], #[trigger] ids[a]),
            decreases e.properties@.len() + 1 - i,
        {
            let id_i = if i == 0 { &e.node_id } else { &e.properties[i - 1].node_id };
            assert(*id_i == ids[i as int]);
            if self.find_node(id_i).is_some() {
                return false;
            }
            let mut j: usize = 0;
            while j < i
                invariant
                    j <= i < n == ids.len() == e.properties@.len() + 1,
                    ids == event_ids(*e),
                    *id_i == ids[i as int],
                    forall|b: int| 0 <= b < j ==> !same_node(#[trigger] ids[b], ids[i as int]),
                decreases i - j,
            {
                let id_j = if j == 0 { &e.node_id } else { &e.properties[j - 1].node_id };
                assert(*id_j == ids[j as int]);
                if id_j.same_as(id_i) {
                    return false;
                }
                j = j + 1;
            }
            if i == e.properties.len() {
                assert(forall|a: int| 0 <= a < n ==> node_from(self.nodes@, #[trigger] ids[a], 0) is None);
                return true;
            }
            i = i + 1;
        }
        true
    }
}

impl AddressSpace {
    /// Inserts the event `e` under `parent`: its Object node, then a node for each of its
    /// properties; references parent --Organizes--> event, event --HasTypeDefinition-->
    /// type, source --HasEventSource--> event, and event --HasProperty--> each property. Either all of it is inserted or,
    /// with the error `insert_event_outcome` gives, nothing.
    pub fn insert_event(&mut self, e: EventInstance, parent: &NodeId) -> (r: Result<(), EventError>)
        requires
            old(self).well_formed(),
        ensures
            final(self).well_formed(),
            r == insert_event_outcome(*old(self), e, *parent),
            r is Err ==> final(self).nodes@ == old(self).nodes@ && final(self).references@ == old(self).references@,
            r is Ok ==> final(self).nodes@ == old(self).nodes@ + seq![event_node(e)]
                + e.properties@.map_values(|p: EventProperty| property_node(p)),
            r is Ok ==> ({
                let n = old(self).references@.len();
                let refs = final(self).references@;
                &&& refs.len() == n + 3 + e.properties@.len()
                &&& refs.take(n as int) == old(self).references@
                &&& links(refs[n as int], *parent, ORGANIZES, e.node_id)
                &&& links(refs[n + 1 as int], e.node_id, HAS_TYPE_DEFINITION, e.event_type)
                &&& links(refs[n + 2 as int], e.source_node, HAS_EVENT_SOURCE, e.node_id)
                &&& forall|p: int| 0 <= p < e.properties@.len() ==> links(
                    #[trigger] refs[n + 3 + p],
                    e.node_id,
                    HAS_PROPERTY,
                    e.properties@[p].node_id,
                )
            }),
    {
        if e.event_type.is_null() || e.source_node.is_null() {
            return Err(EventError::InvalidEvent);
        }
        if self.find_node(&e.event_type).is_none() || self.find_node(&e.source_node).is_none()
            || self.find_node(parent).is_none() {
            return Err(EventError::MissingNode);
        }
        if !self.mandatory_supplied_exec(&e) {
            return Err(EventError::MissingMandatoryProperty);
        }
        if !self.ids_fresh_exec(&e) {
            return Err(EventError::NodeIdInUse);
        }
        let ghost old_nodes = self.nodes@;
        let ghost old_refs = self.references@;
        let ghost ids = event_ids(e);
        let ghost props = e.properties@;
        proof {
            assert(ids[0] == e.node_id);
            lemma_node_absent(old_nodes, e.node_id, 0);
        }
        self.references.push(Reference { source: parent.copy(), reference_type: NodeId::numeric(0, ORGANIZES), target: e.node_id.copy() });
        self.references.push(Reference { source: e.node_id.copy(), reference_type: NodeId::numeric(0, HAS_TYPE_DEFINITION), target: e.event_type.copy() });
        self.references.push(Reference { source: e.source_node.copy(), reference_type: NodeId::numeric(0, HAS_EVENT_SOURCE), target: e.node_id.copy() });
        let mut i: usize = 0;
        while i < e.properties.len()
            invariant
                i <= props.len(),
                props == e.properties@,
                self.nodes@ == old_nodes,
                self.references@.len() == old_refs.len() + 3 + i,
                self.references@.take(old_refs.len() as int) == old_refs,
                links(self.references@[old_refs.len() as int], *parent, ORGANIZES, e.node_id),
                links(self.references@[old_refs.len() + 1 as int], e.node_id, HAS_TYPE_DEFINITION, e.event_type),
                links(self.references@[old_refs.len() + 2 as int], e.source_node, HAS_EVENT_SOURCE, e.node_id),
                forall|p: int| 0 <= p < i ==> links(
                    #[trigger] self.references@[old_refs.len() + 3 + p],
                    e.node_id,
                    HAS_PROPERTY,
                    props[p].node_id,
                ),
            decreases props.len() - i,
        {
            let ghost before = self.references@;
            self.references.push(Reference { source: e.node_id.copy(), reference_type: NodeId::numeric(0, HAS_PROPERTY), target: e.properties[i].node_id.copy() });
            proof {
                assert(self.references@.take(old_refs.len() as int) =~= before.take(old_refs.len() as int));
                assert forall|p: int| 0 <= p < i + 1 implies links(
                    #[trigger] self.references@[old_refs.len() + 3 + p],
                    e.node_id,
                    HAS_PROPERTY,
                    props[p].node_id,
                ) by {
                    if p < i {
                        assert(self.references@[old_refs.len() + 3 + p] == before[old_refs.len() + 3 + p]);
                    }
                }
            }
            i = i + 1;
        }
        let total: usize = e.properties.len();
        let EventInstance { node_id, browse_name, event_type: _, source_node: _, message, properties } = e;
        let mut properties = properties;
        let namespace = node_id.namespace;
        let name = browse_name.clone();
        self.nodes.push(Node {
            node_id,
            node_class: NodeClass::Object,
            browse_name: QualifiedName { namespace, name },
            display_name: browse_name,
            description: message,
            value: Variant::Empty,
        });
        let ghost mapped = props.map_values(|p: EventProperty| property_node(p));
        let ghost refs_after = self.references@;
        proof {
            assert(self.nodes@ =~= old_nodes + seq![event_node(e)] + mapped.take(0));
            assert(properties@.skip(0) =~= props.skip(0));
        }
        let mut k: usize = 0;
        while properties.len() > 0
            invariant
                k <= props.len(),
                props.len() == total,
                props == e.properties@,
                ids == event_ids(e),
                ids_fresh(*old(self), ids),
                old_nodes == old(self).nodes@,
                old(self).well_formed(),
                mapped == props.map_values(|p: EventProperty| property_node(p)),
                properties@ == props.skip(k as int),
                self.references@ == refs_after,
                self.nodes@ == old_nodes + seq![event_node(e)] + mapped.take(k as int),
                self.well_formed(),
            decreases properties@.len(),
        {
            assert(k < props.len());
            let p = properties.remove(0);
            let ghost before = self.nodes@;
            let ghost new_node = property_node(p);
            proof {
                assert(p == props[k as int]);
                assert(ids[k + 1] == p.node_id);
                assert(forall|a: int| 0 <= a < before.len() ==> a < old_nodes.len() || before[a].node_id == ids[a - old_nodes.len()]) by {
                    assert forall|a: int| old_nodes.len() <= a < before.len() implies before[a].node_id == ids[a - old_nodes.len()] by {
                        if a > old_nodes.len() {
                            assert(before[a] == mapped[a - old_nodes.len() - 1]);
                        }
                    }
                }
                lemma_node_absent(old_nodes, p.node_id, 0);
            }
            let namespace = p.node_id.namespace;
            let name = p.name.clone();
            let display = p.name.clone();
            self.nodes.push(Node {
                node_id: p.node_id,
                node_class: NodeClass::Variable,
                browse_name: QualifiedName { namespace, name },
                display_name: display,
                description: p.name,
                value: p.value,
            });
            proof {
                assert(self.nodes@ =~= old_nodes + seq![event_node(e)] + mapped.take(k + 1));
                assert(properties@ =~= props.skip(k + 1));
                assert forall|a: int, b: int| 0 <= a < b < self.nodes@.len() implies !same_node(
                    #[trigger] self.nodes@[a].node_id,
                    #[trigger] self.nodes@[b].node_id,
                ) by {
                    if b == before.len() {
                        if a >= old_nodes.len() {
                            assert(before[a].node_id == ids[a - old_nodes.len()]);
                        }
                    } else {
                        assert(self.nodes@[a] == before[a]);
                        assert(self.nodes@[b] == before[b]);
                    }
                }
            }
            k = k + 1;
        }
        proof {
            assert(k == props.len());
            assert(mapped.take(k as int) =~= mapped);
        }
        Ok(())
    }
}

} // verus!
