use opcua_core::address_space::{
    AddressSpace, BrowseDirection, Node, HAS_EVENT_SOURCE, HAS_MODELLING_RULE, HAS_PROPERTY, HAS_SUBTYPE, HIERARCHICAL_REFERENCES, OBJECTS_FOLDER, ORGANIZES,
    ROOT_FOLDER,
};
use opcua_core::event::{EventError, EventInstance, EventProperty, MODELLING_RULE_MANDATORY};
use opcua_core::filter::{evaluate_where_clause, AttributeOperand, ContentFilter, ContentFilterElement, EvaluationError, FilterOperator, Operand};
use opcua_core::types::{AttributeId, Decimal, NodeClass, NodeId, Variant};

const BASE_EVENT_TYPE: u32 = 2041;
const SERVER: u32 = 2253;

fn event_type_id() -> NodeId {
    NodeId::string(2, "TestEventType")
}

fn event_id() -> NodeId {
    NodeId::numeric(2, 1000)
}

fn root_folder_id() -> NodeId {
    NodeId::numeric(0, ROOT_FOLDER)
}

fn objects_folder_id() -> NodeId {
    NodeId::numeric(0, OBJECTS_FOLDER)
}

fn test_event(node_id: NodeId, source_object_id: &NodeId, foo: i32) -> EventInstance {
    let event_name = format!("Event{}", foo);
    EventInstance {
        node_id,
        browse_name: event_name.clone(),
        event_type: event_type_id(),
        source_node: source_object_id.clone(),
        message: format!("A Test event from {:?}", source_object_id),
        properties: vec![EventProperty {
            node_id: NodeId::string(2, &format!("{}.Foo", event_name)),
            name: "Foo".to_string(),
            value: Variant::Int32(foo),
        }],
    }
}

fn create_event(address_space: &mut AddressSpace, node_id: NodeId, source_machine_id: &NodeId, foo: i32) {
    let event = test_event(node_id, source_machine_id, foo);
    // create an event object in the objects folder
    assert_eq!(address_space.insert_event(event, &objects_folder_id()), Ok(()));
}

fn address_space() -> AddressSpace {
    let mut address_space = AddressSpace::new();
    assert!(address_space.insert_node(Node::new(NodeId::numeric(0, SERVER), NodeClass::Object, "Server", "Server")));
    assert!(address_space.insert_reference(objects_folder_id(), NodeId::numeric(0, ORGANIZES), NodeId::numeric(0, SERVER)));
    let mandatory = NodeId::numeric(0, MODELLING_RULE_MANDATORY);
    assert!(address_space.insert_node(Node::new(mandatory.clone(), NodeClass::Object, "Mandatory", "Mandatory")));
    let base_event_type = NodeId::numeric(0, BASE_EVENT_TYPE);
    assert!(address_space.insert_node(Node::new(base_event_type.clone(), NodeClass::ObjectType, "BaseEventType", "BaseEventType")));

    // Create an event type
    let event_type_id = event_type_id();
    assert!(address_space.insert_node(Node::new(event_type_id.clone(), NodeClass::ObjectType, "TestEventType", "TestEventType")));
    assert!(address_space.insert_reference(base_event_type, NodeId::numeric(0, HAS_SUBTYPE), event_type_id.clone()));

    // Add attribute to event type
    let attr_foo_id = NodeId::string(2, "Foo");
    assert!(address_space.insert_node(Node::variable(attr_foo_id.clone(), "Foo", "Foo", Variant::Empty)));
    assert!(address_space.insert_reference(event_type_id, NodeId::numeric(0, HAS_PROPERTY), attr_foo_id.clone()));
    assert!(address_space.insert_reference(attr_foo_id, NodeId::numeric(0, HAS_MODELLING_RULE), mandatory));

    // Create an event of that type
    create_event(&mut address_space, event_id(), &NodeId::numeric(0, SERVER), 100);

    address_space
}

fn literal(v: Variant) -> Operand {
    Operand::Literal(v)
}

fn int32(v: i32) -> Operand {
    literal(Variant::Int32(v))
}

fn boolean(v: bool) -> Operand {
    literal(Variant::Boolean(v))
}

fn string(v: &str) -> Operand {
    literal(Variant::String(v.to_string()))
}

fn empty() -> Operand {
    literal(Variant::Empty)
}

/// `mantissa / 10^scale`, the decimal that stands for a floating-point literal.
fn double(mantissa: i64, scale: u32) -> Operand {
    literal(Variant::Decimal(Decimal { mantissa, scale }))
}

fn element(operator: FilterOperator, operands: Vec<Operand>) -> ContentFilterElement {
    ContentFilterElement { operator, operands }
}

fn simple_attribute(browse_path: &str, attribute_id: AttributeId) -> Operand {
    Operand::Attribute(AttributeOperand {
        reference_type: NodeId::numeric(0, HIERARCHICAL_REFERENCES),
        browse_path: browse_path.split('/').map(|s| s.to_string()).collect(),
        attribute_id,
        index_range: None,
    })
}

fn operator_result(address_space: &AddressSpace, operator: FilterOperator, operands: Vec<Operand>) -> Variant {
    let f = ContentFilter { elements: vec![element(operator, operands)] };
    evaluate_where_clause(&event_id(), &f, address_space).unwrap()
}

fn do_operator_test<T>(f: T)
where
    T: FnOnce(&AddressSpace),
{
    let address_space = address_space();
    f(&address_space);
}

#[test]
fn test_eq() {
    do_operator_test(|address_space| {
        // Simple test, compare two values of the same kind
        let result = operator_result(address_space, FilterOperator::Equals, vec![int32(10), int32(10)]);
        assert_eq!(result, Variant::Boolean(true));

        let result = operator_result(address_space, FilterOperator::Equals, vec![int32(9), int32(10)]);
        assert_eq!(result, Variant::Boolean(false));

        let result = operator_result(address_space, FilterOperator::Equals, vec![int32(10), int32(11)]);
        assert_eq!(result, Variant::Boolean(false));
    });
}

#[test]
fn test_lt() {
    do_operator_test(|address_space| {
        let result = operator_result(address_space, FilterOperator::LessThan, vec![int32(9), int32(10)]);
        assert_eq!(result, Variant::Boolean(true));

        let result = operator_result(address_space, FilterOperator::LessThan, vec![int32(10), int32(10)]);
        assert_eq!(result, Variant::Boolean(false));

        let result = operator_result(address_space, FilterOperator::LessThan, vec![int32(11), int32(10)]);
        assert_eq!(result, Variant::Boolean(false));
    });
}

#[test]
fn test_lte() {
    do_operator_test(|address_space| {
        let result = operator_result(address_space, FilterOperator::LessThanOrEqual, vec![int32(9), int32(10)]);
        assert_eq!(result, Variant::Boolean(true));

        let result = operator_result(address_space, FilterOperator::LessThanOrEqual, vec![int32(10), int32(10)]);
        assert_eq!(result, Variant::Boolean(true));

        let result = operator_result(address_space, FilterOperator::LessThanOrEqual, vec![int32(11), int32(10)]);
        assert_eq!(result, Variant::Boolean(false));
    });
}

#[test]
fn test_gt() {
    do_operator_test(|address_space| {
        let result = operator_result(address_space, FilterOperator::GreaterThan, vec![int32(11), int32(10)]);
        assert_eq!(result, Variant::Boolean(true));

        let result = operator_result(address_space, FilterOperator::GreaterThan, vec![int32(10), int32(10)]);
        assert_eq!(result, Variant::Boolean(false));

        let result = operator_result(address_space, FilterOperator::GreaterThan, vec![int32(9), int32(10)]);
        assert_eq!(result, Variant::Boolean(false));
    });
}

#[test]
fn test_gte() {
    do_operator_test(|address_space| {
        let result = operator_result(address_space, FilterOperator::GreaterThanOrEqual, vec![int32(11), int32(10)]);
        assert_eq!(result, Variant::Boolean(true));

        let result = operator_result(address_space, FilterOperator::GreaterThanOrEqual, vec![int32(10), int32(10)]);
        assert_eq!(result, Variant::Boolean(true));

        let result = operator_result(address_space, FilterOperator::GreaterThanOrEqual, vec![int32(9), int32(10)]);
        assert_eq!(result, Variant::Boolean(false));
    });
}

#[test]
fn test_not() {
    do_operator_test(|address_space| {
        let result = operator_result(address_space, FilterOperator::Not, vec![boolean(false)]);
        assert_eq!(result, Variant::Boolean(true));

        let result = operator_result(address_space, FilterOperator::Not, vec![boolean(true)]);
        assert_eq!(result, Variant::Boolean(false));

        // String
        let result = operator_result(address_space, FilterOperator::Not, vec![string("0")]);
        assert_eq!(result, Variant::Boolean(true));

        // String(2)
        let result = operator_result(address_space, FilterOperator::Not, vec![string("true")]);
        assert_eq!(result, Variant::Boolean(false));

        // Invalid - Double 99.9
        let result = operator_result(address_space, FilterOperator::Not, vec![double(999, 1)]);
        assert_eq!(result, Variant::Empty);

        // Invalid - Int32
        let result = operator_result(address_space, FilterOperator::Not, vec![int32(1)]);
        assert_eq!(result, Variant::Empty);
    });
}

#[test]
fn test_between() {
    do_operator_test(|address_space| {
        let result = operator_result(address_space, FilterOperator::Between, vec![int32(12), int32(12), int32(13)]);
        assert_eq!(result, Variant::Boolean(true));

        let result = operator_result(address_space, FilterOperator::Between, vec![int32(13), int32(12), int32(13)]);
        assert_eq!(result, Variant::Boolean(true));

        // 12.3 between 12.0 and 12.4
        let result = operator_result(address_space, FilterOperator::Between, vec![double(123, 1), double(120, 1), double(124, 1)]);
        assert_eq!(result, Variant::Boolean(true));

        // 11.99 between 12.0 and 13.0
        let result = operator_result(address_space, FilterOperator::Between, vec![double(1199, 2), double(120, 1), double(130, 1)]);
        assert_eq!(result, Variant::Boolean(false));

        // 13.0001 between 12.0 and 13.0
        let result = operator_result(address_space, FilterOperator::Between, vec![double(130001, 4), double(120, 1), double(130, 1)]);
        assert_eq!(result, Variant::Boolean(false));
    });
}

#[test]
fn test_and() {
    do_operator_test(|address_space| {
        let cases = vec![
            (boolean(true), boolean(true), Variant::Boolean(true)),
            (boolean(false), boolean(true), Variant::Boolean(false)),
            (boolean(true), boolean(false), Variant::Boolean(false)),
            (boolean(false), boolean(false), Variant::Boolean(false)),
            (boolean(true), empty(), Variant::Empty),
            (empty(), boolean(true), Variant::Empty),
            (boolean(false), empty(), Variant::Boolean(false)),
            (empty(), boolean(false), Variant::Boolean(false)),
            (empty(), empty(), Variant::Empty),
        ];
        for (a, b, expected) in cases {
            let result = operator_result(address_space, FilterOperator::And, vec![a, b]);
            assert_eq!(result, expected);
        }
    });
}

#[test]
fn test_or() {
    do_operator_test(|address_space| {
        let cases = vec![
            (boolean(true), boolean(true), Variant::Boolean(true)),
            (boolean(true), boolean(false), Variant::Boolean(true)),
            (boolean(false), boolean(true), Variant::Boolean(true)),
            (boolean(false), boolean(false), Variant::Boolean(false)),
            (boolean(true), empty(), Variant::Boolean(true)),
            (empty(), boolean(true), Variant::Boolean(true)),
            (boolean(false), empty(), Variant::Empty),
            (empty(), boolean(false), Variant::Empty),
        ];
        for (a, b, expected) in cases {
            let result = operator_result(address_space, FilterOperator::Or, vec![a, b]);
            assert_eq!(result, expected);
        }
    });
}

#[test]
fn test_in_list() {
    do_operator_test(|address_space| {
        let result = operator_result(address_space, FilterOperator::InList, vec![int32(10), boolean(false)]);
        assert_eq!(result, Variant::Boolean(false));

        let result = operator_result(address_space, FilterOperator::InList, vec![boolean(true), boolean(false)]);
        assert_eq!(result, Variant::Boolean(false));
    });
}

#[test]
fn test_bitwise_or() {
    do_operator_test(|address_space| {
        let result = operator_result(address_space, FilterOperator::BitwiseOr, vec![literal(Variant::UInt16(0xff00)), literal(Variant::UInt16(0x00ff))]);
        assert_eq!(result, Variant::UInt16(0xffff));
    });
}

#[test]
fn test_bitwise_and() {
    do_operator_test(|address_space| {
        let result = operator_result(address_space, FilterOperator::BitwiseAnd, vec![literal(Variant::UInt16(0xf00f)), literal(Variant::UInt16(0x00ff))]);
        assert_eq!(result, Variant::UInt16(0x000f));
    });
}

#[test]
fn test_where_clause() {
    let address_space = address_space();

    let object_id = root_folder_id();

    // IsNull(NULL)
    let f = ContentFilter { elements: vec![element(FilterOperator::IsNull, vec![empty()])] };
    let result = evaluate_where_clause(&object_id, &f, &address_space);
    assert_eq!(result.unwrap(), Variant::Boolean(true));

    // (550 == "550") && (10.5 == "10.5")
    let f = ContentFilter {
        elements: vec![
            element(FilterOperator::And, vec![Operand::Element(1), Operand::Element(2)]),
            element(FilterOperator::Equals, vec![int32(550), string("550")]),
            element(FilterOperator::Equals, vec![double(105, 1), string("10.5")]),
        ],
    };
    let result = evaluate_where_clause(&object_id, &f, &address_space);
    assert_eq!(result.unwrap(), Variant::Boolean(true));

    // Like operator
    let f = ContentFilter { elements: vec![element(FilterOperator::Like, vec![string("Hello world"), string("[Hh]ello w%")])] };
    let result = evaluate_where_clause(&object_id, &f, &address_space);
    assert_eq!(result.unwrap(), Variant::Boolean(true));

    // Not equals
    let f = ContentFilter {
        elements: vec![
            element(FilterOperator::Not, vec![Operand::Element(1)]),
            element(FilterOperator::Equals, vec![int32(550), int32(551)]),
        ],
    };
    let result = evaluate_where_clause(&object_id, &f, &address_space);
    assert_eq!(result.unwrap(), Variant::Boolean(true));

    // Do some relative path comparisons against the event to ensure content filters appear to work
    let expected = vec![
        // Valid
        (root_folder_id(), "Objects/Event100/Foo", 100, true),
        (objects_folder_id(), "Event100/Foo", 100, true),
        (event_id(), "Foo", 100, true),
        // Invalid
        (root_folder_id(), "Objects/Event101/Foo", 100, false),
        (root_folder_id(), "Objects/Foo", 100, false),
        (root_folder_id(), "Objects/Event100/Foo", 101, false),
        (objects_folder_id(), "Event100/Foo", 101, false),
        (event_id(), "Foo", 101, false),
        (objects_folder_id(), "Event100/Foo/Bar", 100, false),
        (event_id(), "", 100, false),
    ];
    for (node_id, browse_path, value_to_compare, expected) in expected {
        let f = ContentFilter {
            elements: vec![element(FilterOperator::Equals, vec![simple_attribute(browse_path, AttributeId::Value), int32(value_to_compare)])],
        };
        let result = evaluate_where_clause(&node_id, &f, &address_space);
        assert_eq!(result.unwrap(), Variant::Boolean(expected));
    }
}

#[test]
fn cycle_through_self_is_an_error() {
    let address_space = address_space();
    let f = ContentFilter { elements: vec![element(FilterOperator::Not, vec![Operand::Element(0)])] };
    assert_eq!(evaluate_where_clause(&event_id(), &f, &address_space), Err(EvaluationError::CycleDetected(0)));
}

#[test]
fn transitive_cycle_is_an_error() {
    let address_space = address_space();
    let f = ContentFilter {
        elements: vec![
            element(FilterOperator::Not, vec![Operand::Element(1)]),
            element(FilterOperator::And, vec![boolean(true), Operand::Element(2)]),
            element(FilterOperator::Or, vec![Operand::Element(1), boolean(false)]),
        ],
    };
    assert_eq!(evaluate_where_clause(&event_id(), &f, &address_space), Err(EvaluationError::CycleDetected(1)));
}

#[test]
fn long_cycle_is_an_error_without_overflow() {
    let address_space = address_space();
    let n = 500;
    let mut elements = Vec::new();
    for i in 0..n {
        elements.push(element(FilterOperator::Not, vec![Operand::Element((i + 1) % n)]));
    }
    let f = ContentFilter { elements };
    assert_eq!(evaluate_where_clause(&event_id(), &f, &address_space), Err(EvaluationError::CycleDetected(0)));
}

#[test]
fn element_out_of_range_is_an_error() {
    let address_space = address_space();
    let f = ContentFilter { elements: vec![element(FilterOperator::Not, vec![Operand::Element(3)])] };
    assert_eq!(evaluate_where_clause(&event_id(), &f, &address_space), Err(EvaluationError::ElementOutOfRange(3)));
    let f = ContentFilter { elements: vec![] };
    assert_eq!(evaluate_where_clause(&event_id(), &f, &address_space), Err(EvaluationError::ElementOutOfRange(0)));
}

#[test]
fn wrong_operand_count_is_an_error() {
    let address_space = address_space();
    let f = ContentFilter { elements: vec![element(FilterOperator::Equals, vec![int32(1)])] };
    assert_eq!(evaluate_where_clause(&event_id(), &f, &address_space), Err(EvaluationError::WrongOperandCount(0)));
    let f = ContentFilter { elements: vec![element(FilterOperator::InList, vec![int32(1)])] };
    assert_eq!(evaluate_where_clause(&event_id(), &f, &address_space), Err(EvaluationError::WrongOperandCount(0)));
}

#[test]
fn missing_path_resolves_to_null() {
    let address_space = address_space();
    let f = ContentFilter { elements: vec![element(FilterOperator::IsNull, vec![simple_attribute("Objects/Nowhere", AttributeId::Value)])] };
    assert_eq!(evaluate_where_clause(&root_folder_id(), &f, &address_space), Ok(Variant::Boolean(true)));
    let f = ContentFilter { elements: vec![element(FilterOperator::IsNull, vec![simple_attribute("Objects/Event100/Foo", AttributeId::Value)])] };
    assert_eq!(evaluate_where_clause(&root_folder_id(), &f, &address_space), Ok(Variant::Boolean(false)));
}

#[test]
fn index_range_operand_is_empty() {
    let address_space = address_space();
    let mut operand = simple_attribute("Foo", AttributeId::Value);
    if let Operand::Attribute(a) = &mut operand {
        a.index_range = Some("0:1".to_string());
    }
    let f = ContentFilter { elements: vec![element(FilterOperator::IsNull, vec![operand])] };
    assert_eq!(evaluate_where_clause(&event_id(), &f, &address_space), Ok(Variant::Boolean(true)));
}

#[test]
fn attribute_reads_of_the_event() {
    let address_space = address_space();
    let read = |path: &str, attr: AttributeId| {
        let f = ContentFilter { elements: vec![element(FilterOperator::Equals, vec![simple_attribute(path, attr), empty()])] };
        evaluate_where_clause(&root_folder_id(), &f, &address_space).unwrap()
    };
    // Objects has no Value attribute, so it reads as Empty.
    assert_eq!(read("Objects", AttributeId::Value), Variant::Boolean(true));
    assert_eq!(read("Objects/Event100/Foo", AttributeId::Value), Variant::Boolean(false));
    assert_eq!(address_space.read_attribute(&event_id(), AttributeId::BrowseName), Variant::String("Event100".to_string()));
    assert_eq!(address_space.read_attribute(&event_id(), AttributeId::NodeClass), Variant::Int32(1));
    assert_eq!(address_space.read_attribute(&NodeId::numeric(7, 7), AttributeId::DisplayName), Variant::Empty);
}

#[test]
fn event_without_mandatory_property_is_refused() {
    let mut address_space = address_space();
    let mut event = test_event(NodeId::numeric(2, 1001), &NodeId::numeric(0, SERVER), 101);
    event.properties.clear();
    let nodes = address_space.nodes.len();
    let references = address_space.references.len();
    assert_eq!(address_space.insert_event(event, &objects_folder_id()), Err(EventError::MissingMandatoryProperty));
    assert_eq!(address_space.nodes.len(), nodes);
    assert_eq!(address_space.references.len(), references);
}

#[test]
fn event_insertion_errors() {
    let mut address_space = address_space();
    let nodes = address_space.nodes.len();
    let mut event = test_event(NodeId::numeric(2, 1001), &NodeId::numeric(0, SERVER), 101);
    event.event_type = NodeId::null();
    assert_eq!(address_space.insert_event(event, &objects_folder_id()), Err(EventError::InvalidEvent));
    let event = test_event(NodeId::numeric(2, 1001), &NodeId::numeric(0, SERVER), 101);
    assert_eq!(address_space.insert_event(event, &NodeId::numeric(2, 5)), Err(EventError::MissingNode));
    // the id of the existing event
    let event = test_event(event_id(), &NodeId::numeric(0, SERVER), 101);
    assert_eq!(address_space.insert_event(event, &objects_folder_id()), Err(EventError::NodeIdInUse));
    // a property reusing the event's own id
    let mut event = test_event(NodeId::numeric(2, 1001), &NodeId::numeric(0, SERVER), 101);
    event.properties[0].node_id = NodeId::numeric(2, 1001);
    assert_eq!(address_space.insert_event(event, &objects_folder_id()), Err(EventError::NodeIdInUse));
    assert_eq!(address_space.nodes.len(), nodes);
}

#[test]
fn second_event_is_browsable() {
    let mut address_space = address_space();
    create_event(&mut address_space, NodeId::numeric(2, 1001), &NodeId::numeric(0, SERVER), 101);
    let f = ContentFilter {
        elements: vec![element(FilterOperator::Equals, vec![simple_attribute("Objects/Event101/Foo", AttributeId::Value), int32(101)])],
    };
    assert_eq!(evaluate_where_clause(&root_folder_id(), &f, &address_space), Ok(Variant::Boolean(true)));
    assert_eq!(address_space.read_attribute(&NodeId::numeric(2, 1001), AttributeId::Description), Variant::String("A Test event from NodeId { namespace: 0, identifier: Numeric(2253) }".to_string()));
}

#[test]
fn event_is_reached_from_its_source() {
    let address_space = address_space();
    let found = address_space.browse(&NodeId::numeric(0, SERVER), &NodeId::numeric(0, HAS_EVENT_SOURCE), BrowseDirection::Forward, false);
    assert_eq!(found.len(), 1);
    assert_eq!(found[0].node_id, event_id());
}
