use amq_protocol::loader::{
    definition_from_document, domain_lookup, group_arguments, split_constants, type_of_name,
    RawArgument, SpecsError,
};
use amq_protocol::records::{
    AMQPArgument, AMQPConstant, AMQPDomain, AMQPFlagArgument, AMQProtocolDefinition,
    ConstantClass,
};
use amq_protocol::types::AMQPType;

fn parse(text: &str) -> serde_json::Value {
    serde_json::from_str(text).expect("test document must parse")
}

#[test]
fn test_load_without_metadata() {
    let def = AMQProtocolDefinition::load(None).expect("bundled specification must load");
    assert_eq!(def.name, "AMQP");
    assert_eq!(def.major_version, 0);
    assert_eq!(def.minor_version, 9);
    assert_eq!(def.revision, 1);
    assert_eq!(def.port, 5672);
    assert_eq!(
        def.copyright,
        "Copyright (C) 2008-2020 VMware, Inc. or its affiliates."
    );
    assert!(!def.domains.is_empty());
    assert!(!def.constants.is_empty());
    assert!(!def.classes.is_empty());
    assert!(!def.soft_errors.is_empty());
    assert!(!def.hard_errors.is_empty());
    // without a metadata document every metadata slot stays empty
    for c in &def.classes {
        assert!(c.metadata.is_null());
        for m in &c.methods {
            assert!(m.metadata.is_null());
        }
    }
}

#[test]
fn test_load_splits_error_constants() {
    let def = AMQProtocolDefinition::load(None).unwrap();
    let soft: Vec<&str> = def.soft_errors.iter().map(|c| c.name.as_str()).collect();
    let hard: Vec<&str> = def.hard_errors.iter().map(|c| c.name.as_str()).collect();
    let plain: Vec<&str> = def.constants.iter().map(|c| c.name.as_str()).collect();
    assert!(soft.contains(&"not-found"));
    assert!(hard.contains(&"internal-error"));
    assert!(plain.contains(&"frame-method"));
    assert!(!plain.contains(&"not-found"));
    assert!(!soft.contains(&"internal-error"));
    let not_found = def.soft_errors.iter().find(|c| c.name == "not-found").unwrap();
    assert_eq!(not_found.value, 404);
    assert_eq!(not_found.amqp_type, AMQPType::ShortUInt);
    let frame_end = def.constants.iter().find(|c| c.name == "frame-end").unwrap();
    assert_eq!(frame_end.value, 206);
    assert_eq!(frame_end.amqp_type, AMQPType::ShortShortUInt);
}

#[test]
fn test_load_packs_consecutive_bits() {
    let def = AMQProtocolDefinition::load(None).unwrap();
    let queue = def.classes.iter().find(|c| c.name == "queue").unwrap();
    assert_eq!(queue.id, 50);
    let declare = queue.methods.iter().find(|m| m.name == "declare").unwrap();
    assert_eq!(declare.id, 10);
    assert!(declare.synchronous);
    assert!(!declare.is_reply);
    // ticket, queue, one flag group of five bits, arguments
    assert_eq!(declare.arguments.len(), 4);
    match &declare.arguments[0] {
        AMQPArgument::Value(v) => {
            assert_eq!(v.name, "ticket");
            assert_eq!(v.amqp_type, AMQPType::ShortUInt);
            assert!(v.force_default);
        }
        other => panic!("expected a value argument, got {:?}", other),
    }
    match &declare.arguments[1] {
        AMQPArgument::Value(v) => {
            assert_eq!(v.name, "queue");
            assert_eq!(v.amqp_type, AMQPType::ShortString);
            assert_eq!(v.domain.as_deref(), Some("queue-name"));
        }
        other => panic!("expected a value argument, got {:?}", other),
    }
    match &declare.arguments[2] {
        AMQPArgument::Flags(fs) => {
            let names: Vec<&str> = fs.iter().map(|f| f.name.as_str()).collect();
            assert_eq!(
                names,
                ["passive", "durable", "exclusive", "auto-delete", "nowait"]
            );
            assert!(fs.iter().all(|f| !f.default_value));
        }
        other => panic!("expected a flag group, got {:?}", other),
    }
    match &declare.arguments[3] {
        AMQPArgument::Value(v) => {
            assert_eq!(v.name, "arguments");
            assert_eq!(v.amqp_type, AMQPType::FieldTable);
        }
        other => panic!("expected a value argument, got {:?}", other),
    }
    // a reply carries its marker
    let declare_ok = queue.methods.iter().find(|m| m.name == "declare-ok").unwrap();
    assert!(declare_ok.is_reply);
    assert!(!declare_ok.synchronous);
    // basic carries the message properties
    let basic = def.classes.iter().find(|c| c.name == "basic").unwrap();
    assert_eq!(basic.id, 60);
    let content_type = basic.properties.iter().find(|p| p.name == "content-type").unwrap();
    assert_eq!(content_type.amqp_type, AMQPType::ShortString);
    let timestamp = basic.properties.iter().find(|p| p.name == "timestamp").unwrap();
    assert_eq!(timestamp.amqp_type, AMQPType::Timestamp);
}

#[test]
fn test_load_merges_metadata() {
    let metadata = parse(
        "{\"queue\": {\"declare\": {\"rename\": \"declare_queue\"}}, \"basic\": {\"suppress\": true}}",
    );
    let merged = AMQProtocolDefinition::load(Some(metadata)).unwrap();
    let bare = AMQProtocolDefinition::load(None).unwrap();
    // protocol-semantic fields of every record are unchanged
    assert_eq!(merged.classes.len(), bare.classes.len());
    for (mc, bc) in merged.classes.iter().zip(bare.classes.iter()) {
        assert_eq!(mc.id, bc.id);
        assert_eq!(mc.name, bc.name);
        assert_eq!(mc.properties, bc.properties);
        assert_eq!(mc.methods.len(), bc.methods.len());
        for (mm, bm) in mc.methods.iter().zip(bc.methods.iter()) {
            assert_eq!(mm.id, bm.id);
            assert_eq!(mm.name, bm.name);
            assert_eq!(mm.synchronous, bm.synchronous);
            assert_eq!(mm.is_reply, bm.is_reply);
            assert_eq!(mm.arguments.len(), bm.arguments.len());
        }
    }
    // the matching records took the override fields
    let queue = merged.classes.iter().find(|c| c.name == "queue").unwrap();
    assert_eq!(
        queue.metadata,
        parse("{\"declare\": {\"rename\": \"declare_queue\"}}")
    );
    let declare = queue.methods.iter().find(|m| m.name == "declare").unwrap();
    assert_eq!(declare.metadata, parse("{\"rename\": \"declare_queue\"}"));
    let basic = merged.classes.iter().find(|c| c.name == "basic").unwrap();
    assert_eq!(basic.metadata, parse("{\"suppress\": true}"));
    // records the metadata does not name keep empty slots
    let tx = merged.classes.iter().find(|c| c.name == "tx").unwrap();
    assert!(tx.metadata.is_null());
    let bind = queue.methods.iter().find(|m| m.name == "bind").unwrap();
    assert!(bind.metadata.is_null());
}

#[test]
fn test_loaded_definition_ids_and_names_unique() {
    let def = AMQProtocolDefinition::load(None).unwrap();
    for (i, a) in def.classes.iter().enumerate() {
        for b in def.classes.iter().skip(i + 1) {
            assert_ne!(a.id, b.id);
        }
    }
    for (i, a) in def.domains.iter().enumerate() {
        for b in def.domains.iter().skip(i + 1) {
            assert_ne!(a.name, b.name);
        }
    }
    for c in &def.classes {
        for (i, a) in c.methods.iter().enumerate() {
            for b in c.methods.iter().skip(i + 1) {
                assert_ne!(a.id, b.id);
            }
        }
        for m in &c.methods {
            let mut names: Vec<&str> = Vec::new();
            for a in &m.arguments {
                match a {
                    AMQPArgument::Value(v) => names.push(v.name.as_str()),
                    AMQPArgument::Flags(fs) => {
                        for f in fs {
                            names.push(f.name.as_str());
                        }
                    }
                }
            }
            for (i, a) in names.iter().enumerate() {
                for b in names.iter().skip(i + 1) {
                    assert_ne!(a, b);
                }
            }
        }
    }
}

#[test]
fn test_malformed_document_is_rejected() {
    let null_meta = serde_json::Value::Null;
    // not an object at all
    assert_eq!(
        definition_from_document(&serde_json::Value::Null, &null_meta).unwrap_err(),
        SpecsError::Malformed
    );
    // missing fields
    assert_eq!(
        definition_from_document(&parse("{\"name\": \"AMQP\"}"), &null_meta).unwrap_err(),
        SpecsError::Malformed
    );
    // version out of the 8-bit range
    let doc = parse(
        "{\"name\": \"x\", \"major_version\": 256, \"minor_version\": 0, \"revision\": 0, \
         \"port\": 1, \"copyright\": \"c\", \"domains\": [], \"constants\": [], \"classes\": []}",
    );
    assert_eq!(definition_from_document(&doc, &null_meta).unwrap_err(), SpecsError::Malformed);
    // a domain naming an unknown primitive type
    let doc = parse(
        "{\"name\": \"x\", \"major_version\": 0, \"minor_version\": 9, \"revision\": 1, \
         \"port\": 1, \"copyright\": \"c\", \
         \"domains\": [{\"name\": \"d\", \"type\": \"no-such-type\"}], \
         \"constants\": [], \"classes\": []}",
    );
    assert_eq!(definition_from_document(&doc, &null_meta).unwrap_err(), SpecsError::Malformed);
}

#[test]
fn test_duplicate_ids_are_rejected() {
    let null_meta = serde_json::Value::Null;
    let doc = parse(
        "{\"name\": \"x\", \"major_version\": 0, \"minor_version\": 9, \"revision\": 1, \
         \"port\": 1, \"copyright\": \"c\", \"domains\": [], \"constants\": [], \
         \"classes\": [ \
            {\"id\": 10, \"name\": \"a\", \"methods\": []}, \
            {\"id\": 10, \"name\": \"b\", \"methods\": []}]}",
    );
    assert_eq!(definition_from_document(&doc, &null_meta).unwrap_err(), SpecsError::Inconsistent);
    // duplicate argument names within one method
    let doc = parse(
        "{\"name\": \"x\", \"major_version\": 0, \"minor_version\": 9, \"revision\": 1, \
         \"port\": 1, \"copyright\": \"c\", \"domains\": [], \"constants\": [], \
         \"classes\": [{\"id\": 10, \"name\": \"a\", \"methods\": [ \
            {\"id\": 1, \"name\": \"m\", \"arguments\": [ \
               {\"type\": \"bit\", \"name\": \"flag\"}, \
               {\"type\": \"bit\", \"name\": \"flag\"}]}]}]}",
    );
    assert_eq!(definition_from_document(&doc, &null_meta).unwrap_err(), SpecsError::Inconsistent);
}

#[test]
fn test_minimal_document_loads() {
    let doc = parse(
        "{\"name\": \"x\", \"major_version\": 2, \"minor_version\": 3, \"revision\": 4, \
         \"port\": 65536, \"copyright\": \"c\", \"domains\": [], \"constants\": [], \
         \"classes\": []}",
    );
    let def = definition_from_document(&doc, &serde_json::Value::Null).unwrap();
    assert_eq!(def.name, "x");
    assert_eq!(def.major_version, 2);
    assert_eq!(def.minor_version, 3);
    assert_eq!(def.revision, 4);
    assert_eq!(def.port, 65536);
    assert!(def.classes.is_empty());
}

#[test]
fn test_type_of_name_table() {
    assert_eq!(type_of_name("bit"), Some(AMQPType::Boolean));
    assert_eq!(type_of_name("octet"), Some(AMQPType::ShortShortUInt));
    assert_eq!(type_of_name("short"), Some(AMQPType::ShortUInt));
    assert_eq!(type_of_name("long"), Some(AMQPType::LongUInt));
    assert_eq!(type_of_name("longlong"), Some(AMQPType::LongLongUInt));
    assert_eq!(type_of_name("shortstr"), Some(AMQPType::ShortString));
    assert_eq!(type_of_name("longstr"), Some(AMQPType::LongString));
    assert_eq!(type_of_name("table"), Some(AMQPType::FieldTable));
    assert_eq!(type_of_name("timestamp"), Some(AMQPType::Timestamp));
    assert_eq!(type_of_name("Boolean"), None);
    assert_eq!(type_of_name(""), None);
}

#[test]
fn test_domain_lookup_finds_first_match() {
    let domains = vec![
        AMQPDomain { name: "queue-name".to_owned(), amqp_type: AMQPType::ShortString },
        AMQPDomain { name: "no-wait".to_owned(), amqp_type: AMQPType::Boolean },
    ];
    assert_eq!(domain_lookup(&domains, "no-wait"), Some(AMQPType::Boolean));
    assert_eq!(domain_lookup(&domains, "queue-name"), Some(AMQPType::ShortString));
    assert_eq!(domain_lookup(&domains, "absent"), None);
}

#[test]
fn test_split_constants_partitions_in_order() {
    let mk = |name: &str, value: u16| AMQPConstant {
        name: name.to_owned(),
        value,
        amqp_type: AMQPType::ShortUInt,
    };
    let all = vec![
        (mk("a", 1), ConstantClass::Plain),
        (mk("b", 2), ConstantClass::SoftError),
        (mk("c", 3), ConstantClass::HardError),
        (mk("d", 4), ConstantClass::Plain),
        (mk("e", 5), ConstantClass::SoftError),
    ];
    let (plain, soft, hard) = split_constants(all);
    let names = |v: &Vec<AMQPConstant>| v.iter().map(|c| c.name.clone()).collect::<Vec<_>>();
    assert_eq!(names(&plain), ["a", "d"]);
    assert_eq!(names(&soft), ["b", "e"]);
    assert_eq!(names(&hard), ["c"]);
}

#[test]
fn test_group_arguments_packs_runs() {
    let bit = |name: &str| {
        RawArgument::Bit(AMQPFlagArgument { name: name.to_owned(), default_value: false })
    };
    let val = |name: &str| {
        RawArgument::Value(amq_protocol::records::AMQPValueArgument {
            amqp_type: AMQPType::LongString,
            name: name.to_owned(),
            default_value: None,
            domain: None,
            force_default: false,
        })
    };
    let grouped = group_arguments(vec![bit("p"), bit("q"), val("v"), bit("r")]);
    assert_eq!(grouped.len(), 3);
    match &grouped[0] {
        AMQPArgument::Flags(fs) => {
            let names: Vec<&str> = fs.iter().map(|f| f.name.as_str()).collect();
            assert_eq!(names, ["p", "q"]);
        }
        other => panic!("expected a flag group, got {:?}", other),
    }
    match &grouped[1] {
        AMQPArgument::Value(v) => assert_eq!(v.name, "v"),
        other => panic!("expected a value argument, got {:?}", other),
    }
    match &grouped[2] {
        AMQPArgument::Flags(fs) => {
            assert_eq!(fs.len(), 1);
            assert_eq!(fs[0].name, "r");
        }
        other => panic!("expected a flag group, got {:?}", other),
    }
    assert!(group_arguments(vec![]).is_empty());
}

#[test]
fn test_out_of_range_values_are_rejected() {
    let null_meta = serde_json::Value::Null;
    // a constant value beyond the 16-bit range
    let doc = parse(
        "{\"name\": \"x\", \"major_version\": 0, \"minor_version\": 9, \"revision\": 1, \
         \"port\": 1, \"copyright\": \"c\", \"domains\": [], \
         \"constants\": [{\"name\": \"big\", \"value\": 65536}], \"classes\": []}",
    );
    assert_eq!(definition_from_document(&doc, &null_meta).unwrap_err(), SpecsError::Malformed);
    // an unknown error classification
    let doc = parse(
        "{\"name\": \"x\", \"major_version\": 0, \"minor_version\": 9, \"revision\": 1, \
         \"port\": 1, \"copyright\": \"c\", \"domains\": [], \
         \"constants\": [{\"name\": \"c\", \"value\": 1, \"class\": \"warm-error\"}], \
         \"classes\": []}",
    );
    assert_eq!(definition_from_document(&doc, &null_meta).unwrap_err(), SpecsError::Malformed);
}

#[test]
fn test_load_with_empty_metadata_object() {
    let def = AMQProtocolDefinition::load(Some(parse("{}"))).unwrap();
    assert_eq!(def.name, "AMQP");
    for c in &def.classes {
        assert!(c.metadata.is_null());
        for m in &c.methods {
            assert!(m.metadata.is_null());
        }
    }
}

#[test]
fn test_load_is_deterministic() {
    let a = AMQProtocolDefinition::load(None).unwrap();
    let b = AMQProtocolDefinition::load(None).unwrap();
    assert_eq!(a, b);
    let c = a.clone();
    assert_eq!(a, c);
}
