use amq_protocol::types::AMQPType;

#[test]
fn test_type_from_id() {
    assert_eq!(AMQPType::from_id('T'), Some(AMQPType::Timestamp));
    assert_eq!(AMQPType::from_id('S'), Some(AMQPType::LongString));
    assert_eq!(AMQPType::from_id('s'), Some(AMQPType::ShortInt));
    assert_eq!(AMQPType::from_id('U'), Some(AMQPType::ShortInt));
    assert_eq!(AMQPType::from_id('l'), Some(AMQPType::LongLongInt));
    assert_eq!(AMQPType::from_id('z'), None);
}

#[test]
fn test_type_get_id() {
    assert_eq!(AMQPType::LongLongInt.get_id(), 'l');
    assert_eq!(AMQPType::LongLongUInt.get_id(), 'l');
    assert_eq!(AMQPType::ShortString.get_id(), '_');
}

#[test]
fn test_type_to_string() {
    assert_eq!(AMQPType::Boolean.to_string(), "Boolean");
    assert_eq!(AMQPType::Void.to_string(), "Void");
}

const ALL_TYPES: [AMQPType; 19] = [
    AMQPType::Boolean,
    AMQPType::ShortShortInt,
    AMQPType::ShortShortUInt,
    AMQPType::ShortInt,
    AMQPType::ShortUInt,
    AMQPType::LongInt,
    AMQPType::LongUInt,
    AMQPType::LongLongInt,
    AMQPType::LongLongUInt,
    AMQPType::Float,
    AMQPType::Double,
    AMQPType::DecimalValue,
    AMQPType::ShortString,
    AMQPType::LongString,
    AMQPType::FieldArray,
    AMQPType::Timestamp,
    AMQPType::FieldTable,
    AMQPType::ByteArray,
    AMQPType::Void,
];

#[test]
fn test_forward_table_is_exact() {
    let table = [
        ('t', AMQPType::Boolean),
        ('b', AMQPType::ShortShortInt),
        ('B', AMQPType::ShortShortUInt),
        ('s', AMQPType::ShortInt),
        ('U', AMQPType::ShortInt),
        ('u', AMQPType::ShortUInt),
        ('I', AMQPType::LongInt),
        ('i', AMQPType::LongUInt),
        ('L', AMQPType::LongLongInt),
        ('l', AMQPType::LongLongInt),
        ('f', AMQPType::Float),
        ('d', AMQPType::Double),
        ('D', AMQPType::DecimalValue),
        ('S', AMQPType::LongString),
        ('A', AMQPType::FieldArray),
        ('T', AMQPType::Timestamp),
        ('F', AMQPType::FieldTable),
        ('x', AMQPType::ByteArray),
        ('V', AMQPType::Void),
    ];
    for (tag, expected) in table {
        assert_eq!(AMQPType::from_id(tag), Some(expected));
    }
    // every other character yields no match, never a failure
    for c in ['a', 'c', 'e', 'z', 'Z', '0', '9', '_', ' ', '!', '\u{00e9}'] {
        if !table.iter().any(|(tag, _)| *tag == c) {
            assert_eq!(AMQPType::from_id(c), None);
        }
    }
}

#[test]
fn test_inverse_total_table_or_sentinel() {
    for t in ALL_TYPES {
        let tag = t.get_id();
        if t == AMQPType::ShortString {
            assert_eq!(tag, '_');
        } else {
            assert!(AMQPType::from_id(tag).is_some());
        }
    }
}

#[test]
fn test_round_trip_except_collapses() {
    for t in ALL_TYPES {
        let back = AMQPType::from_id(t.get_id());
        if t == AMQPType::LongLongUInt {
            assert_eq!(back, Some(AMQPType::LongLongInt));
        } else if t == AMQPType::ShortString {
            assert_eq!(back, None);
        } else {
            assert_eq!(back, Some(t));
        }
    }
}

#[test]
fn test_longlong_collapse() {
    assert_eq!(AMQPType::LongLongInt.get_id(), AMQPType::LongLongUInt.get_id());
    assert_eq!(
        AMQPType::from_id(AMQPType::LongLongUInt.get_id()),
        Some(AMQPType::LongLongInt)
    );
}

#[test]
fn test_short_int_aliases() {
    assert_eq!(AMQPType::from_id('U'), AMQPType::from_id('s'));
    assert_eq!(AMQPType::from_id('U'), Some(AMQPType::ShortInt));
}

#[test]
fn test_short_string_sentinel_rejected() {
    let sentinel = AMQPType::ShortString.get_id();
    assert_eq!(sentinel, '_');
    assert_eq!(AMQPType::from_id(sentinel), None);
}

#[test]
fn test_decimal_value_fields() {
    let d = amq_protocol::types::DecimalValue { scale: 2, value: 1234 };
    assert_eq!(d.scale, 2);
    assert_eq!(d.value, 1234);
}
