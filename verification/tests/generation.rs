use jddf_fuzz::generator::generate;
use jddf_fuzz::PrimType;
use jddf_fuzz::RandomSource;
use jddf_fuzz::Schema;
use jddf_fuzz::Value;

/// The value an object binds to `key`: the last member wins, as in JSON.
fn obj_get<'a>(pairs: &'a [(String, Value)], key: &str) -> Option<&'a Value> {
    pairs.iter().rev().find(|(k, _)| k == key).map(|(_, v)| v)
}

fn is_short_printable(s: &str) -> bool {
    s.chars().count() <= 7 && s.chars().all(|c| (' '..='~').contains(&c))
}

#[test]
fn boolean_form_yields_both_sides() {
    let schema = Schema::Type(PrimType::Boolean);
    let mut rng = RandomSource::from_seed(11);
    let mut seen_true = 0u32;
    let mut seen_false = 0u32;
    for _ in 0..1000 {
        match generate(&schema, &mut rng) {
            Value::Bool(true) => seen_true += 1,
            Value::Bool(false) => seen_false += 1,
            other => panic!("boolean form produced {:?}", other),
        }
    }
    assert!(seen_true > 0 && seen_false > 0);
}

#[test]
fn uint8_form_stays_in_range() {
    let schema = Schema::Type(PrimType::Uint8);
    let mut rng = RandomSource::from_seed(12);
    for _ in 0..1000 {
        match generate(&schema, &mut rng) {
            Value::Int(n) => assert!((0..=255).contains(&n)),
            other => panic!("uint8 form produced {:?}", other),
        }
    }
}

#[test]
fn int16_form_stays_in_range() {
    let schema = Schema::Type(PrimType::Int16);
    let mut rng = RandomSource::from_seed(13);
    for _ in 0..1000 {
        match generate(&schema, &mut rng) {
            Value::Int(n) => assert!((-32768..=32767).contains(&n)),
            other => panic!("int16 form produced {:?}", other),
        }
    }
}

#[test]
fn enum_form_yields_every_member() {
    let schema = Schema::Enum(vec!["a".to_string(), "b".to_string(), "c".to_string()]);
    let mut rng = RandomSource::from_seed(14);
    let mut counts = [0u32; 3];
    for _ in 0..1000 {
        match generate(&schema, &mut rng) {
            Value::Str(s) => match s.as_str() {
                "a" => counts[0] += 1,
                "b" => counts[1] += 1,
                "c" => counts[2] += 1,
                other => panic!("enum form produced {:?}", other),
            },
            other => panic!("enum form produced {:?}", other),
        }
    }
    assert!(counts.iter().all(|&c| c > 0));
}

#[test]
fn elements_form_yields_short_boolean_arrays() {
    let schema = Schema::Elements(Box::new(Schema::Type(PrimType::Boolean)));
    let mut rng = RandomSource::from_seed(15);
    for _ in 0..500 {
        match generate(&schema, &mut rng) {
            Value::Arr(elems) => {
                assert!(elems.len() <= 7);
                for e in &elems {
                    assert!(matches!(e, Value::Bool(_)));
                }
            },
            other => panic!("elements form produced {:?}", other),
        }
    }
}

fn xy_schema(additional: bool) -> Schema {
    Schema::Properties {
        required: vec![("x".to_string(), Schema::Type(PrimType::Boolean))],
        optional: vec![("y".to_string(), Schema::Type(PrimType::Boolean))],
        additional,
    }
}

#[test]
fn properties_form_required_always_optional_half() {
    let schema = xy_schema(false);
    let mut rng = RandomSource::from_seed(16);
    let mut with_y = 0u32;
    for _ in 0..1000 {
        match generate(&schema, &mut rng) {
            Value::Obj(pairs) => {
                assert!(matches!(obj_get(&pairs, "x"), Some(Value::Bool(_))));
                for (k, _) in &pairs {
                    assert!(k == "x" || k == "y", "unexpected key {:?}", k);
                }
                if let Some(v) = obj_get(&pairs, "y") {
                    assert!(matches!(v, Value::Bool(_)));
                    with_y += 1;
                }
            },
            other => panic!("properties form produced {:?}", other),
        }
    }
    assert!((400..=600).contains(&with_y), "y appeared {} times", with_y);
}

#[test]
fn properties_form_additional_keys_are_short() {
    let schema = xy_schema(true);
    let mut rng = RandomSource::from_seed(17);
    let mut saw_additional = false;
    for _ in 0..500 {
        match generate(&schema, &mut rng) {
            Value::Obj(pairs) => {
                for (k, _) in &pairs {
                    if k != "x" && k != "y" {
                        saw_additional = true;
                        assert!(is_short_printable(k), "additional key {:?}", k);
                    }
                }
            },
            other => panic!("properties form produced {:?}", other),
        }
    }
    assert!(saw_additional);
}

#[test]
fn discriminator_form_always_sets_the_tag() {
    let schema = Schema::Discriminator {
        tag: "kind".to_string(),
        mapping: vec![
            (
                "A".to_string(),
                Schema::Properties { required: vec![], optional: vec![], additional: false },
            ),
        ],
    };
    let mut rng = RandomSource::from_seed(18);
    for _ in 0..500 {
        match generate(&schema, &mut rng) {
            Value::Obj(pairs) => match obj_get(&pairs, "kind") {
                Some(Value::Str(s)) => assert_eq!(s, "A"),
                other => panic!("tag member was {:?}", other),
            },
            other => panic!("discriminator form produced {:?}", other),
        }
    }
}

#[test]
fn discriminator_tag_overwrites_members_of_the_arm() {
    // The arm may itself draw additional members; should one of them reuse
    // the tag name, the tag member written last still wins.
    let schema = Schema::Discriminator {
        tag: "kind".to_string(),
        mapping: vec![
            (
                "A".to_string(),
                Schema::Properties { required: vec![], optional: vec![], additional: true },
            ),
        ],
    };
    let mut rng = RandomSource::from_seed(19);
    for _ in 0..500 {
        match generate(&schema, &mut rng) {
            Value::Obj(pairs) => match obj_get(&pairs, "kind") {
                Some(Value::Str(s)) => assert_eq!(s, "A"),
                other => panic!("tag member was {:?}", other),
            },
            other => panic!("discriminator form produced {:?}", other),
        }
    }
}

#[test]
fn empty_form_draws_every_shape() {
    let schema = Schema::Empty;
    let mut rng = RandomSource::from_seed(20);
    let mut counts = [0u32; 5];
    for _ in 0..2000 {
        match generate(&schema, &mut rng) {
            Value::Null => counts[0] += 1,
            Value::Bool(_) => counts[1] += 1,
            Value::Int(n) => {
                assert!((0..=255).contains(&n));
                counts[2] += 1;
            },
            Value::F64Bits(_) => counts[3] += 1,
            Value::Str(s) => {
                assert!(is_short_printable(&s));
                counts[4] += 1;
            },
            other => panic!("empty form produced {:?}", other),
        }
    }
    assert!(counts.iter().all(|&c| c > 0));
}

#[test]
fn values_form_yields_short_keys_and_conforming_members() {
    let schema = Schema::Values(Box::new(Schema::Type(PrimType::Boolean)));
    let mut rng = RandomSource::from_seed(21);
    for _ in 0..500 {
        match generate(&schema, &mut rng) {
            Value::Obj(pairs) => {
                assert!(pairs.len() <= 7);
                for (k, v) in &pairs {
                    assert!(is_short_printable(k));
                    assert!(matches!(v, Value::Bool(_)));
                }
            },
            other => panic!("values form produced {:?}", other),
        }
    }
}

#[test]
fn string_form_yields_short_printable_strings() {
    let schema = Schema::Type(PrimType::Str);
    let mut rng = RandomSource::from_seed(22);
    let mut saw_empty = false;
    let mut saw_nonempty = false;
    for _ in 0..1000 {
        match generate(&schema, &mut rng) {
            Value::Str(s) => {
                assert!(is_short_printable(&s));
                if s.is_empty() {
                    saw_empty = true;
                } else {
                    saw_nonempty = true;
                }
            },
            other => panic!("string form produced {:?}", other),
        }
    }
    assert!(saw_empty && saw_nonempty);
}

#[test]
fn timestamp_form_parses_back_as_rfc3339_utc() {
    let schema = Schema::Type(PrimType::Timestamp);
    let mut rng = RandomSource::from_seed(23);
    for _ in 0..500 {
        match generate(&schema, &mut rng) {
            Value::Str(s) => {
                let parsed = chrono::DateTime::parse_from_rfc3339(&s)
                    .unwrap_or_else(|e| panic!("{:?} did not parse: {}", s, e));
                assert_eq!(parsed.offset().local_minus_utc(), 0);
                let secs = parsed.timestamp();
                assert!(secs >= i32::MIN as i64 && secs <= i32::MAX as i64);
            },
            other => panic!("timestamp form produced {:?}", other),
        }
    }
}
