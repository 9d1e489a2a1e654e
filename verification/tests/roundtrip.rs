use jddf_fuzz::generator::generate;
use jddf_fuzz::PrimType;
use jddf_fuzz::RandomSource;
use jddf_fuzz::Schema;
use jddf_fuzz::Value;

/// Renders a generated value as JSON, the way a consumer would: float bit
/// patterns become numbers, and object members are inserted in order, a
/// later member overwriting an earlier one with the same key.
fn to_json(v: &Value) -> serde_json::Value {
    match v {
        Value::Null => serde_json::Value::Null,
        Value::Bool(b) => serde_json::Value::Bool(*b),
        Value::Int(n) => serde_json::Value::from(*n),
        Value::F32Bits(bits) => serde_json::Value::from(f32::from_bits(*bits) as f64),
        Value::F64Bits(bits) => serde_json::Value::from(f64::from_bits(*bits)),
        Value::Str(s) => serde_json::Value::String(s.clone()),
        Value::Arr(elems) => serde_json::Value::Array(elems.iter().map(to_json).collect()),
        Value::Obj(pairs) => {
            let mut m = serde_json::Map::new();
            for (k, v) in pairs {
                m.insert(k.clone(), to_json(v));
            }
            serde_json::Value::Object(m)
        },
    }
}

fn compile(text: &str) -> jddf::Schema {
    let serde_schema: jddf::SerdeSchema = serde_json::from_str(text).expect("schema text");
    jddf::Schema::from_serde(serde_schema).expect("schema compiles")
}

fn assert_all_valid(schema: &Schema, text: &str, seed: u64, trials: u32) {
    let compiled = compile(text);
    let validator = jddf::Validator::new();
    let mut rng = RandomSource::from_seed(seed);
    for _ in 0..trials {
        let v = generate(schema, &mut rng);
        let json = to_json(&v);
        let errors = validator.validate(&compiled, &json).expect("validator runs");
        assert!(errors.is_empty(), "{} does not satisfy the schema: {:?}", json, errors);
    }
}

#[test]
fn generated_objects_validate_against_their_schema() {
    let schema = Schema::Properties {
        required: vec![
            ("id".to_string(), Schema::Type(PrimType::Uint8)),
            ("name".to_string(), Schema::Type(PrimType::Str)),
            (
                "tags".to_string(),
                Schema::Elements(Box::new(Schema::Enum(vec![
                    "x".to_string(),
                    "y".to_string(),
                    "z".to_string(),
                ]))),
            ),
            ("when".to_string(), Schema::Type(PrimType::Timestamp)),
        ],
        optional: vec![
            ("flag".to_string(), Schema::Type(PrimType::Boolean)),
            ("extra".to_string(), Schema::Values(Box::new(Schema::Type(PrimType::Int16)))),
        ],
        additional: false,
    };
    let text = r#"{"properties":{
        "id":{"type":"uint8"},
        "name":{"type":"string"},
        "tags":{"elements":{"enum":["x","y","z"]}},
        "when":{"type":"timestamp"}},
        "optionalProperties":{
        "flag":{"type":"boolean"},
        "extra":{"values":{"type":"int16"}}}}"#;
    assert_all_valid(&schema, text, 31, 300);
}

#[test]
fn generated_discriminated_unions_validate_against_their_schema() {
    let schema = Schema::Discriminator {
        tag: "kind".to_string(),
        mapping: vec![
            (
                "A".to_string(),
                Schema::Properties {
                    required: vec![("n".to_string(), Schema::Type(PrimType::Int8))],
                    optional: vec![],
                    additional: false,
                },
            ),
            (
                "B".to_string(),
                Schema::Properties { required: vec![], optional: vec![], additional: false },
            ),
        ],
    };
    let text = r#"{"discriminator":{"tag":"kind","mapping":{
        "A":{"properties":{"n":{"type":"int8"}}},
        "B":{"properties":{}}}}}"#;
    assert_all_valid(&schema, text, 32, 300);
}

#[test]
fn generated_arrays_of_integers_validate_against_their_schema() {
    let schema = Schema::Elements(Box::new(Schema::Type(PrimType::Uint32)));
    let text = "{\"elements\":{\"type\":\"uint32\"}}";
    assert_all_valid(&schema, text, 33, 300);
}
