use shape_codec::ErrorKind;
use shape_codec::Num;
use shape_codec::Registry;
use shape_codec::ShapeKind;
use shape_codec::ShapeValue;
use shape_codec::Envelope;
use shape_codec::decode;
use shape_codec::encode;

const BUDGET: u64 = 16;

fn num(x: f64) -> Num {
    Num { bits: x.to_bits() }
}

fn circle(radius: f64) -> ShapeValue {
    ShapeValue::circle(radius.to_bits()).unwrap()
}

fn square(side: f64) -> ShapeValue {
    ShapeValue::square(side.to_bits()).unwrap()
}

fn rectangle(width: f64, height: f64) -> ShapeValue {
    ShapeValue::rectangle(width.to_bits(), height.to_bits()).unwrap()
}

fn area_f64(s: &ShapeValue, budget: u64) -> f64 {
    f64::from_bits(s.area(budget).unwrap().bits)
}

fn frac_1_sqrt_pi() -> f64 {
    1.0 / std::f64::consts::PI.sqrt()
}

fn assert_close(a: f64, b: f64) {
    assert!((a - b).abs() < 1e-12, "{} is not close to {}", a, b);
}

fn three_shapes() -> ShapeValue {
    ShapeValue::composite(vec![
        circle(frac_1_sqrt_pi()),
        square(1.0),
        rectangle(1.0, 2.0),
    ])
}

#[test]
fn v1_with_enum_contrived_example() {
    assert_close(area_f64(&three_shapes(), BUDGET), 4.0);
}

#[test]
fn v2_enum_inner_contrived_example() {
    assert_close(area_f64(&three_shapes(), BUDGET), 4.0);
}

#[test]
fn v3_enum_delegate_contrived_example() {
    assert_close(area_f64(&three_shapes(), BUDGET), 4.0);
}

#[test]
fn v4_with_trait_contrived_example() {
    assert_close(area_f64(&three_shapes(), BUDGET), 4.0);
}

#[test]
fn v5_trait_assoc_contrived_example() {
    let c = ShapeValue::composite(vec![circle(frac_1_sqrt_pi()), rectangle(1.0, 2.0)]);
    assert_close(area_f64(&c, BUDGET), 3.0);
}

#[test]
fn v6_trait_tuple_contrived_example() {
    let c = ShapeValue::composite(vec![circle(frac_1_sqrt_pi()), rectangle(1.0, 2.0)]);
    assert_close(area_f64(&c, BUDGET), 3.0);
}

#[test]
fn v7_trait_typetag_contrived_example() {
    // The envelope of a composite of a circle and a rectangle, built field
    // by field, then decoded through the registry.
    let mut circle_env = Envelope::empty();
    circle_env.push_text("type".to_string(), "Circle".to_string());
    circle_env.push_number("radius".to_string(), num(frac_1_sqrt_pi()));
    let mut rect_env = Envelope::empty();
    rect_env.push_text("type".to_string(), "Rectangle".to_string());
    rect_env.push_number("width".to_string(), num(1.0));
    rect_env.push_number("height".to_string(), num(2.0));
    let mut env = Envelope::empty();
    env.push_text("type".to_string(), "Composite".to_string());
    env.push_list("items".to_string(), vec![circle_env, rect_env]);

    let reg = Registry::new();
    let c = decode(&reg, &env, BUDGET).expect("Known to parse correctly");
    assert_close(area_f64(&c, BUDGET), 3.0);
}

#[test]
fn round_trip_preserves_structure() {
    let s = ShapeValue::composite(vec![
        circle(0.5641896),
        ShapeValue::composite(vec![square(1.5), rectangle(0.25, 8.0)]),
        ShapeValue::composite(vec![]),
    ]);
    let env = encode(&s, BUDGET).unwrap();
    let reg = Registry::new();
    let back = decode(&reg, &env, BUDGET).unwrap();
    assert_eq!(back, s);
}

#[test]
fn known_values() {
    assert_close(area_f64(&circle(frac_1_sqrt_pi()), BUDGET), 1.0);
    assert_eq!(area_f64(&square(1.0), BUDGET), 1.0);
    assert_eq!(area_f64(&square(2.0), BUDGET), 4.0);
    assert_eq!(area_f64(&rectangle(1.0, 2.0), BUDGET), 2.0);
    assert_close(area_f64(&three_shapes(), BUDGET), 4.0);
    assert_close(area_f64(&circle(1.0), BUDGET), std::f64::consts::PI);
}

#[test]
fn pi_constant_matches_the_double_nearest_pi() {
    assert_eq!(shape_codec::PI_BITS, std::f64::consts::PI.to_bits());
    assert_eq!(shape_codec::ZERO_BITS, 0.0f64.to_bits());
}

#[test]
fn overflowing_area_saturates_to_infinity() {
    let s = square(1.0e300);
    assert_eq!(area_f64(&s, BUDGET), f64::INFINITY);
    let c = ShapeValue::composite(vec![square(1.0e300), square(1.0e300)]);
    assert_eq!(area_f64(&c, BUDGET), f64::INFINITY);
}

#[test]
fn empty_composite_has_zero_area() {
    let c = ShapeValue::composite(vec![]);
    assert_eq!(area_f64(&c, BUDGET), 0.0);
}

#[test]
fn additivity_on_concrete_values() {
    let items = vec![square(3.0), rectangle(2.0, 5.0), square(0.5)];
    let mut sum = 0.0f64;
    for item in &items {
        sum += area_f64(item, BUDGET);
    }
    let c = ShapeValue::composite(items);
    assert_eq!(area_f64(&c, BUDGET), sum);
}

#[test]
fn registry_duplicate_tag_is_rejected() {
    let mut reg = Registry::new();
    let err = reg.register("Circle".to_string(), ShapeKind::Square).unwrap_err();
    assert_eq!(err.kind, ErrorKind::DuplicateTag);
    // The first registration stays authoritative.
    assert_eq!(reg.lookup(&"Circle".to_string()).unwrap(), ShapeKind::Circle);

    assert!(reg.register("Disc".to_string(), ShapeKind::Circle).is_ok());
    let err = reg.register("Disc".to_string(), ShapeKind::Rectangle).unwrap_err();
    assert_eq!(err.kind, ErrorKind::DuplicateTag);
    assert_eq!(reg.lookup(&"Disc".to_string()).unwrap(), ShapeKind::Circle);
}

#[test]
fn registered_tag_decodes_to_its_kind() {
    let mut reg = Registry::new();
    reg.register("Disc".to_string(), ShapeKind::Circle).unwrap();
    let mut env = Envelope::empty();
    env.push_text("type".to_string(), "Disc".to_string());
    env.push_number("radius".to_string(), num(2.0));
    let s = decode(&reg, &env, BUDGET).unwrap();
    assert_eq!(s, circle(2.0));
}

#[test]
fn unknown_tag_is_rejected() {
    let reg = Registry::new();
    let mut env = Envelope::empty();
    env.push_text("type".to_string(), "Bogus".to_string());
    env.push_number("radius".to_string(), num(1.0));
    let err = decode(&reg, &env, BUDGET).unwrap_err();
    assert_eq!(err.kind, ErrorKind::UnknownVariant);
    assert_eq!(reg.lookup(&"Bogus".to_string()).unwrap_err().kind, ErrorKind::UnknownVariant);
}

#[test]
fn missing_discriminator_is_rejected() {
    let reg = Registry::new();
    let mut env = Envelope::empty();
    env.push_number("radius".to_string(), num(1.0));
    let err = decode(&reg, &env, BUDGET).unwrap_err();
    assert_eq!(err.kind, ErrorKind::MissingTag);
}

fn nested(depth: usize) -> ShapeValue {
    let mut s = square(1.0);
    for _ in 0..depth {
        s = ShapeValue::composite(vec![s]);
    }
    s
}

#[test]
fn depth_at_bound_succeeds_and_beyond_fails() {
    let reg = Registry::new();
    let s = nested(5);

    // Area: exactly at the bound it succeeds, one short of it fails.
    assert!(s.area(5).is_ok());
    let err = s.area(4).unwrap_err();
    assert_eq!(err.kind, ErrorKind::DepthExceeded);

    // The codec enforces the same bound.
    let env = encode(&s, 5).unwrap();
    assert_eq!(encode(&s, 4).unwrap_err().kind, ErrorKind::DepthExceeded);
    assert!(decode(&reg, &env, 5).is_ok());
    assert_eq!(decode(&reg, &env, 4).unwrap_err().kind, ErrorKind::DepthExceeded);
}

#[test]
fn invalid_numbers_are_rejected_at_construction() {
    let err = ShapeValue::circle((-1.0f64).to_bits()).unwrap_err();
    assert_eq!(err.kind, ErrorKind::ValidationError);
    assert_eq!(ShapeValue::square(f64::NAN.to_bits()).unwrap_err().kind, ErrorKind::ValidationError);
    assert_eq!(
        ShapeValue::rectangle(1.0f64.to_bits(), f64::INFINITY.to_bits()).unwrap_err().kind,
        ErrorKind::ValidationError
    );
    // A negative zero radius is a valid non-negative value.
    assert!(ShapeValue::circle((-0.0f64).to_bits()).is_ok());
}

#[test]
fn invalid_numbers_are_rejected_at_decode() {
    let reg = Registry::new();
    let mut env = Envelope::empty();
    env.push_text("type".to_string(), "Circle".to_string());
    env.push_number("radius".to_string(), Num { bits: (-1.0f64).to_bits() });
    let err = decode(&reg, &env, BUDGET).unwrap_err();
    assert_eq!(err.kind, ErrorKind::SchemaViolation);
}

#[test]
fn missing_field_is_a_schema_violation() {
    let reg = Registry::new();
    let mut env = Envelope::empty();
    env.push_text("type".to_string(), "Rectangle".to_string());
    env.push_number("width".to_string(), num(1.0));
    let err = decode(&reg, &env, BUDGET).unwrap_err();
    assert_eq!(err.kind, ErrorKind::SchemaViolation);
    assert_eq!(err.path, Vec::<usize>::new());
}

#[test]
fn nested_failure_is_annotated_with_its_path() {
    let reg = Registry::new();

    let mut bad = Envelope::empty();
    bad.push_text("type".to_string(), "Circle".to_string());
    bad.push_number("radius".to_string(), Num { bits: (-1.0f64).to_bits() });

    let good = encode(&square(1.0), BUDGET).unwrap();
    let mut inner_env = Envelope::empty();
    inner_env.push_text("type".to_string(), "Composite".to_string());
    inner_env.push_list("items".to_string(), vec![bad]);

    let mut env = Envelope::empty();
    env.push_text("type".to_string(), "Composite".to_string());
    env.push_list("items".to_string(), vec![good, inner_env]);

    let err = decode(&reg, &env, BUDGET).unwrap_err();
    assert_eq!(err.kind, ErrorKind::SchemaViolation);
    assert_eq!(err.path, vec![1, 0]);
}

#[test]
fn encoding_is_tagged_and_ordered() {
    // The envelope of a circle names its kind first; the numeric field
    // carries the exact bit pattern through encode and back.
    let s = circle(2.5);
    let env = encode(&s, BUDGET).unwrap();
    match env.get(&"type".to_string()) {
        Some(shape_codec::Field::Text(tag)) => assert_eq!(tag, "Circle"),
        other => panic!("unexpected discriminator {:?}", other),
    }
    match env.get(&"radius".to_string()) {
        Some(shape_codec::Field::Number(n)) => assert_eq!(n.bits, 2.5f64.to_bits()),
        other => panic!("unexpected field {:?}", other),
    }
}
