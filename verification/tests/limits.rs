use ex_monty::{decode_resource_limits, BigInt, LimitsError, ResourceLimits, Seconds, Sign, Term};

fn atom(name: &str) -> Term {
    Term::Atom(name.to_string())
}

fn unlimited() -> ResourceLimits {
    ResourceLimits {
        max_allocations: None,
        max_duration_secs: None,
        max_memory: None,
        gc_interval: None,
        max_recursion_depth: None,
    }
}

#[test]
fn new_limits_limit_nothing() {
    assert_eq!(ResourceLimits::new(), unlimited());
}

#[test]
fn no_configuration_limits_nothing() {
    assert_eq!(decode_resource_limits(&atom("nil")), Ok(unlimited()));
}

#[test]
fn a_configuration_without_fields_is_no_configuration() {
    let empty = decode_resource_limits(&Term::Mapping(vec![]));
    assert_eq!(empty, Ok(unlimited()));
    assert_eq!(empty, decode_resource_limits(&atom("nil")));
    assert_eq!(empty, Ok(ResourceLimits::new()));
}

#[test]
fn unknown_keys_configure_nothing() {
    let mapping = Term::Mapping(vec![
        (atom("max_cpu"), Term::Integer(1)),
        (Term::Binary(b"max_memory".to_vec()), Term::Integer(1)),
    ]);
    assert_eq!(decode_resource_limits(&mapping), Ok(unlimited()));
}

#[test]
fn every_field_is_read() {
    let mapping = Term::Mapping(vec![
        (atom("max_allocations"), Term::Integer(1000)),
        (atom("max_duration_secs"), Term::Float(1.5f64.to_bits())),
        (atom("max_memory"), Term::Integer(1 << 20)),
        (atom("gc_interval"), Term::Integer(50)),
        (atom("max_recursion_depth"), Term::Integer(200)),
    ]);
    assert_eq!(
        decode_resource_limits(&mapping),
        Ok(ResourceLimits {
            max_allocations: Some(1000),
            max_duration_secs: Some(Seconds::Float(1.5f64.to_bits())),
            max_memory: Some(1 << 20),
            gc_interval: Some(50),
            max_recursion_depth: Some(200),
        })
    );
}

#[test]
fn each_field_stands_alone() {
    let one = |key: &str, value: Term| {
        decode_resource_limits(&Term::Mapping(vec![(atom(key), value)])).unwrap()
    };
    assert_eq!(
        one("max_allocations", Term::Integer(1)),
        ResourceLimits { max_allocations: Some(1), ..unlimited() }
    );
    assert_eq!(
        one("max_memory", Term::Integer(2)),
        ResourceLimits { max_memory: Some(2), ..unlimited() }
    );
    assert_eq!(
        one("gc_interval", Term::Integer(3)),
        ResourceLimits { gc_interval: Some(3), ..unlimited() }
    );
    assert_eq!(
        one("max_recursion_depth", Term::Integer(4)),
        ResourceLimits { max_recursion_depth: Some(4), ..unlimited() }
    );
    assert_eq!(
        one("max_duration_secs", Term::Integer(5)),
        ResourceLimits { max_duration_secs: Some(Seconds::Whole(5)), ..unlimited() }
    );
}

#[test]
fn a_field_of_another_kind_is_left_unlimited() {
    let mapping = Term::Mapping(vec![
        (atom("max_allocations"), Term::Integer(-1)),
        (atom("max_duration_secs"), Term::Binary(b"1.5".to_vec())),
        (atom("max_memory"), Term::Float(1.0f64.to_bits())),
        (atom("gc_interval"), atom("nil")),
        (atom("max_recursion_depth"), Term::BigInteger(BigInt::from_bytes_be(Sign::Plus, &[1; 9]))),
    ]);
    assert_eq!(decode_resource_limits(&mapping), Ok(unlimited()));
}

#[test]
fn counts_cover_64_bits() {
    let mapping = Term::Mapping(vec![
        (atom("max_allocations"), Term::Integer(0)),
        (atom("max_memory"), Term::BigInteger(BigInt::from_u64(u64::MAX))),
        (atom("gc_interval"), Term::BigInteger(BigInt::from_u64(7))),
        (atom("max_recursion_depth"), Term::Integer(i64::MAX)),
    ]);
    assert_eq!(
        decode_resource_limits(&mapping),
        Ok(ResourceLimits {
            max_allocations: Some(0),
            max_duration_secs: None,
            max_memory: Some(u64::MAX),
            gc_interval: Some(7),
            max_recursion_depth: Some(i64::MAX as u64),
        })
    );
}

#[test]
fn whole_seconds_must_fit_64_bits() {
    let wide = Term::BigInteger(BigInt::from_u64(u64::MAX));
    let mapping = Term::Mapping(vec![(atom("max_duration_secs"), wide)]);
    assert_eq!(decode_resource_limits(&mapping), Ok(unlimited()));
    let negative = Term::Mapping(vec![(atom("max_duration_secs"), Term::Integer(-3))]);
    assert_eq!(
        decode_resource_limits(&negative),
        Ok(ResourceLimits { max_duration_secs: Some(Seconds::Whole(-3)), ..unlimited() })
    );
}

#[test]
fn anything_but_nil_and_a_mapping_is_rejected() {
    assert_eq!(decode_resource_limits(&atom("none")), Err(LimitsError));
    assert_eq!(decode_resource_limits(&Term::Integer(5)), Err(LimitsError));
    assert_eq!(decode_resource_limits(&Term::List(vec![])), Err(LimitsError));
    assert_eq!(decode_resource_limits(&Term::Tuple(vec![])), Err(LimitsError));
    assert_eq!(decode_resource_limits(&Term::Resource), Err(LimitsError));
}

#[test]
fn builders_set_one_field_each() {
    let limits = ResourceLimits::new()
        .max_allocations(1)
        .max_duration(Seconds::Whole(2))
        .max_memory(3)
        .gc_interval(4)
        .max_recursion_depth(Some(5));
    assert_eq!(
        limits,
        ResourceLimits {
            max_allocations: Some(1),
            max_duration_secs: Some(Seconds::Whole(2)),
            max_memory: Some(3),
            gc_interval: Some(4),
            max_recursion_depth: Some(5),
        }
    );
    assert_eq!(limits.max_recursion_depth(None).max_recursion_depth, None);
}
