use arrow_tools::columns::ColumnSet;
use arrow_tools::overrides::{
    is_wildcarded, resolve_overrides, OverrideConflictError, ResolvedOverrides,
};
use arrow_tools::schema::{DataType, Field, Schema};
use arrow_tools::{apply_schema_overrides, clap_comma_separated};

fn field(name: &str, data_type: DataType, nullable: bool) -> Field {
    Field { name: name.to_string(), data_type, nullable }
}

fn cols(arg: &str) -> Option<ColumnSet> {
    Some(clap_comma_separated(arg).unwrap())
}

fn sample() -> Schema {
    Schema {
        fields: vec![
            field("a", DataType::Int64, true),
            field("b", DataType::Float64, false),
            field("c", DataType::Other, true),
            field("d", DataType::Int32, false),
            field("e", DataType::Float32, true),
        ],
    }
}

#[test]
fn no_sets_leave_the_schema_as_it_is() {
    let mut schema = sample();
    assert_eq!(apply_schema_overrides(&mut schema, None, None, None, None), Ok(()));
    assert_eq!(schema, sample());
}

#[test]
fn two_integer_wildcards_conflict_and_change_nothing() {
    let mut schema = sample();
    let applied = apply_schema_overrides(&mut schema, cols("*"), cols("*"), None, None);
    assert_eq!(applied, Err(OverrideConflictError::Integers));
    assert_eq!(schema, sample());
}

#[test]
fn two_float_wildcards_conflict_and_change_nothing() {
    let mut schema = sample();
    let applied = apply_schema_overrides(&mut schema, cols("a"), None, cols("*"), cols("*"));
    assert_eq!(applied, Err(OverrideConflictError::Floats));
    assert_eq!(schema, sample());
}

#[test]
fn the_integer_conflict_is_reported_first() {
    let mut schema = sample();
    let applied = apply_schema_overrides(&mut schema, cols("*"), cols("*"), cols("*"), cols("*"));
    assert_eq!(applied, Err(OverrideConflictError::Integers));
    assert_eq!(schema, sample());
}

#[test]
fn the_two_wildcard_tokens_conflict_with_each_other() {
    let mut schema = sample();
    let applied = apply_schema_overrides(&mut schema, cols("*"), cols("__all__"), None, None);
    assert_eq!(applied, Err(OverrideConflictError::Integers));
    let applied =
        apply_schema_overrides(&mut schema, None, None, cols("__all__"), cols("x,__all__"));
    assert_eq!(applied, Err(OverrideConflictError::Floats));
    assert_eq!(schema, sample());
}

#[test]
fn conflict_messages() {
    assert_eq!(
        OverrideConflictError::Integers.message(),
        "i32 and i64 can't both be the default data types for integers"
    );
    assert_eq!(
        OverrideConflictError::Floats.message(),
        "f32 and f64 can't both be the default data types for floats"
    );
}

#[test]
fn named_column_and_float_wildcard() {
    let mut schema = Schema {
        fields: vec![field("a", DataType::Int64, true), field("b", DataType::Float64, true)],
    };
    let applied = apply_schema_overrides(&mut schema, cols("a"), None, cols("*"), None);
    assert_eq!(applied, Ok(()));
    assert_eq!(
        schema.fields,
        vec![field("a", DataType::Int32, true), field("b", DataType::Float32, true)]
    );
}

#[test]
fn absent_column_is_passed_over() {
    let mut schema = sample();
    let applied =
        apply_schema_overrides(&mut schema, cols("zzz"), cols("yyy"), cols("xxx"), cols("www"));
    assert_eq!(applied, Ok(()));
    assert_eq!(schema, sample());
}

#[test]
fn empty_set_changes_nothing() {
    let mut schema = sample();
    let applied = apply_schema_overrides(&mut schema, cols(""), None, None, None);
    assert_eq!(applied, Ok(()));
    assert_eq!(schema, sample());
}

#[test]
fn integer_wildcard_changes_only_the_64_bit_integers() {
    let mut schema = sample();
    let applied = apply_schema_overrides(&mut schema, cols("__all__"), None, None, None);
    assert_eq!(applied, Ok(()));
    assert_eq!(
        schema.fields,
        vec![
            field("a", DataType::Int32, true),
            field("b", DataType::Float64, false),
            field("c", DataType::Other, true),
            field("d", DataType::Int32, false),
            field("e", DataType::Float32, true),
        ]
    );
}

#[test]
fn wide_wildcards_keep_the_defaults() {
    let mut schema = sample();
    let applied = apply_schema_overrides(&mut schema, None, cols("*"), None, cols("*"));
    assert_eq!(applied, Ok(()));
    assert_eq!(schema, sample());
}

#[test]
fn names_beside_a_wildcard_count_for_nothing() {
    let mut schema = sample();
    let applied = apply_schema_overrides(&mut schema, None, None, cols("a,*,c"), None);
    assert_eq!(applied, Ok(()));
    assert_eq!(
        schema.fields,
        vec![
            field("a", DataType::Int64, true),
            field("b", DataType::Float32, false),
            field("c", DataType::Other, true),
            field("d", DataType::Int32, false),
            field("e", DataType::Float32, true),
        ]
    );
}

#[test]
fn a_named_column_gets_the_type_whatever_it_had() {
    let mut schema = sample();
    let applied = apply_schema_overrides(&mut schema, cols("c"), cols("d"), cols("a"), cols("e"));
    assert_eq!(applied, Ok(()));
    assert_eq!(
        schema.fields,
        vec![
            field("a", DataType::Float32, true),
            field("b", DataType::Float64, false),
            field("c", DataType::Int32, true),
            field("d", DataType::Int64, false),
            field("e", DataType::Float64, true),
        ]
    );
}

#[test]
fn the_last_set_that_names_a_column_stands() {
    let mut schema = sample();
    let applied =
        apply_schema_overrides(&mut schema, cols("a,b"), cols("a"), cols("b,c"), cols("c"));
    assert_eq!(applied, Ok(()));
    assert_eq!(
        schema.fields,
        vec![
            field("a", DataType::Int64, true),
            field("b", DataType::Float32, false),
            field("c", DataType::Float64, true),
            field("d", DataType::Int32, false),
            field("e", DataType::Float32, true),
        ]
    );
}

#[test]
fn a_name_wins_over_a_wildcard() {
    let mut schema = Schema {
        fields: vec![
            field("a", DataType::Int64, true),
            field("b", DataType::Int64, true),
            field("c", DataType::Float64, true),
            field("x", DataType::Int64, false),
        ],
    };
    let applied = apply_schema_overrides(&mut schema, cols("*"), cols("b"), cols("a"), None);
    assert_eq!(applied, Ok(()));
    assert_eq!(
        schema.fields,
        vec![
            field("a", DataType::Float32, true),
            field("b", DataType::Int64, true),
            field("c", DataType::Float64, true),
            field("x", DataType::Int32, false),
        ]
    );
}

#[test]
fn every_field_of_a_name_is_changed() {
    let mut schema = Schema {
        fields: vec![field("a", DataType::Int64, true), field("a", DataType::Other, false)],
    };
    let applied = apply_schema_overrides(&mut schema, cols("a"), None, None, None);
    assert_eq!(applied, Ok(()));
    assert_eq!(
        schema.fields,
        vec![field("a", DataType::Int32, true), field("a", DataType::Int32, false)]
    );
}

#[test]
fn empty_schema_stays_empty() {
    let mut schema = Schema { fields: vec![] };
    assert_eq!(apply_schema_overrides(&mut schema, cols("*"), None, cols("x"), None), Ok(()));
    assert!(schema.fields.is_empty());
}

#[test]
fn resolution_gives_defaults_and_mapping() {
    let resolved = resolve_overrides(&cols("a,b"), &cols("b"), &cols("*"), &None).unwrap();
    assert_eq!(resolved.default_int, DataType::Int64);
    assert_eq!(resolved.default_float, DataType::Float32);
    assert_eq!(resolved.lookup("a"), Some(DataType::Int32));
    assert_eq!(resolved.lookup("b"), Some(DataType::Int64));
    assert_eq!(resolved.lookup("c"), None);
    assert_eq!(resolved.lookup("*"), None);
    assert_eq!(resolved.data_type_for(&field("a", DataType::Other, true)), DataType::Int32);
    assert_eq!(resolved.data_type_for(&field("z", DataType::Float64, true)), DataType::Float32);
    assert_eq!(resolved.data_type_for(&field("z", DataType::Int64, true)), DataType::Int64);
    assert_eq!(resolved.data_type_for(&field("z", DataType::Other, true)), DataType::Other);
    assert_eq!(resolved.data_type_for(&field("z", DataType::Float32, true)), DataType::Float32);
}

#[test]
fn resolution_reports_conflicts() {
    assert_eq!(
        resolve_overrides(&cols("*"), &cols("*"), &None, &None).err(),
        Some(OverrideConflictError::Integers)
    );
    assert_eq!(
        resolve_overrides(&None, &None, &cols("__all__"), &cols("*")).err(),
        Some(OverrideConflictError::Floats)
    );
    assert!(resolve_overrides(&cols("*"), &None, &None, &cols("*")).is_ok());
}

#[test]
fn fresh_overrides_hold_the_wide_defaults() {
    let fresh = ResolvedOverrides::new();
    assert_eq!(fresh.default_int, DataType::Int64);
    assert_eq!(fresh.default_float, DataType::Float64);
    assert_eq!(fresh.lookup("a"), None);
    assert!(fresh.entries.is_empty());
}

#[test]
fn record_lets_one_set_speak() {
    let mut overrides = ResolvedOverrides::new();
    overrides.record(&cols("a"), DataType::Float32);
    assert_eq!(overrides.lookup("a"), Some(DataType::Float32));
    overrides.record(&cols("a,b"), DataType::Int32);
    assert_eq!(overrides.lookup("a"), Some(DataType::Int32));
    assert_eq!(overrides.lookup("b"), Some(DataType::Int32));
    overrides.record(&None, DataType::Int64);
    assert_eq!(overrides.lookup("a"), Some(DataType::Int32));
    overrides.record(&cols("*,c"), DataType::Int32);
    assert_eq!(overrides.default_int, DataType::Int32);
    assert_eq!(overrides.default_float, DataType::Float64);
    assert_eq!(overrides.lookup("c"), None);
    overrides.record(&cols("__all__"), DataType::Float32);
    assert_eq!(overrides.default_float, DataType::Float32);
    assert_eq!(overrides.default_int, DataType::Int32);
}

#[test]
fn wildcarded_needs_a_given_set() {
    assert!(!is_wildcarded(&None));
    assert!(!is_wildcarded(&cols("a")));
    assert!(is_wildcarded(&cols("*")));
    assert!(is_wildcarded(&cols("a,__all__")));
}
