//! Numeric type overrides: four sets of column names, one for each numeric type, and how
//! they change the types of a schema.

use crate::columns::{holds_wildcard, ColumnSet};
use crate::schema::{DataType, Field, FieldModel, Schema};
use vstd::prelude::*;
use vstd::string::StringExecFns;

verus! {

/// Two sets of one numeric family both hold a wildcard, so that the family has no single
/// default type.
#[derive(Clone, Copy, Debug, PartialEq, Eq, Structural)]
pub enum OverrideConflictError {
    /// The sets of the 32-bit and of the 64-bit integers both hold a wildcard.
    Integers,
    /// The sets of the 32-bit and of the 64-bit floats both hold a wildcard.
    Floats,
}

impl OverrideConflictError {
    /// The text that tells a user of the conflict.
    pub fn message(&self) -> (text: String)
        ensures
            text@ == match *self {
                OverrideConflictError::Integers =>
                    "i32 and i64 can't both be the default data types for integers"@,
                OverrideConflictError::Floats =>
                    "f32 and f64 can't both be the default data types for floats"@,
            },
    {
        match self {
            OverrideConflictError::Integers => String::from_str(
                "i32 and i64 can't both be the default data types for integers",
            ),
            OverrideConflictError::Floats => String::from_str(
                "f32 and f64 can't both be the default data types for floats",
            ),
        }
    }
}

/// The four override sets, in specifications. A set that was not given is `None`.
pub struct OverrideSets {
    pub i32_cols: Option<Set<Seq<char>>>,
    pub i64_cols: Option<Set<Seq<char>>>,
    pub f32_cols: Option<Set<Seq<char>>>,
    pub f64_cols: Option<Set<Seq<char>>>,
}

/// True when the set was given and holds a wildcard: its type becomes the default of its
/// family, and the names beside the wildcard count for nothing.
pub open spec fn wildcarded(set: Option<Set<Seq<char>>>) -> bool {
    set matches Some(names) && holds_wildcard(names)
}

/// True when the set was given, holds no wildcard and holds `name`.
pub open spec fn names_column(set: Option<Set<Seq<char>>>, name: Seq<char>) -> bool {
    set matches Some(names) && !holds_wildcard(names) && names.contains(name)
}

impl OverrideSets {
    /// True when none of the four sets was given.
    pub open spec fn none_given(self) -> bool {
        self.i32_cols is None && self.i64_cols is None && self.f32_cols is None
            && self.f64_cols is None
    }

    /// The conflict in these sets, if there is one. The integers are looked at first.
    pub open spec fn conflict(self) -> Option<OverrideConflictError> {
        if wildcarded(self.i32_cols) && wildcarded(self.i64_cols) {
            Some(OverrideConflictError::Integers)
        } else if wildcarded(self.f32_cols) && wildcarded(self.f64_cols) {
            Some(OverrideConflictError::Floats)
        } else {
            None
        }
    }

    /// The type that a column of 64-bit integers gets when no set names it. It starts as
    /// the 64-bit type; then the 32-bit set speaks, then the 64-bit set, and the last
    /// wildcard stands.
    pub open spec fn default_int(self) -> DataType {
        let first = if wildcarded(self.i32_cols) {
            DataType::Int32
        } else {
            DataType::Int64
        };
        if wildcarded(self.i64_cols) {
            DataType::Int64
        } else {
            first
        }
    }

    /// The type that a column of 64-bit floats gets when no set names it. It starts as the
    /// 64-bit type; then the 32-bit set speaks, then the 64-bit set, and the last wildcard
    /// stands.
    pub open spec fn default_float(self) -> DataType {
        let first = if wildcarded(self.f32_cols) {
            DataType::Float32
        } else {
            DataType::Float64
        };
        if wildcarded(self.f64_cols) {
            DataType::Float64
        } else {
            first
        }
    }

    /// The type that the sets give to the column `name` by naming it. The sets speak in the
    /// order 32-bit integer, 64-bit integer, 32-bit float, 64-bit float, and the last one
    /// that names the column stands.
    pub open spec fn explicit(self, name: Seq<char>) -> Option<DataType> {
        if names_column(self.f64_cols, name) {
            Some(DataType::Float64)
        } else if names_column(self.f32_cols, name) {
            Some(DataType::Float32)
        } else if names_column(self.i64_cols, name) {
            Some(DataType::Int64)
        } else if names_column(self.i32_cols, name) {
            Some(DataType::Int32)
        } else {
            None
        }
    }

    /// The type of `field` under these sets: the type of the set that names it; else the
    /// default of its family if it is a 64-bit integer or a 64-bit float; else its own.
    pub open spec fn resolved_type(self, field: FieldModel) -> DataType {
        match self.explicit(field.name) {
            Some(data_type) => data_type,
            None => match field.data_type {
                DataType::Int64 => self.default_int(),
                DataType::Float64 => self.default_float(),
                other => other,
            },
        }
    }

    /// The field `field` under these sets: only its type can change.
    pub open spec fn resolved_field(self, field: FieldModel) -> FieldModel {
        FieldModel {
            name: field.name,
            data_type: self.resolved_type(field),
            nullable: field.nullable,
        }
    }

    /// The schema under these sets: the same fields in the same order, each with its
    /// resolved type.
    pub open spec fn resolve(self, schema: Seq<FieldModel>) -> Seq<FieldModel> {
        schema.map_values(|field: FieldModel| self.resolved_field(field))
    }
}

/// What an optional set of columns holds, in specifications.
pub open spec fn set_model(set: Option<ColumnSet>) -> Option<Set<Seq<char>>> {
    match set {
        Some(names) => Some(names@),
        None => None,
    }
}

/// One explicit override: the column `name` gets the type `data_type`.
#[derive(Debug)]
pub struct TypeOverride {
    pub name: String,
    pub data_type: DataType,
}

/// The type that a list of overrides gives to `name`: that of the last entry for it.
pub open spec fn last_entry(entries: Seq<TypeOverride>, name: Seq<char>) -> Option<DataType>
    decreases entries.len(),
{
    if entries.len() == 0 {
        None
    } else if entries.last().name@ == name {
        Some(entries.last().data_type)
    } else {
        last_entry(entries.drop_last(), name)
    }
}

/// A sequence with one more element holds what it held before, and that element.
proof fn lemma_contains_after_push(names: Seq<Seq<char>>, last: Seq<char>, name: Seq<char>)
    ensures
        names.push(last).contains(name) <==> names.contains(name) || name == last,
{
    if names.contains(name) {
        let k = choose|k: int| 0 <= k < names.len() && names[k] == name;
        assert(names.push(last)[k] == name);
    }
    if name == last {
        assert(names.push(last)[names.len() as int] == name);
    }
}

/// Overrides after resolution: a mapping from column names to types, and the default type
/// of each numeric family.
#[derive(Debug)]
pub struct ResolvedOverrides {
    pub entries: Vec<TypeOverride>,
    pub default_int: DataType,
    pub default_float: DataType,
}

impl ResolvedOverrides {
    /// The type that the mapping holds for `name`, if it holds one.
    pub open spec fn explicit(&self, name: Seq<char>) -> Option<DataType> {
        last_entry(self.entries@, name)
    }

    /// True when these are the overrides that `sets` resolve to.
    pub open spec fn resolves(&self, sets: OverrideSets) -> bool {
        &&& self.default_int == sets.default_int()
        &&& self.default_float == sets.default_float()
        &&& forall|name: Seq<char>| #[trigger] self.explicit(name) == sets.explicit(name)
    }

    /// No explicit override, and the 64-bit type as the default of both families.
    pub fn new() -> (fresh: ResolvedOverrides)
        ensures
            fresh.entries@.len() == 0,
            fresh.default_int == DataType::Int64,
            fresh.default_float == DataType::Float64,
            forall|name: Seq<char>| #[trigger] fresh.explicit(name) is None,
    {
        ResolvedOverrides {
            entries: Vec::new(),
            default_int: DataType::Int64,
            default_float: DataType::Float64,
        }
    }

    /// Lets one set speak for the type `data_type`. A set that was not given says nothing.
    /// A set with a wildcard makes `data_type` the default of its family and names no
    /// column. Any other set gives `data_type` to each column that it names, whatever an
    /// earlier set gave it.
    pub fn record(&mut self, set: &Option<ColumnSet>, data_type: DataType)
        ensures
            final(self).default_int == if wildcarded(set_model(*set)) && (data_type
                == DataType::Int32 || data_type == DataType::Int64) {
                data_type
            } else {
                old(self).default_int
            },
            final(self).default_float == if wildcarded(set_model(*set)) && (data_type
                == DataType::Float32 || data_type == DataType::Float64) {
                data_type
            } else {
                old(self).default_float
            },
            forall|name: Seq<char>| #[trigger]
                final(self).explicit(name) == if names_column(set_model(*set), name) {
                    Some(data_type)
                } else {
                    old(self).explicit(name)
                },
    {
        match set {
            None => {},
            Some(names) => {
                if names.has_wildcard() {
                    match data_type {
                        DataType::Int32 | DataType::Int64 => {
                            self.default_int = data_type;
                        },
                        DataType::Float32 | DataType::Float64 => {
                            self.default_float = data_type;
                        },
                        DataType::Other => {},
                    }
                } else {
                    let count = names.len();
                    let mut i: usize = 0;
                    while i < count
                        invariant
                            i <= count,
                            count == names.names().len(),
                            self.default_int == old(self).default_int,
                            self.default_float == old(self).default_float,
                            forall|name: Seq<char>| #[trigger]
                                self.explicit(name) == if names.names().take(i as int).contains(
                                    name,
                                ) {
                                    Some(data_type)
                                } else {
                                    old(self).explicit(name)
                                },
                        decreases count - i,
                    {
                        let ghost head = *self;
                        let ghost before = self.entries@;
                        let ghost seen = names.names().take(i as int);
                        match names.get(i) {
                            Some(name) => {
                                self.entries.push(
                                    TypeOverride { name: name.clone(), data_type },
                                );
                                proof {
                                    assert(self.entries@.drop_last() =~= before);
                                    assert(names.names().take(i + 1) =~= seen.push(name@));
                                    assert forall|other: Seq<char>| #[trigger]
                                        self.explicit(other) == if seen.push(name@).contains(
                                            other,
                                        ) {
                                            Some(data_type)
                                        } else {
                                            old(self).explicit(other)
                                        } by {
                                        assert(self.explicit(other) == if name@ == other {
                                            Some(data_type)
                                        } else {
                                            head.explicit(other)
                                        });
                                        lemma_contains_after_push(seen, name@, other);
                                    }
                                }
                            },
                            None => {},
                        }
                        i = i + 1;
                    }
                    proof {
                        assert(names.names().take(count as int) =~= names.names());
                    }
                }
            },
        }
    }

    /// The type that `name` has in the mapping, if it has one.
    pub fn lookup(&self, name: &str) -> (found: Option<DataType>)
        ensures
            found == self.explicit(name@),
    {
        let mut i: usize = self.entries.len();
        proof {
            assert(self.entries@.take(i as int) =~= self.entries@);
        }
        while i > 0
            invariant
                i <= self.entries@.len(),
                last_entry(self.entries@, name@) == last_entry(self.entries@.take(i as int), name@),
            decreases i,
        {
            proof {
                assert(self.entries@.take(i as int).drop_last() =~= self.entries@.take(i - 1));
            }
            i = i - 1;
            if crate::text::same_text(self.entries[i].name.as_str(), name) {
                return Some(self.entries[i].data_type);
            }
        }
        None
    }

    /// The type that `field` gets: that of the mapping if it names the field; else the
    /// default of its family if the field is a 64-bit integer or a 64-bit float; else the
    /// type that it has.
    pub fn data_type_for(&self, field: &Field) -> (data_type: DataType)
        ensures
            data_type == match self.explicit(field@.name) {
                Some(named) => named,
                None => match field@.data_type {
                    DataType::Int64 => self.default_int,
                    DataType::Float64 => self.default_float,
                    other => other,
                },
            },
    {
        match self.lookup(field.name.as_str()) {
            Some(named) => named,
            None => match field.data_type {
                DataType::Int64 => self.default_int,
                DataType::Float64 => self.default_float,
                other => other,
            },
        }
    }
}

/// The four sets as one value of specifications.
pub open spec fn override_sets(
    i32_cols: Option<ColumnSet>,
    i64_cols: Option<ColumnSet>,
    f32_cols: Option<ColumnSet>,
    f64_cols: Option<ColumnSet>,
) -> OverrideSets {
    OverrideSets {
        i32_cols: set_model(i32_cols),
        i64_cols: set_model(i64_cols),
        f32_cols: set_model(f32_cols),
        f64_cols: set_model(f64_cols),
    }
}

/// Tells whether an optional set was given and holds a wildcard.
pub fn is_wildcarded(set: &Option<ColumnSet>) -> (found: bool)
    ensures
        found == wildcarded(set_model(*set)),
{
    match set {
        Some(names) => names.has_wildcard(),
        None => false,
    }
}

/// Resolves the four override sets into a mapping from column names to types and a default
/// type for each numeric family.
///
/// Fails when both sets of one family hold a wildcard, the integers first. Otherwise the
/// sets speak in the order 32-bit integer, 64-bit integer, 32-bit float, 64-bit float.
pub fn resolve_overrides(
    i32_cols: &Option<ColumnSet>,
    i64_cols: &Option<ColumnSet>,
    f32_cols: &Option<ColumnSet>,
    f64_cols: &Option<ColumnSet>,
) -> (resolved: Result<ResolvedOverrides, OverrideConflictError>)
    ensures
        ({
            let sets = override_sets(*i32_cols, *i64_cols, *f32_cols, *f64_cols);
            match resolved {
                Ok(overrides) => sets.conflict() is None && overrides.resolves(sets),
                Err(conflict) => sets.conflict() == Some(conflict),
            }
        }),
{
    if is_wildcarded(i32_cols) && is_wildcarded(i64_cols) {
        return Err(OverrideConflictError::Integers);
    }
    if is_wildcarded(f32_cols) && is_wildcarded(f64_cols) {
        return Err(OverrideConflictError::Floats);
    }
    let mut overrides = ResolvedOverrides::new();
    overrides.record(i32_cols, DataType::Int32);
    overrides.record(i64_cols, DataType::Int64);
    overrides.record(f32_cols, DataType::Float32);
    overrides.record(f64_cols, DataType::Float64);
    Ok(overrides)
}

/// Applies the types that a user asked for to a schema.
///
/// With none of the four sets given, the schema is left as it is. With both sets of one
/// family holding a wildcard, the call fails and the schema is left as it is. Otherwise
/// each field gets its resolved type, and keeps its place, its name and its nullability.
/// A set may name columns that the schema does not have: they are passed over.
pub fn apply_schema_overrides(
    schema: &mut Schema,
    i32_cols: Option<ColumnSet>,
    i64_cols: Option<ColumnSet>,
    f32_cols: Option<ColumnSet>,
    f64_cols: Option<ColumnSet>,
) -> (applied: Result<(), OverrideConflictError>)
    ensures
        ({
            let sets = override_sets(i32_cols, i64_cols, f32_cols, f64_cols);
            match applied {
                Ok(_) => {
                    &&& sets.conflict() is None
                    &&& final(schema)@ == sets.resolve(old(schema)@)
                    &&& sets.none_given() ==> *final(schema) == *old(schema)
                },
                Err(conflict) => {
                    &&& sets.conflict() == Some(conflict)
                    &&& *final(schema) == *old(schema)
                },
            }
        }),
{
    let ghost sets = override_sets(i32_cols, i64_cols, f32_cols, f64_cols);
    if i32_cols.is_none() && i64_cols.is_none() && f32_cols.is_none() && f64_cols.is_none() {
        proof {
            lemma_no_sets_change_nothing(sets, schema@);
        }
        return Ok(());
    }
    let overrides = match resolve_overrides(&i32_cols, &i64_cols, &f32_cols, &f64_cols) {
        Ok(overrides) => overrides,
        Err(conflict) => {
            return Err(conflict);
        },
    };
    let count = schema.fields.len();
    let mut fields: Vec<Field> = Vec::with_capacity(count);
    let mut i: usize = 0;
    while i < count
        invariant
            i <= count,
            count == schema.fields@.len(),
            *schema == *old(schema),
            overrides.resolves(sets),
            fields@.len() == i,
            forall|k: int|
                0 <= k < i ==> (#[trigger] fields@[k])@ == sets.resolved_field(schema.fields@[k]@),
        decreases count - i,
    {
        let field = &schema.fields[i];
        let data_type = overrides.data_type_for(field);
        fields.push(Field { name: field.name.clone(), data_type, nullable: field.nullable });
        i = i + 1;
    }
    schema.fields = fields;
    Ok(())
}

/// Without any set, every field resolves to itself.
pub proof fn lemma_no_sets_change_nothing(sets: OverrideSets, schema: Seq<FieldModel>)
    requires
        sets.none_given(),
    ensures
        sets.conflict() is None,
        sets.resolve(schema) == schema,
{
}

/// Sets that hold no wildcard, and that name no column of the schema, raise no conflict
/// and change no field.
pub proof fn lemma_absent_columns_change_nothing(sets: OverrideSets, schema: Seq<FieldModel>)
    requires
        !wildcarded(sets.i32_cols),
        !wildcarded(sets.i64_cols),
        !wildcarded(sets.f32_cols),
        !wildcarded(sets.f64_cols),
        forall|k: int| 0 <= k < schema.len() ==> sets.explicit(#[trigger] schema[k].name) is None,
    ensures
        sets.conflict() is None,
        sets.resolve(schema) == schema,
{
}

/// Resolution keeps the number of fields, their order, their names and their nullability.
pub proof fn lemma_resolve_keeps_names(sets: OverrideSets, schema: Seq<FieldModel>)
    ensures
        sets.resolve(schema).len() == schema.len(),
        forall|k: int|
            0 <= k < schema.len() ==> (#[trigger] sets.resolve(schema)[k]).name == schema[k].name
                && sets.resolve(schema)[k].nullable == schema[k].nullable,
{
}

} // verus!
