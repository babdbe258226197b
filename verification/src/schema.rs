//! Schemas: ordered fields, each with a name, a type and a nullability flag.

use vstd::prelude::*;

verus! {

/// The type of a column, as far as overrides tell types apart: the four numeric types that
/// an override can name, and everything else.
#[derive(Clone, Copy, Debug, PartialEq, Eq, Structural)]
pub enum DataType {
    /// Signed 32-bit integer.
    Int32,
    /// Signed 64-bit integer, the type that inference gives to a column of integers.
    Int64,
    /// 32-bit floating point number.
    Float32,
    /// 64-bit floating point number, the type that inference gives to a column of numbers
    /// with a fraction.
    Float64,
    /// Any other type. Overrides by default leave it alone.
    Other,
}

/// What a field is, in specifications.
pub struct FieldModel {
    pub name: Seq<char>,
    pub data_type: DataType,
    pub nullable: bool,
}

/// One column of a schema.
#[derive(Clone, Debug, PartialEq, Eq)]
pub struct Field {
    pub name: String,
    pub data_type: DataType,
    pub nullable: bool,
}

impl View for Field {
    type V = FieldModel;

    open spec fn view(&self) -> FieldModel {
        FieldModel { name: self.name@, data_type: self.data_type, nullable: self.nullable }
    }
}

/// The models of a sequence of fields.
pub open spec fn field_models(fields: Seq<Field>) -> Seq<FieldModel> {
    fields.map_values(|f: Field| f@)
}

/// An ordered sequence of fields.
#[derive(Clone, Debug, PartialEq, Eq)]
pub struct Schema {
    pub fields: Vec<Field>,
}

impl View for Schema {
    type V = Seq<FieldModel>;

    open spec fn view(&self) -> Seq<FieldModel> {
        field_models(self.fields@)
    }
}

} // verus!
