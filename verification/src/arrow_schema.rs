//! The columnar form of a schema: the fields that the encoder is opened with.

use vstd::prelude::*;
use crate::schema::{ColumnSpec, ColumnType, Schema};
use arrow::datatypes::{DataType, Field, Fields, SchemaBuilder, TimeUnit};

verus! {

#[verifier::external_type_specification]
#[verifier::external_body]
pub struct ExSchemaBuilder(arrow::datatypes::SchemaBuilder);

#[verifier::external_type_specification]
#[verifier::external_body]
pub struct ExField(arrow::datatypes::Field);

#[verifier::external_type_specification]
#[verifier::external_body]
pub struct ExFields(arrow::datatypes::Fields);

/// The columnar types that a logical type can map to.
#[derive(Clone, Copy, Debug, PartialEq, Eq, Structural)]
pub enum ArrowType {
    /// UTF-8 text
    Utf8,
    /// 64-bit signed integers
    Int64,
    /// 64-bit floats
    Float64,
    /// 64-bit timestamps in seconds, with no zone annotation
    TimestampSecond,
}

/// One field of a columnar schema.
pub struct FieldSpec {
    pub name: Seq<char>,
    pub data_type: ArrowType,
    pub nullable: bool,
}

/// The fields that were pushed to a builder, in the order of the pushes.
pub uninterp spec fn builder_fields(builder: SchemaBuilder) -> Seq<FieldSpec>;

/// The fields of a finished columnar schema, in order.
pub uninterp spec fn fields_of(fields: Fields) -> Seq<FieldSpec>;

/// `text` in lower case, by the rules of Unicode.
pub uninterp spec fn lowercase_of(text: Seq<char>) -> Seq<char>;

/// `str::to_lowercase` gives the lowercase equivalent of the text; the result
/// depends on the text alone.
pub assume_specification[ str::to_lowercase ](text: &str) -> (res: std::string::String)
    ensures
        res@ == lowercase_of(text@),
;

/// `SchemaBuilder::new` makes a builder that holds no field.
pub assume_specification[ SchemaBuilder::new ]() -> (res: SchemaBuilder)
    ensures
        builder_fields(res) == Seq::<FieldSpec>::empty(),
;

/// `Field::new` makes a field of the given name, type and nullability, and
/// `SchemaBuilder::push` appends it to the builder's fields.
#[verifier::external_body]
pub(crate) fn push_field(builder: &mut SchemaBuilder, name: String, data_type: ArrowType, nullable: bool)
    ensures
        builder_fields(*final(builder)) == builder_fields(*old(builder)).push(
            FieldSpec { name: name@, data_type, nullable },
        ),
{
    builder.push(Field::new(name, match data_type {
        ArrowType::Utf8 => DataType::Utf8,
        ArrowType::Int64 => DataType::Int64,
        ArrowType::Float64 => DataType::Float64,
        ArrowType::TimestampSecond => DataType::Timestamp(TimeUnit::Second, None),
    }, nullable));
}

/// `SchemaBuilder::finish` makes the schema of the builder's fields, in their
/// order and without metadata; its field `fields` holds them.
#[verifier::external_body]
pub(crate) fn finish_fields(builder: SchemaBuilder) -> (res: Fields)
    ensures
        fields_of(res) == builder_fields(builder),
{
    builder.finish().fields
}

/// The columnar type of a logical type. BOOLEAN has none yet.
pub open spec fn arrow_type(column_type: ColumnType) -> Option<ArrowType> {
    match column_type {
        ColumnType::String => Some(ArrowType::Utf8),
        ColumnType::Integer => Some(ArrowType::Int64),
        ColumnType::Float => Some(ArrowType::Float64),
        ColumnType::Timestamp => Some(ArrowType::TimestampSecond),
        ColumnType::Boolean => None,
    }
}

/// The columnar type of a logical type, or `None` where it has none.
pub fn arrow_type_of(column_type: ColumnType) -> (res: Option<ArrowType>)
    ensures
        res == arrow_type(column_type),
{
    match column_type {
        ColumnType::String => Some(ArrowType::Utf8),
        ColumnType::Integer => Some(ArrowType::Int64),
        ColumnType::Float => Some(ArrowType::Float64),
        ColumnType::Timestamp => Some(ArrowType::TimestampSecond),
        ColumnType::Boolean => None,
    }
}

/// The columnar field of a column: its name in lower case, the columnar type of its
/// logical type, and its nullability as declared.
pub open spec fn field_of(column: ColumnSpec) -> FieldSpec {
    FieldSpec {
        name: lowercase_of(column.name),
        data_type: arrow_type(column.column_type)->0,
        nullable: column.nullable,
    }
}

/// Whether every column of `schema` has a columnar type.
pub open spec fn all_supported(schema: Seq<ColumnSpec>) -> bool {
    forall|i: int| 0 <= i < schema.len() ==> arrow_type((#[trigger] schema[i]).column_type) is Some
}

impl Schema {
    /// Whether every column has a columnar type.
    pub open spec fn is_supported(self) -> bool {
        all_supported(self@)
    }

    /// Whether every column has a columnar type.
    pub fn supported(&self) -> (res: bool)
        ensures
            res == self.is_supported(),
    {
        let mut i: usize = 0;
        while i < self.0.len()
            invariant
                i <= self.0.len(),
                forall|k: int| 0 <= k < i ==> arrow_type((#[trigger] self@[k]).column_type) is Some,
            decreases self.0.len() - i,
        {
            assert(self@[i as int] == self.0@[i as int]@);
            if arrow_type_of(self.0[i].column_type).is_none() {
                return false;
            }
            i += 1;
        }
        true
    }

    /// The fields of the columnar schema: one per column, in order.
    pub fn to_arrow_schema(&self) -> (res: Fields)
        requires
            self.is_supported(),
        ensures
            fields_of(res) == self@.map_values(|c: ColumnSpec| field_of(c)),
    {
        let mut builder = SchemaBuilder::new();
        let mut i: usize = 0;
        while i < self.0.len()
            invariant
                i <= self.0.len(),
                self.is_supported(),
                builder_fields(builder) == self@.take(i as int).map_values(|c: ColumnSpec| field_of(c)),
            decreases self.0.len() - i,
        {
            let column = &self.0[i];
            assert(self@[i as int] == column@);
            match arrow_type_of(column.column_type) {
                Some(data_type) => {
                    push_field(&mut builder, column.column_name.as_str().to_lowercase(), data_type, column.nullable);
                },
                None => {},
            }
            assert(self@.take(i + 1).map_values(|c: ColumnSpec| field_of(c)) =~= self@.take(
                i as int,
            ).map_values(|c: ColumnSpec| field_of(c)).push(field_of(self@[i as int])));
            i += 1;
        }
        assert(self@.take(self.0.len() as int) =~= self@);
        finish_fields(builder)
    }
}

} // verus!
