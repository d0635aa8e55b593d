use vstd::prelude::*;

verus! {

/// What API documentation shows of a codec type: its name, that it is written as a
/// string, and a line on the format.
#[derive(Clone, Copy, Debug, PartialEq, Eq)]
pub struct SchemaDescriptor {
    pub name: &'static str,
    pub schema_type: &'static str,
    pub description: &'static str,
}

/// The descriptor of a type written as one string token.
pub fn string_schema(name: &'static str, description: &'static str) -> (r: SchemaDescriptor)
    ensures
        r.name@ == name@,
        r.schema_type@ == "string"@,
        r.description@ == description@,
{
    SchemaDescriptor { name, schema_type: "string", description }
}

} // verus!
