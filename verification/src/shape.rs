//! State types of the shape graph: field and parameter descriptors, provider
//! descriptors, and the closed set of core shape kinds.

use vstd::prelude::*;

verus! {

/// Identifier of a shape in the shape graph (opaque string).
pub type ShapeId = String;
/// Identifier of a field on an object shape (opaque string).
pub type FieldId = String;
/// Identifier of a type parameter of a shape (opaque string).
pub type ShapeParameterId = String;

/// Binds a field either to a concrete shape or to one of the enclosing
/// shape's parameters.
#[derive(Clone, Debug)]
pub enum FieldShapeDescriptor {
    FieldShapeFromShape(FieldShapeFromShape),
    FieldShapeFromParameter(FieldShapeFromParameter),
}

#[derive(Clone, Debug)]
pub struct FieldShapeFromShape {
    pub field_id: FieldId,
    pub shape_id: ShapeId,
}

#[derive(Clone, Debug)]
pub struct FieldShapeFromParameter {
    pub field_id: FieldId,
    pub shape_parameter_id: ShapeParameterId,
}

/// The parameter list a shape was declared with.
#[derive(Clone, Debug)]
pub enum ShapeParametersDescriptor {
    NoParameterList,
    StaticParameterList(StaticShapeParametersDescriptor),
    DynamicParameterList(DynamicShapeParametersDescriptor),
}

#[derive(Clone, Debug)]
pub struct StaticShapeParametersDescriptor {
    pub shape_parameter_ids: Vec<ShapeParameterId>,
}

#[derive(Clone, Debug)]
pub struct DynamicShapeParametersDescriptor {
    pub shape_parameter_ids: Vec<ShapeParameterId>,
}

/// Supplies the binding of a shape parameter.
#[derive(Clone, Debug)]
pub enum ParameterShapeDescriptor {
    ProviderInField(ProviderInField),
    ProviderInShape(ProviderInShape),
}

#[derive(Clone, Debug)]
pub struct ProviderInField {}

#[derive(Clone, Debug)]
pub struct ProviderInShape {
    pub shape_id: ShapeId,
    pub provider_descriptor: ProviderDescriptor,
    pub consuming_parameter_id: ShapeParameterId,
}

/// What a bound parameter resolves to: another parameter, a concrete shape,
/// or nothing (rendering the parameter as unknown).
#[derive(Clone, Debug)]
pub enum ProviderDescriptor {
    ParameterProvider(ParameterProvider),
    ShapeProvider(ShapeProvider),
    NoProvider(NoProvider),
}

#[derive(Clone, Debug)]
pub struct ParameterProvider {}

#[derive(Clone, Debug)]
pub struct ShapeProvider {
    pub shape_id: ShapeId,
}

#[derive(Clone, Debug)]
pub struct NoProvider {}

/// The closed set of core shape kinds.
#[derive(Clone, Copy, Debug, PartialEq, Eq, Structural)]
pub enum ShapeKind {
    ObjectKind,
    ListKind,
    MapKind,
    OneOfKind,
    AnyKind,
    StringKind,
    NumberKind,
    BooleanKind,
    IdentifierKind,
    ReferenceKind,
    NullableKind,
    OptionalKind,
    UnknownKind,
}

/// The base shape id every shape of this kind descends from (`$object`,
/// `$list`, ...).
pub open spec fn spec_base_shape_id(kind: ShapeKind) -> Seq<char> {
    match kind {
        ShapeKind::ObjectKind => "$object"@,
        ShapeKind::ListKind => "$list"@,
        ShapeKind::MapKind => "$map"@,
        ShapeKind::OneOfKind => "$oneOf"@,
        ShapeKind::AnyKind => "$any"@,
        ShapeKind::StringKind => "$string"@,
        ShapeKind::NumberKind => "$number"@,
        ShapeKind::BooleanKind => "$boolean"@,
        ShapeKind::IdentifierKind => "$identifier"@,
        ShapeKind::ReferenceKind => "$reference"@,
        ShapeKind::NullableKind => "$nullable"@,
        ShapeKind::OptionalKind => "$optional"@,
        ShapeKind::UnknownKind => "$unknown"@,
    }
}

/// The human name of a kind.
pub open spec fn spec_kind_name(kind: ShapeKind) -> Seq<char> {
    match kind {
        ShapeKind::ObjectKind => "Object"@,
        ShapeKind::ListKind => "List"@,
        ShapeKind::MapKind => "Map"@,
        ShapeKind::OneOfKind => "OneOf"@,
        ShapeKind::AnyKind => "Any"@,
        ShapeKind::StringKind => "String"@,
        ShapeKind::NumberKind => "Number"@,
        ShapeKind::BooleanKind => "Boolean"@,
        ShapeKind::IdentifierKind => "Identifier"@,
        ShapeKind::ReferenceKind => "Reference"@,
        ShapeKind::NullableKind => "Nullable"@,
        ShapeKind::OptionalKind => "Optional"@,
        ShapeKind::UnknownKind => "Unknown"@,
    }
}

impl ShapeKind {
    /// The fixed base shape id and human name of this kind.
    pub fn get_descriptor(&self) -> (r: ShapeKindDescriptor)
        ensures
            r.base_shape_id@ == spec_base_shape_id(*self),
            r.name@ == spec_kind_name(*self),
    {
        match self {
            Self::ObjectKind => ShapeKindDescriptor {
                base_shape_id: "$object",
                name: "Object",
            },
            Self::ListKind => ShapeKindDescriptor {
                base_shape_id: "$list",
                name: "List",
            },
            Self::MapKind => ShapeKindDescriptor {
                base_shape_id: "$map",
                name: "Map",
            },
            Self::OneOfKind => ShapeKindDescriptor {
                base_shape_id: "$oneOf",
                name: "OneOf",
            },
            Self::AnyKind => ShapeKindDescriptor {
                base_shape_id: "$any",
                name: "Any",
            },
            Self::StringKind => ShapeKindDescriptor {
                base_shape_id: "$string",
                name: "String",
            },
            Self::NumberKind => ShapeKindDescriptor {
                base_shape_id: "$number",
                name: "Number",
            },
            Self::BooleanKind => ShapeKindDescriptor {
                base_shape_id: "$boolean",
                name: "Boolean",
            },
            Self::IdentifierKind => ShapeKindDescriptor {
                base_shape_id: "$identifier",
                name: "Identifier",
            },
            Self::ReferenceKind => ShapeKindDescriptor {
                base_shape_id: "$reference",
                name: "Reference",
            },
            Self::NullableKind => ShapeKindDescriptor {
                base_shape_id: "$nullable",
                name: "Nullable",
            },
            Self::OptionalKind => ShapeKindDescriptor {
                base_shape_id: "$optional",
                name: "Optional",
            },
            Self::UnknownKind => ShapeKindDescriptor {
                base_shape_id: "$unknown",
                name: "Unknown",
            },
        }
    }

    /// The statically declared parameter of this kind: only `List` has one,
    /// the item parameter `$listItem`.
    pub fn get_parameter_descriptor(&self) -> (r: Option<ShapeKindParameterDescriptor>)
        ensures
            *self == ShapeKind::ListKind ==> (r matches Some(d)
                && d.shape_parameter_id@ == "$listItem"@),
            *self != ShapeKind::ListKind ==> r is None,
    {
        match self {
            Self::ListKind => Some(ShapeKindParameterDescriptor {
                shape_parameter_id: "$listItem",
            }),
            _ => None,
        }
    }
}

pub struct ShapeKindParameterDescriptor {
    pub shape_parameter_id: &'static str,
}

pub struct ShapeKindDescriptor {
    pub base_shape_id: &'static str,
    pub name: &'static str,
}

} // verus!
