//! Caller-facing shape choices: the tagged records `trail_choices` maps each
//! raw trail choice into, and the queries that produce them.

use vstd::prelude::*;
use crate::projection::{FieldEntryModel, ShapeProjection, ShapeProjectionModel};
use crate::queries::{
    choices_model, spec_fields_of, spec_list_trail_choices, spec_resolve_field_shape,
    spec_resolve_parameter, ChoiceModel, ShapeQueries, ShapeTrail,
};
use crate::shape::{FieldId, ShapeId, ShapeKind};

verus! {

/// The JSON type a choice renders as.
#[derive(Clone, Copy, Debug, PartialEq, Eq, Structural)]
pub enum JsonType {
    String,
    Number,
    Boolean,
    Array,
    Object,
    Null,
    Undefined,
}

/// A primitive choice: a shape rendered as one JSON type.
#[derive(Clone, Debug)]
pub struct PrimitiveChoice {
    pub shape_id: ShapeId,
    pub json_type: JsonType,
}

/// One field of an object choice: its name, id, and resolved shape.
#[derive(Clone, Debug)]
pub struct ObjectFieldChoice {
    pub name: String,
    pub field_id: FieldId,
    pub shape_id: ShapeId,
}

/// An object choice with its fields in declaration order.
#[derive(Clone, Debug)]
pub struct ObjectChoice {
    pub shape_id: ShapeId,
    pub json_type: JsonType,
    pub fields: Vec<ObjectFieldChoice>,
}

/// An array choice with its resolved item shape.
#[derive(Clone, Debug)]
pub struct ArrayChoice {
    pub json_type: JsonType,
    pub shape_id: ShapeId,
    pub item_shape_id: ShapeId,
}

/// One caller-facing choice.
#[derive(Clone, Debug)]
pub enum ShapeChoice {
    Primitive(PrimitiveChoice),
    Object(ObjectChoice),
    Array(ArrayChoice),
    Any,
    Unknown,
}

/// Why a trail query failed: a shape kind the traversal does not implement
/// yet, or a choice that the expansion should have made impossible.
#[derive(Clone, Copy, Debug, PartialEq, Eq, Structural)]
pub enum ChoiceError {
    NotImplemented(ShapeKind),
    Unreachable,
}

/// The character-level image of an `ObjectFieldChoice`.
pub struct ObjectFieldChoiceModel {
    pub name: Seq<char>,
    pub field_id: Seq<char>,
    pub shape_id: Seq<char>,
}

impl ObjectFieldChoice {
    /// This field choice at the character level.
    pub open spec fn model(self) -> ObjectFieldChoiceModel {
        ObjectFieldChoiceModel {
            name: self.name@,
            field_id: self.field_id@,
            shape_id: self.shape_id@,
        }
    }
}

/// The character-level image of a `ShapeChoice`.
pub enum ShapeChoiceModel {
    Primitive { shape_id: Seq<char>, json_type: JsonType },
    Object { shape_id: Seq<char>, json_type: JsonType, fields: Seq<ObjectFieldChoiceModel> },
    Array { shape_id: Seq<char>, json_type: JsonType, item_shape_id: Seq<char> },
    Any,
    Unknown,
}

impl ShapeChoice {
    /// This choice at the character level.
    pub open spec fn model(self) -> ShapeChoiceModel {
        match self {
            ShapeChoice::Primitive(p) => ShapeChoiceModel::Primitive {
                shape_id: p.shape_id@,
                json_type: p.json_type,
            },
            ShapeChoice::Object(o) => ShapeChoiceModel::Object {
                shape_id: o.shape_id@,
                json_type: o.json_type,
                fields: o.fields@.map_values(|f: ObjectFieldChoice| f.model()),
            },
            ShapeChoice::Array(a) => ShapeChoiceModel::Array {
                shape_id: a.shape_id@,
                json_type: a.json_type,
                item_shape_id: a.item_shape_id@,
            },
            ShapeChoice::Any => ShapeChoiceModel::Any,
            ShapeChoice::Unknown => ShapeChoiceModel::Unknown,
        }
    }
}

/// A whole choice list at the character level.
pub open spec fn shape_choices_model(s: Seq<ShapeChoice>) -> Seq<ShapeChoiceModel> {
    s.map_values(|c: ShapeChoice| c.model())
}

/// The field choices of an object shape: its declared fields, in declaration
/// order, each with its shape resolved (or `$unknown` when nothing resolves).
pub open spec fn spec_object_field_choices(m: ShapeProjectionModel, shape_id: Seq<char>) -> Seq<
    ObjectFieldChoiceModel,
> {
    spec_fields_of(m, shape_id).map_values(
        |f: FieldEntryModel| ObjectFieldChoiceModel {
            name: f.name,
            field_id: f.field_id,
            shape_id: match spec_resolve_field_shape(m, f.field_id) {
                Some(s) => s,
                None => "$unknown"@,
            },
        },
    )
}

/// How one raw choice maps to a caller-facing record: objects carry their
/// resolved fields, lists their resolved item shape, primitives their JSON
/// type; `Map`, `Identifier` and `Reference` are not implemented, and a
/// `OneOf` cannot come out of the expansion.
pub open spec fn spec_shape_choice(m: ShapeProjectionModel, c: ChoiceModel) -> Result<
    ShapeChoiceModel,
    ChoiceError,
> {
    match c.kind {
        ShapeKind::ObjectKind => Ok(
            ShapeChoiceModel::Object {
                shape_id: c.shape_id,
                json_type: JsonType::Object,
                fields: spec_object_field_choices(m, c.shape_id),
            },
        ),
        ShapeKind::ListKind => Ok(
            ShapeChoiceModel::Array {
                shape_id: c.shape_id,
                json_type: JsonType::Array,
                item_shape_id: spec_resolve_parameter(m, c.shape_id, "$listItem"@),
            },
        ),
        ShapeKind::MapKind => Err(ChoiceError::NotImplemented(ShapeKind::MapKind)),
        ShapeKind::OneOfKind => Err(ChoiceError::Unreachable),
        ShapeKind::AnyKind => Ok(ShapeChoiceModel::Any),
        ShapeKind::StringKind => Ok(
            ShapeChoiceModel::Primitive { shape_id: c.shape_id, json_type: JsonType::String },
        ),
        ShapeKind::NumberKind => Ok(
            ShapeChoiceModel::Primitive { shape_id: c.shape_id, json_type: JsonType::Number },
        ),
        ShapeKind::BooleanKind => Ok(
            ShapeChoiceModel::Primitive { shape_id: c.shape_id, json_type: JsonType::Boolean },
        ),
        ShapeKind::IdentifierKind => Err(ChoiceError::NotImplemented(ShapeKind::IdentifierKind)),
        ShapeKind::ReferenceKind => Err(ChoiceError::NotImplemented(ShapeKind::ReferenceKind)),
        ShapeKind::NullableKind => Ok(
            ShapeChoiceModel::Primitive { shape_id: c.shape_id, json_type: JsonType::Null },
        ),
        ShapeKind::OptionalKind => Ok(
            ShapeChoiceModel::Primitive { shape_id: c.shape_id, json_type: JsonType::Undefined },
        ),
        ShapeKind::UnknownKind => Ok(ShapeChoiceModel::Unknown),
    }
}

/// Maps a whole choice list, head first; the first failure wins.
pub open spec fn spec_shape_choices(m: ShapeProjectionModel, cs: Seq<ChoiceModel>) -> Result<
    Seq<ShapeChoiceModel>,
    ChoiceError,
>
    decreases cs.len(),
{
    if cs.len() == 0 {
        Ok(Seq::empty())
    } else {
        match spec_shape_choice(m, cs[0]) {
            Err(e) => Err(e),
            Ok(c) => match spec_shape_choices(m, cs.drop_first()) {
                Err(e) => Err(e),
                Ok(rest) => Ok(seq![c] + rest),
            },
        }
    }
}

/// What `trail_choices` returns: every raw choice at the trail's tip mapped
/// to its caller-facing record, or the first failure.
pub open spec fn spec_trail_choices(m: ShapeProjectionModel, t: ShapeTrail) -> Result<
    Seq<ShapeChoiceModel>,
    ChoiceError,
> {
    spec_shape_choices(m, spec_list_trail_choices(m, t))
}

/// A command proposing an edit of the shape graph.
#[derive(Clone, Debug)]
pub enum ShapeCommand {
    AddShape { shape_id: ShapeId, base_shape_id: ShapeId, name: String },
    SetFieldShape { field_id: FieldId, shape_id: ShapeId },
}

/// Choice queries over a shape projection.
pub struct ShapeChoiceQueries<'a> {
    pub shape_queries: ShapeQueries<'a>,
    pub shape_projection: &'a ShapeProjection,
}

impl<'a> From<&'a ShapeProjection> for ShapeChoiceQueries<'a> {
    fn from(shape_projection: &'a ShapeProjection) -> (r: ShapeChoiceQueries<'a>) {
        let shape_queries = ShapeQueries::new(shape_projection);

        ShapeChoiceQueries { shape_queries, shape_projection }
    }
}

impl<'a> vstd::std_specs::convert::FromSpecImpl<&'a ShapeProjection> for ShapeChoiceQueries<'a> {
    open spec fn obeys_from_spec() -> bool {
        true
    }

    open spec fn from_spec(shape_projection: &'a ShapeProjection) -> ShapeChoiceQueries<'a> {
        ShapeChoiceQueries {
            shape_queries: ShapeQueries { shape_projection },
            shape_projection,
        }
    }
}

impl<'a> ShapeChoiceQueries<'a> {
    /// Maps every choice at the trail's tip to a caller-facing record:
    /// `Object` with its fields resolved in declaration order, `Array` with
    /// its item shape, a `Primitive`, `Any` or `Unknown`; fails with
    /// `NotImplemented` on a `Map`, `Identifier` or `Reference` choice.
    pub fn trail_choices(&self, shape_trail: &ShapeTrail) -> (r: Result<
        Vec<ShapeChoice>,
        ChoiceError,
    >)
        ensures
            ({
                let spec_r = spec_trail_choices(
                    self.shape_queries.shape_projection.model(),
                    *shape_trail,
                );
                match r {
                    Ok(v) => spec_r matches Ok(s) && shape_choices_model(v@) == s,
                    Err(e) => spec_r == Err::<Seq<ShapeChoiceModel>, ChoiceError>(e),
                }
            }),
    {
        let ghost m = self.shape_queries.shape_projection.model();
        let trail_choices = self.shape_queries.list_trail_choices(shape_trail);
        let ghost cs = choices_model(trail_choices@);
        let mut out: Vec<ShapeChoice> = Vec::new();
        let n = trail_choices.len();
        let mut i: usize = 0;
        proof {
            assert(cs.skip(0) =~= cs);
            match spec_shape_choices(m, cs) {
                Ok(rest) => {
                    assert(shape_choices_model(out@) + rest =~= rest);
                },
                Err(_) => {},
            }
        }
        while i < n
            invariant
                n == trail_choices@.len(),
                i <= n,
                m == self.shape_queries.shape_projection.model(),
                cs == choices_model(trail_choices@),
                spec_list_trail_choices(m, *shape_trail) == cs,
                (match spec_shape_choices(m, cs.skip(i as int)) {
                    Ok(rest) => spec_shape_choices(m, cs) == Ok::<
                        Seq<ShapeChoiceModel>,
                        ChoiceError,
                    >(shape_choices_model(out@) + rest),
                    Err(e) => spec_shape_choices(m, cs) == Err::<
                        Seq<ShapeChoiceModel>,
                        ChoiceError,
                    >(e),
                }),
            decreases n - i,
        {
            proof {
                assert(cs.skip(i as int)[0] == cs[i as int]);
                assert(cs.skip(i as int).drop_first() =~= cs.skip(i as int + 1));
            }
            let choice = &trail_choices[i];
            proof {
                assert(cs[i as int] == choice.model());
            }
            let mapped: ShapeChoice = match choice.core_shape_kind {
                ShapeKind::ObjectKind => {
                    let field_pairs = self.shape_queries.resolve_shape_field_id_and_names(
                        &choice.shape_id,
                    );
                    let ghost fs = spec_fields_of(m, choice.shape_id@);
                    let ghost spec_fields = spec_object_field_choices(m, choice.shape_id@);
                    let mut fields: Vec<ObjectFieldChoice> = Vec::new();
                    let fields_n = field_pairs.len();
                    let mut j: usize = 0;
                    while j < fields_n
                        invariant
                            fields_n == field_pairs@.len(),
                            j <= fields_n,
                            m == self.shape_queries.shape_projection.model(),
                            fs == spec_fields_of(m, choice.shape_id@),
                            spec_fields == spec_object_field_choices(m, choice.shape_id@),
                            field_pairs@.len() == fs.len(),
                            forall|k: int|
                                0 <= k < fs.len() ==> (#[trigger] field_pairs@[k]).0@
                                    == fs[k].field_id && field_pairs@[k].1@ == fs[k].name,
                            fields@.len() == j,
                            forall|k: int|
                                0 <= k < j ==> (#[trigger] fields@[k]).model() == spec_fields[k],
                        decreases fields_n - j,
                    {
                        let pair = &field_pairs[j];
                        let field_shape_id: ShapeId = match self
                            .shape_queries
                            .resolve_field_shape_node(&pair.0) {
                            Some(s) => s,
                            None => "$unknown".to_owned(),
                        };
                        fields.push(
                            ObjectFieldChoice {
                                field_id: pair.0.clone(),
                                shape_id: field_shape_id,
                                name: pair.1.clone(),
                            },
                        );
                        j += 1;
                    }
                    let output = ObjectChoice {
                        shape_id: choice.shape_id.clone(),
                        json_type: JsonType::Object,
                        fields,
                    };
                    proof {
                        assert(output.fields@.map_values(|f: ObjectFieldChoice| f.model())
                            =~= spec_fields);
                    }
                    ShapeChoice::Object(output)
                },
                ShapeKind::ListKind => {
                    let descriptor = choice.core_shape_kind.get_parameter_descriptor().unwrap();
                    let shape_parameter_id = descriptor.shape_parameter_id.to_owned();
                    let list_item_shape_id = self.shape_queries.resolve_parameter_to_shape(
                        &choice.shape_id,
                        &shape_parameter_id,
                    );
                    let output = ArrayChoice {
                        shape_id: choice.shape_id.clone(),
                        json_type: JsonType::Array,
                        item_shape_id: list_item_shape_id,
                    };
                    ShapeChoice::Array(output)
                },
                ShapeKind::MapKind => {
                    return Err(ChoiceError::NotImplemented(ShapeKind::MapKind));
                },
                ShapeKind::OneOfKind => {
                    return Err(ChoiceError::Unreachable);
                },
                ShapeKind::AnyKind => ShapeChoice::Any,
                ShapeKind::UnknownKind => ShapeChoice::Unknown,
                ShapeKind::StringKind => ShapeChoice::Primitive(
                    PrimitiveChoice {
                        shape_id: choice.shape_id.clone(),
                        json_type: JsonType::String,
                    },
                ),
                ShapeKind::NumberKind => ShapeChoice::Primitive(
                    PrimitiveChoice {
                        shape_id: choice.shape_id.clone(),
                        json_type: JsonType::Number,
                    },
                ),
                ShapeKind::BooleanKind => ShapeChoice::Primitive(
                    PrimitiveChoice {
                        shape_id: choice.shape_id.clone(),
                        json_type: JsonType::Boolean,
                    },
                ),
                ShapeKind::NullableKind => ShapeChoice::Primitive(
                    PrimitiveChoice { shape_id: choice.shape_id.clone(), json_type: JsonType::Null },
                ),
                ShapeKind::IdentifierKind => {
                    return Err(ChoiceError::NotImplemented(ShapeKind::IdentifierKind));
                },
                ShapeKind::ReferenceKind => {
                    return Err(ChoiceError::NotImplemented(ShapeKind::ReferenceKind));
                },
                ShapeKind::OptionalKind => ShapeChoice::Primitive(
                    PrimitiveChoice {
                        shape_id: choice.shape_id.clone(),
                        json_type: JsonType::Undefined,
                    },
                ),
            };
            proof {
                assert(spec_shape_choice(m, cs[i as int]) == Ok::<ShapeChoiceModel, ChoiceError>(
                    mapped.model(),
                ));
            }
            let ghost prior = out@;
            let ghost mapped_model = mapped.model();
            out.push(mapped);
            proof {
                match spec_shape_choices(m, cs.skip(i as int + 1)) {
                    Ok(rest) => {
                        assert(shape_choices_model(out@) =~= shape_choices_model(prior).push(
                            mapped_model,
                        ));
                        assert(shape_choices_model(out@) + rest =~= shape_choices_model(prior) + (
                        seq![mapped_model] + rest));
                    },
                    Err(_) => {},
                }
            }
            i += 1;
        }
        proof {
            assert(cs.skip(n as int).len() == 0);
            match spec_shape_choices(m, cs) {
                Ok(_) => {
                    assert(shape_choices_model(out@) + Seq::<ShapeChoiceModel>::empty()
                        =~= shape_choices_model(out@));
                },
                Err(_) => {},
            }
        }
        Ok(out)
    }

    /// Editing commands for a reshaped trail are not part of the engine yet;
    /// every call returns `None` until their semantics are settled.
    pub fn edit_shape_commands(
        &self,
        _shape_trail: &ShapeTrail,
        _updated_shape_choices: &Vec<ShapeChoice>,
    ) -> (r: Option<Vec<ShapeCommand>>)
        ensures
            r is None,
    {
        None
    }
}

/// A choice list without a `OneOf` never fails as unreachable.
proof fn lemma_choices_without_oneof_never_unreachable(
    m: ShapeProjectionModel,
    cs: Seq<ChoiceModel>,
)
    requires
        forall|k: int| 0 <= k < cs.len() ==> (#[trigger] cs[k]).kind != ShapeKind::OneOfKind,
    ensures
        spec_shape_choices(m, cs) != Err::<Seq<ShapeChoiceModel>, ChoiceError>(
            ChoiceError::Unreachable,
        ),
    decreases cs.len(),
{
    if cs.len() != 0 {
        assert(cs[0].kind != ShapeKind::OneOfKind);
        assert forall|k: int|
            0 <= k < cs.drop_first().len() implies (#[trigger] cs.drop_first()[k]).kind
            != ShapeKind::OneOfKind by {
            assert(cs.drop_first()[k] == cs[k + 1]);
        }
        lemma_choices_without_oneof_never_unreachable(m, cs.drop_first());
    }
}

/// The expansion behind `trail_choices` never yields a `OneOf` choice, so
/// the `Unreachable` failure never escapes: a failure is always a
/// `NotImplemented`.
pub proof fn lemma_trail_choices_never_unreachable(m: ShapeProjectionModel, t: ShapeTrail)
    ensures
        spec_trail_choices(m, t) != Err::<Seq<ShapeChoiceModel>, ChoiceError>(
            ChoiceError::Unreachable,
        ),
{
    crate::queries::lemma_expand_no_oneof(m, seq![crate::queries::spec_trail_tip(t)], m.shapes.len());
    lemma_choices_without_oneof_never_unreachable(m, spec_list_trail_choices(m, t));
}

/// Shape choice completeness: in the object choice for a shape, the fields
/// stand index for index, in declaration order, with the projection's field
/// list for that shape; when the projection's field ids are distinct, each
/// declared field appears exactly once.
pub proof fn lemma_object_choice_field_completeness(m: ShapeProjectionModel, shape_id: Seq<char>)
    ensures
        spec_object_field_choices(m, shape_id).len() == spec_fields_of(m, shape_id).len(),
        forall|i: int|
            0 <= i < spec_fields_of(m, shape_id).len() ==> (#[trigger] spec_object_field_choices(
                m,
                shape_id,
            )[i]).field_id == spec_fields_of(m, shape_id)[i].field_id
                && spec_object_field_choices(m, shape_id)[i].name == spec_fields_of(
                m,
                shape_id,
            )[i].name,
        (forall|i: int, j: int|
            0 <= i < j < spec_fields_of(m, shape_id).len() ==> (#[trigger] spec_fields_of(
                m,
                shape_id,
            )[i]).field_id != (#[trigger] spec_fields_of(m, shape_id)[j]).field_id) ==> (forall|
            i: int,
            j: int,
        |
            0 <= i < j < spec_object_field_choices(m, shape_id).len()
                ==> (#[trigger] spec_object_field_choices(m, shape_id)[i]).field_id != (
            #[trigger] spec_object_field_choices(m, shape_id)[j]).field_id),
{
}

} // verus!
