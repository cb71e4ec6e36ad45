//! Read-only navigation of the shape graph: resolving field shapes and
//! parameter bindings, and listing the concrete choices a shape permits at
//! the tip of a trail.

use vstd::prelude::*;
use crate::projection::{
    find_binding_model, find_field_model, find_shape_model, FieldDescriptorModel, FieldEntryModel,
    ProviderModel, ShapeEntryModel, ShapeProjection, ShapeProjectionModel,
};
use crate::shape::{FieldId, FieldShapeDescriptor, ProviderDescriptor, ShapeId, ShapeKind,
    ShapeParameterId};

verus! {

/// One step of a trail from a root shape: object-field descent, list-item
/// descent, branch selection, or wrapper unwrap.
#[derive(Clone, Debug)]
pub enum ShapeTrailPathComponent {
    ObjectFieldTrail { field_id: FieldId, field_shape_id: ShapeId },
    ListItemTrail { item_shape_id: ShapeId },
    OneOfItemTrail { item_shape_id: ShapeId },
    NullableItemTrail { inner_shape_id: ShapeId },
    OptionalItemTrail { inner_shape_id: ShapeId },
}

/// An ordered path of steps from a root shape.
#[derive(Clone, Debug)]
pub struct ShapeTrail {
    pub root_shape_id: ShapeId,
    pub path: Vec<ShapeTrailPathComponent>,
}

/// One concrete choice a shape permits: the shape and its core kind.
#[derive(Clone, Debug)]
pub struct TrailChoice {
    pub shape_id: ShapeId,
    pub core_shape_kind: ShapeKind,
}

/// The character-level image of a `TrailChoice`.
pub struct ChoiceModel {
    pub shape_id: Seq<char>,
    pub kind: ShapeKind,
}

impl TrailChoice {
    /// This choice at the character level.
    pub open spec fn model(self) -> ChoiceModel {
        ChoiceModel { shape_id: self.shape_id@, kind: self.core_shape_kind }
    }
}

/// A whole choice list at the character level.
pub open spec fn choices_model(s: Seq<TrailChoice>) -> Seq<ChoiceModel> {
    s.map_values(|c: TrailChoice| c.model())
}

/// The core kind a base shape id names; anything unrecognized is `Unknown`.
pub open spec fn spec_kind_from_base(base: Seq<char>) -> ShapeKind {
    if base == "$object"@ {
        ShapeKind::ObjectKind
    } else if base == "$list"@ {
        ShapeKind::ListKind
    } else if base == "$map"@ {
        ShapeKind::MapKind
    } else if base == "$oneOf"@ {
        ShapeKind::OneOfKind
    } else if base == "$any"@ {
        ShapeKind::AnyKind
    } else if base == "$string"@ {
        ShapeKind::StringKind
    } else if base == "$number"@ {
        ShapeKind::NumberKind
    } else if base == "$boolean"@ {
        ShapeKind::BooleanKind
    } else if base == "$identifier"@ {
        ShapeKind::IdentifierKind
    } else if base == "$reference"@ {
        ShapeKind::ReferenceKind
    } else if base == "$nullable"@ {
        ShapeKind::NullableKind
    } else if base == "$optional"@ {
        ShapeKind::OptionalKind
    } else {
        ShapeKind::UnknownKind
    }
}

/// Maps a base shape id to its core kind.
fn kind_from_base(base: &String) -> (r: ShapeKind)
    ensures
        r == spec_kind_from_base(base@),
{
    if *base == "$object".to_owned() {
        ShapeKind::ObjectKind
    } else if *base == "$list".to_owned() {
        ShapeKind::ListKind
    } else if *base == "$map".to_owned() {
        ShapeKind::MapKind
    } else if *base == "$oneOf".to_owned() {
        ShapeKind::OneOfKind
    } else if *base == "$any".to_owned() {
        ShapeKind::AnyKind
    } else if *base == "$string".to_owned() {
        ShapeKind::StringKind
    } else if *base == "$number".to_owned() {
        ShapeKind::NumberKind
    } else if *base == "$boolean".to_owned() {
        ShapeKind::BooleanKind
    } else if *base == "$identifier".to_owned() {
        ShapeKind::IdentifierKind
    } else if *base == "$reference".to_owned() {
        ShapeKind::ReferenceKind
    } else if *base == "$nullable".to_owned() {
        ShapeKind::NullableKind
    } else if *base == "$optional".to_owned() {
        ShapeKind::OptionalKind
    } else {
        ShapeKind::UnknownKind
    }
}

/// What a parameter of a shape resolves to: the concrete shape its binding
/// provides, or `$unknown` when the binding is absent, provides nothing, or
/// defers to another parameter.
pub open spec fn spec_resolve_parameter(
    m: ShapeProjectionModel,
    shape_id: Seq<char>,
    parameter_id: Seq<char>,
) -> Seq<char> {
    match find_binding_model(m.bindings, shape_id, parameter_id) {
        Some(b) => match b.provider {
            ProviderModel::FromShape { shape_id: provided } => provided,
            _ => "$unknown"@,
        },
        None => "$unknown"@,
    }
}

/// The fields declared on a shape, in declaration order.
pub open spec fn spec_fields_of(m: ShapeProjectionModel, shape_id: Seq<char>) -> Seq<
    FieldEntryModel,
> {
    m.fields.filter(|f: FieldEntryModel| f.shape_id == shape_id)
}

/// What a field's shape resolves to: the concrete shape of its descriptor,
/// or its enclosing shape's parameter resolved; nothing for an unknown
/// field id.
pub open spec fn spec_resolve_field_shape(m: ShapeProjectionModel, field_id: Seq<char>) -> Option<
    Seq<char>,
> {
    match find_field_model(m.fields, field_id) {
        Some(f) => match f.descriptor {
            FieldDescriptorModel::FromShape { shape_id, .. } => Some(shape_id),
            FieldDescriptorModel::FromParameter { shape_parameter_id, .. } => Some(
                spec_resolve_parameter(m, f.shape_id, shape_parameter_id),
            ),
        },
        None => None,
    }
}

/// The branch shapes of a parameterized shape: each declared parameter
/// resolved to a shape.
pub open spec fn spec_branch_ids(m: ShapeProjectionModel, entry: ShapeEntryModel) -> Seq<
    Seq<char>,
> {
    entry.parameter_ids.map_values(|p: Seq<char>| spec_resolve_parameter(m, entry.shape_id, p))
}

/// The choices a worklist of shape ids expands into, head first: an unknown
/// id yields an `Unknown` choice, a `OneOf` expands into its branches (the
/// budget bounds that recursion, so a cyclic graph yields `Unknown`), and
/// every other shape yields one choice of its own kind. No `OneOf` choice
/// ever comes out.
pub open spec fn spec_expand_list(
    m: ShapeProjectionModel,
    pending: Seq<Seq<char>>,
    budget: nat,
) -> Seq<ChoiceModel>
    decreases budget, pending.len(),
{
    if pending.len() == 0 {
        Seq::empty()
    } else {
        let sid = pending[0];
        let rest = spec_expand_list(m, pending.drop_first(), budget);
        match find_shape_model(m.shapes, sid) {
            None => seq![ChoiceModel { shape_id: sid, kind: ShapeKind::UnknownKind }] + rest,
            Some(entry) => {
                let kind = spec_kind_from_base(entry.base_shape_id);
                if kind == ShapeKind::OneOfKind {
                    if budget == 0 {
                        seq![ChoiceModel { shape_id: sid, kind: ShapeKind::UnknownKind }] + rest
                    } else {
                        spec_expand_list(m, spec_branch_ids(m, entry), (budget - 1) as nat) + rest
                    }
                } else {
                    seq![ChoiceModel { shape_id: sid, kind }] + rest
                }
            },
        }
    }
}

/// The shape id at the tip of a trail.
pub open spec fn spec_trail_tip(t: ShapeTrail) -> Seq<char> {
    if t.path@.len() == 0 {
        t.root_shape_id@
    } else {
        match t.path@.last() {
            ShapeTrailPathComponent::ObjectFieldTrail { field_shape_id, .. } => field_shape_id@,
            ShapeTrailPathComponent::ListItemTrail { item_shape_id } => item_shape_id@,
            ShapeTrailPathComponent::OneOfItemTrail { item_shape_id } => item_shape_id@,
            ShapeTrailPathComponent::NullableItemTrail { inner_shape_id } => inner_shape_id@,
            ShapeTrailPathComponent::OptionalItemTrail { inner_shape_id } => inner_shape_id@,
        }
    }
}

/// The choices a trail permits at its tip.
pub open spec fn spec_list_trail_choices(m: ShapeProjectionModel, t: ShapeTrail) -> Seq<
    ChoiceModel,
> {
    spec_expand_list(m, seq![spec_trail_tip(t)], m.shapes.len())
}

/// No choice out of the expansion is a `OneOf`: a `OneOf` shape is always
/// expanded into its branches (or cut to `Unknown` by the budget).
pub proof fn lemma_expand_no_oneof(m: ShapeProjectionModel, pending: Seq<Seq<char>>, budget: nat)
    ensures
        forall|k: int|
            0 <= k < spec_expand_list(m, pending, budget).len() ==> (#[trigger] spec_expand_list(
                m,
                pending,
                budget,
            )[k]).kind != ShapeKind::OneOfKind,
    decreases budget, pending.len(),
{
    if pending.len() != 0 {
        lemma_expand_no_oneof(m, pending.drop_first(), budget);
        match find_shape_model(m.shapes, pending[0]) {
            Some(entry) => {
                let kind = spec_kind_from_base(entry.base_shape_id);
                if kind == ShapeKind::OneOfKind && budget != 0 {
                    lemma_expand_no_oneof(m, spec_branch_ids(m, entry), (budget - 1) as nat);
                }
            },
            None => {},
        }
    }
}

/// Read-only queries over a shape projection.
pub struct ShapeQueries<'a> {
    pub shape_projection: &'a ShapeProjection,
}

impl<'a> ShapeQueries<'a> {
    /// Queries over the given projection.
    pub fn new(shape_projection: &'a ShapeProjection) -> (r: ShapeQueries<'a>)
        ensures
            r.shape_projection == shape_projection,
    {
        ShapeQueries { shape_projection }
    }

    /// Resolves a parameter of a shape to the shape its binding provides, or
    /// `$unknown`.
    pub fn resolve_parameter_to_shape(
        &self,
        shape_id: &ShapeId,
        shape_parameter_id: &ShapeParameterId,
    ) -> (r: ShapeId)
        ensures
            r@ == spec_resolve_parameter(
                self.shape_projection.model(),
                shape_id@,
                shape_parameter_id@,
            ),
    {
        match self.shape_projection.find_binding(shape_id, shape_parameter_id) {
            Some(binding) => match &binding.provider {
                ProviderDescriptor::ShapeProvider(p) => p.shape_id.clone(),
                _ => "$unknown".to_owned(),
            },
            None => "$unknown".to_owned(),
        }
    }

    /// Enumerates the fields declared on a shape, in declaration order, as
    /// `(field id, field name)` pairs.
    pub fn resolve_shape_field_id_and_names(&self, shape_id: &ShapeId) -> (r: Vec<
        (FieldId, String),
    >)
        ensures
            ({
                let fs = spec_fields_of(self.shape_projection.model(), shape_id@);
                &&& r@.len() == fs.len()
                &&& forall|i: int|
                    0 <= i < fs.len() ==> (#[trigger] r@[i]).0@ == fs[i].field_id && r@[i].1@
                        == fs[i].name
            }),
    {
        let ghost m = self.shape_projection.model();
        let ghost pred = |f: FieldEntryModel| f.shape_id == shape_id@;
        let mut out: Vec<(FieldId, String)> = Vec::new();
        let n = self.shape_projection.fields.len();
        let mut i: usize = 0;
        proof {
            assert(m.fields.subrange(0, 0).filter(pred) =~= Seq::<FieldEntryModel>::empty()) by {
                reveal(Seq::filter);
            }
        }
        while i < n
            invariant
                n == self.shape_projection.fields@.len(),
                i <= n,
                m == self.shape_projection.model(),
                pred == (|f: FieldEntryModel| f.shape_id == shape_id@),
                out@.len() == m.fields.subrange(0, i as int).filter(pred).len(),
                forall|k: int|
                    0 <= k < out@.len() ==> (#[trigger] out@[k]).0@ == m.fields.subrange(
                        0,
                        i as int,
                    ).filter(pred)[k].field_id && out@[k].1@ == m.fields.subrange(
                        0,
                        i as int,
                    ).filter(pred)[k].name,
            decreases n - i,
        {
            let ghost prefix = m.fields.subrange(0, i as int);
            let ghost next_prefix = m.fields.subrange(0, i as int + 1);
            proof {
                assert(next_prefix.drop_last() =~= prefix);
                assert(next_prefix.last() == m.fields[i as int]);
                reveal(Seq::filter);
            }
            let field = &self.shape_projection.fields[i];
            if field.shape_id == *shape_id {
                proof {
                    assert(m.fields[i as int] == field.model());
                    assert(pred(m.fields[i as int]));
                    assert(next_prefix.filter(pred) == prefix.filter(pred).push(
                        m.fields[i as int],
                    ));
                }
                out.push((field.field_id.clone(), field.name.clone()));
            } else {
                proof {
                    assert(m.fields[i as int] == field.model());
                    assert(!pred(m.fields[i as int]));
                    assert(next_prefix.filter(pred) == prefix.filter(pred));
                }
            }
            i += 1;
        }
        proof {
            assert(m.fields.subrange(0, n as int) =~= m.fields);
        }
        out
    }

    /// Resolves a field to the shape its descriptor provides; nothing for an
    /// unknown field id.
    pub fn resolve_field_shape_node(&self, field_id: &FieldId) -> (r: Option<ShapeId>)
        ensures
            r matches Some(s) ==> spec_resolve_field_shape(self.shape_projection.model(), field_id@)
                == Some(s@),
            r is None ==> spec_resolve_field_shape(self.shape_projection.model(), field_id@)
                is None,
    {
        match self.shape_projection.find_field(field_id) {
            Some(field) => match &field.shape_descriptor {
                FieldShapeDescriptor::FieldShapeFromShape(d) => Some(d.shape_id.clone()),
                FieldShapeDescriptor::FieldShapeFromParameter(d) => Some(
                    self.resolve_parameter_to_shape(&field.shape_id, &d.shape_parameter_id),
                ),
            },
            None => None,
        }
    }

    /// Expands the worklist tail of `pending` from `start` on, exactly as
    /// `spec_expand_list` says.
    fn expand_from(&self, pending: &Vec<ShapeId>, start: usize, budget: usize) -> (r: Vec<
        TrailChoice,
    >)
        requires
            start <= pending@.len(),
        ensures
            choices_model(r@) == spec_expand_list(
                self.shape_projection.model(),
                pending@.map_values(|s: ShapeId| s@).skip(start as int),
                budget as nat,
            ),
        decreases budget, pending@.len() - start,
    {
        let ghost m = self.shape_projection.model();
        let ghost views = pending@.map_values(|s: ShapeId| s@);
        if start == pending.len() {
            let r: Vec<TrailChoice> = Vec::new();
            proof {
                assert(views.skip(start as int).len() == 0);
                assert(choices_model(r@) =~= spec_expand_list(
                    m,
                    views.skip(start as int),
                    budget as nat,
                ));
            }
            return r;
        }
        let sid = &pending[start];
        proof {
            assert(views.skip(start as int)[0] == sid@);
            assert(views.skip(start as int).drop_first() =~= views.skip(start as int + 1));
        }
        let mut rest = self.expand_from(pending, start + 1, budget);
        let mut out: Vec<TrailChoice> = Vec::new();
        match self.shape_projection.find_shape(sid) {
            None => {
                out.push(
                    TrailChoice { shape_id: sid.clone(), core_shape_kind: ShapeKind::UnknownKind },
                );
            },
            Some(entry) => {
                let kind = kind_from_base(&entry.base_shape_id);
                if kind == ShapeKind::OneOfKind {
                    if budget == 0 {
                        out.push(
                            TrailChoice {
                                shape_id: sid.clone(),
                                core_shape_kind: ShapeKind::UnknownKind,
                            },
                        );
                    } else {
                        let ghost em = entry.model();
                        let mut branches: Vec<ShapeId> = Vec::new();
                        let pn = entry.parameter_ids.len();
                        let mut i: usize = 0;
                        while i < pn
                            invariant
                                pn == entry.parameter_ids@.len(),
                                i <= pn,
                                em == entry.model(),
                                m == self.shape_projection.model(),
                                branches@.len() == i,
                                forall|k: int|
                                    0 <= k < i ==> (#[trigger] branches@[k])@ == spec_branch_ids(
                                        m,
                                        em,
                                    )[k],
                            decreases pn - i,
                        {
                            let resolved = self.resolve_parameter_to_shape(
                                &entry.shape_id,
                                &entry.parameter_ids[i],
                            );
                            proof {
                                assert(em.parameter_ids[i as int] == entry.parameter_ids@[
                                    i as int
                                ]@);
                                assert(spec_branch_ids(m, em)[i as int] == spec_resolve_parameter(
                                    m,
                                    em.shape_id,
                                    em.parameter_ids[i as int],
                                ));
                            }
                            branches.push(resolved);
                            i += 1;
                        }
                        proof {
                            assert(branches@.map_values(|s: ShapeId| s@) =~= spec_branch_ids(
                                m,
                                em,
                            ));
                            assert(branches@.map_values(|s: ShapeId| s@).skip(0)
                                =~= spec_branch_ids(m, em));
                        }
                        out = self.expand_from(&branches, 0, budget - 1);
                    }
                } else {
                    out.push(TrailChoice { shape_id: sid.clone(), core_shape_kind: kind });
                }
            },
        }
        out.append(&mut rest);
        proof {
            assert(choices_model(out@) =~= spec_expand_list(
                m,
                views.skip(start as int),
                budget as nat,
            ));
        }
        out
    }

    /// Lists the concrete choices the shape at the tip of the trail permits.
    /// `OneOf` shapes are expanded into their branches, so no `OneOf` choice
    /// is ever returned.
    pub fn list_trail_choices(&self, shape_trail: &ShapeTrail) -> (r: Vec<TrailChoice>)
        ensures
            choices_model(r@) == spec_list_trail_choices(
                self.shape_projection.model(),
                *shape_trail,
            ),
    {
        let tip: ShapeId = if shape_trail.path.len() == 0 {
            shape_trail.root_shape_id.clone()
        } else {
            match &shape_trail.path[shape_trail.path.len() - 1] {
                ShapeTrailPathComponent::ObjectFieldTrail { field_shape_id, .. } => (
                field_shape_id.clone()),
                ShapeTrailPathComponent::ListItemTrail { item_shape_id } => item_shape_id.clone(),
                ShapeTrailPathComponent::OneOfItemTrail { item_shape_id } => item_shape_id.clone(),
                ShapeTrailPathComponent::NullableItemTrail { inner_shape_id } => (
                inner_shape_id.clone()),
                ShapeTrailPathComponent::OptionalItemTrail { inner_shape_id } => (
                inner_shape_id.clone()),
            }
        };
        let mut pending: Vec<ShapeId> = Vec::new();
        pending.push(tip);
        let budget = self.shape_projection.shapes.len();
        let r = self.expand_from(&pending, 0, budget);
        proof {
            assert(pending@.map_values(|s: ShapeId| s@).skip(0) =~= seq![
                spec_trail_tip(*shape_trail),
            ]);
            assert(self.shape_projection.model().shapes.len()
                == self.shape_projection.shapes@.len());
        }
        r
    }
}

} // verus!
