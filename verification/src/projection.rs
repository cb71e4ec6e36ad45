//! The shape projection: a deterministic fold of spec events into a
//! queryable shape graph. Shapes, fields and parameter bindings live in
//! arenas keyed by their ids; events whose preconditions fail (an unknown
//! id, a duplicate creation) are skipped, never fatal.

use vstd::prelude::*;
use crate::events::{ShapeAdded, SpecEvent};
use crate::shape::{
    FieldId, FieldShapeDescriptor, ParameterShapeDescriptor, ProviderDescriptor, ShapeId,
    ShapeParameterId, ShapeParametersDescriptor,
};

verus! {

/// One shape of the graph: its id, the base shape id naming its kind, its
/// declared parameters in order, and its human name.
#[derive(Clone, Debug)]
pub struct ShapeEntry {
    pub shape_id: ShapeId,
    pub base_shape_id: ShapeId,
    pub parameter_ids: Vec<ShapeParameterId>,
    pub name: String,
}

/// One field of an object shape: its id, the id of the shape it belongs to,
/// its name, and how its own shape is provided.
#[derive(Clone, Debug)]
pub struct FieldEntry {
    pub field_id: FieldId,
    pub shape_id: ShapeId,
    pub name: String,
    pub shape_descriptor: FieldShapeDescriptor,
}

/// One recorded parameter binding: which provider supplies the value of a
/// parameter of a shape.
#[derive(Clone, Debug)]
pub struct ParameterBinding {
    pub shape_id: ShapeId,
    pub shape_parameter_id: ShapeParameterId,
    pub provider: ProviderDescriptor,
}

/// The character-level image of a `ShapeEntry`.
pub struct ShapeEntryModel {
    pub shape_id: Seq<char>,
    pub base_shape_id: Seq<char>,
    pub parameter_ids: Seq<Seq<char>>,
    pub name: Seq<char>,
}

/// The character-level image of a `FieldShapeDescriptor`.
pub enum FieldDescriptorModel {
    FromShape { field_id: Seq<char>, shape_id: Seq<char> },
    FromParameter { field_id: Seq<char>, shape_parameter_id: Seq<char> },
}

/// The character-level image of a `FieldEntry`.
pub struct FieldEntryModel {
    pub field_id: Seq<char>,
    pub shape_id: Seq<char>,
    pub name: Seq<char>,
    pub descriptor: FieldDescriptorModel,
}

/// The character-level image of a `ProviderDescriptor`.
pub enum ProviderModel {
    FromParameter,
    FromShape { shape_id: Seq<char> },
    Nothing,
}

/// The character-level image of a `ParameterBinding`.
pub struct BindingModel {
    pub shape_id: Seq<char>,
    pub shape_parameter_id: Seq<char>,
    pub provider: ProviderModel,
}

/// The whole projection at the character level: what every contract of the
/// projection and of the queries speaks about.
pub struct ShapeProjectionModel {
    pub shapes: Seq<ShapeEntryModel>,
    pub fields: Seq<FieldEntryModel>,
    pub bindings: Seq<BindingModel>,
}

impl ShapeEntry {
    /// This entry at the character level.
    pub open spec fn model(self) -> ShapeEntryModel {
        ShapeEntryModel {
            shape_id: self.shape_id@,
            base_shape_id: self.base_shape_id@,
            parameter_ids: self.parameter_ids@.map_values(|s: ShapeParameterId| s@),
            name: self.name@,
        }
    }
}

impl FieldShapeDescriptor {
    /// This descriptor at the character level.
    pub open spec fn model(self) -> FieldDescriptorModel {
        match self {
            FieldShapeDescriptor::FieldShapeFromShape(d) => FieldDescriptorModel::FromShape {
                field_id: d.field_id@,
                shape_id: d.shape_id@,
            },
            FieldShapeDescriptor::FieldShapeFromParameter(d) => (
            FieldDescriptorModel::FromParameter {
                field_id: d.field_id@,
                shape_parameter_id: d.shape_parameter_id@,
            }),
        }
    }

    /// The field id the descriptor itself names.
    pub open spec fn spec_field_id(self) -> Seq<char> {
        match self {
            FieldShapeDescriptor::FieldShapeFromShape(d) => d.field_id@,
            FieldShapeDescriptor::FieldShapeFromParameter(d) => d.field_id@,
        }
    }
}

impl FieldEntry {
    /// This entry at the character level.
    pub open spec fn model(self) -> FieldEntryModel {
        FieldEntryModel {
            field_id: self.field_id@,
            shape_id: self.shape_id@,
            name: self.name@,
            descriptor: self.shape_descriptor.model(),
        }
    }
}

impl ProviderDescriptor {
    /// This provider at the character level.
    pub open spec fn model(self) -> ProviderModel {
        match self {
            ProviderDescriptor::ParameterProvider(_) => ProviderModel::FromParameter,
            ProviderDescriptor::ShapeProvider(p) => ProviderModel::FromShape {
                shape_id: p.shape_id@,
            },
            ProviderDescriptor::NoProvider(_) => ProviderModel::Nothing,
        }
    }
}

impl ParameterBinding {
    /// This binding at the character level.
    pub open spec fn model(self) -> BindingModel {
        BindingModel {
            shape_id: self.shape_id@,
            shape_parameter_id: self.shape_parameter_id@,
            provider: self.provider.model(),
        }
    }
}

/// The first element of a sequence satisfying a predicate, if any.
pub open spec fn spec_find<T>(s: Seq<T>, p: spec_fn(T) -> bool) -> Option<T>
    decreases s.len(),
{
    if s.len() == 0 {
        None
    } else if p(s[0]) {
        Some(s[0])
    } else {
        spec_find(s.drop_first(), p)
    }
}

/// Searching may skip a prefix in which nothing satisfies the predicate.
pub proof fn lemma_spec_find_skip<T>(s: Seq<T>, p: spec_fn(T) -> bool, i: int)
    requires
        0 <= i <= s.len(),
        forall|j: int| 0 <= j < i ==> !p(s[j]),
    ensures
        spec_find(s, p) == spec_find(s.skip(i), p),
    decreases i,
{
    if i == 0 {
        assert(s.skip(0) =~= s);
    } else {
        assert(!p(s[0]));
        lemma_spec_find_skip(s.drop_first(), p, i - 1);
        assert(s.drop_first().skip(i - 1) =~= s.skip(i));
    }
}

/// The first shape with this id.
pub open spec fn find_shape_model(shapes: Seq<ShapeEntryModel>, id: Seq<char>) -> Option<
    ShapeEntryModel,
> {
    spec_find(shapes, |e: ShapeEntryModel| e.shape_id == id)
}

/// The first field with this id.
pub open spec fn find_field_model(fields: Seq<FieldEntryModel>, id: Seq<char>) -> Option<
    FieldEntryModel,
> {
    spec_find(fields, |f: FieldEntryModel| f.field_id == id)
}

/// The first binding for this shape and parameter.
pub open spec fn find_binding_model(
    bindings: Seq<BindingModel>,
    shape_id: Seq<char>,
    parameter_id: Seq<char>,
) -> Option<BindingModel> {
    spec_find(
        bindings,
        |b: BindingModel| b.shape_id == shape_id && b.shape_parameter_id == parameter_id,
    )
}

/// The parameter ids a `ShapeAdded` event declares: the built-in `$listItem`
/// for shapes based on `$list`, then the event's own parameter list.
pub open spec fn spec_declared_parameter_ids(e: ShapeAdded) -> Seq<Seq<char>> {
    let built_in: Seq<Seq<char>> = if e.base_shape_id@ == "$list"@ {
        seq!["$listItem"@]
    } else {
        Seq::empty()
    };
    built_in + spec_descriptor_parameter_ids(e.parameters)
}

/// The parameter ids a parameters descriptor carries.
pub open spec fn spec_descriptor_parameter_ids(d: ShapeParametersDescriptor) -> Seq<Seq<char>> {
    match d {
        ShapeParametersDescriptor::NoParameterList => Seq::empty(),
        ShapeParametersDescriptor::StaticParameterList(s) => s.shape_parameter_ids@.map_values(
            |p: ShapeParameterId| p@,
        ),
        ShapeParametersDescriptor::DynamicParameterList(s) => s.shape_parameter_ids@.map_values(
            |p: ShapeParameterId| p@,
        ),
    }
}

/// What one event does to the projection: `ShapeAdded` and `FieldAdded`
/// append to their arenas when their preconditions hold (the referenced shape
/// exists, the created id is fresh, a field descriptor names its own field);
/// a violation skips the event; every other event leaves the shape
/// projection unchanged.
pub open spec fn spec_apply_event(m: ShapeProjectionModel, e: SpecEvent) -> ShapeProjectionModel {
    match e {
        SpecEvent::ShapeAdded(a) => if find_shape_model(m.shapes, a.shape_id@) is None {
            ShapeProjectionModel {
                shapes: m.shapes.push(
                    ShapeEntryModel {
                        shape_id: a.shape_id@,
                        base_shape_id: a.base_shape_id@,
                        parameter_ids: spec_declared_parameter_ids(a),
                        name: a.name@,
                    },
                ),
                fields: m.fields,
                bindings: m.bindings,
            }
        } else {
            m
        },
        SpecEvent::FieldAdded(f) => if find_shape_model(m.shapes, f.shape_id@) is Some
            && find_field_model(m.fields, f.field_id@) is None && f.shape_descriptor.spec_field_id()
            == f.field_id@ {
            ShapeProjectionModel {
                shapes: m.shapes,
                fields: m.fields.push(
                    FieldEntryModel {
                        field_id: f.field_id@,
                        shape_id: f.shape_id@,
                        name: f.name@,
                        descriptor: f.shape_descriptor.model(),
                    },
                ),
                bindings: m.bindings,
            }
        } else {
            m
        },
        _ => m,
    }
}

/// What recording one parameter binding does: a provider declared in a shape
/// is appended when the shape exists, declares the consuming parameter, and
/// the pair is not bound yet; a provider declared in a field is resolved
/// lazily through the field and records nothing.
pub open spec fn spec_bind_parameter(
    m: ShapeProjectionModel,
    d: ParameterShapeDescriptor,
) -> ShapeProjectionModel {
    match d {
        ParameterShapeDescriptor::ProviderInField(_) => m,
        ParameterShapeDescriptor::ProviderInShape(p) => if (find_shape_model(m.shapes, p.shape_id@)
            matches Some(entry) && entry.parameter_ids.contains(p.consuming_parameter_id@))
            && find_binding_model(m.bindings, p.shape_id@, p.consuming_parameter_id@) is None {
            ShapeProjectionModel {
                shapes: m.shapes,
                fields: m.fields,
                bindings: m.bindings.push(
                    BindingModel {
                        shape_id: p.shape_id@,
                        shape_parameter_id: p.consuming_parameter_id@,
                        provider: p.provider_descriptor.model(),
                    },
                ),
            }
        } else {
            m
        },
    }
}

/// The projection an event stream folds into, from the empty projection.
pub open spec fn spec_project(events: Seq<SpecEvent>) -> ShapeProjectionModel
    decreases events.len(),
{
    if events.len() == 0 {
        ShapeProjectionModel { shapes: Seq::empty(), fields: Seq::empty(), bindings: Seq::empty() }
    } else {
        spec_apply_event(spec_project(events.drop_last()), events.last())
    }
}

/// The shape graph projected from a spec event stream: arenas of shapes,
/// fields and parameter bindings, append-only under a linear event stream.
#[derive(Debug)]
pub struct ShapeProjection {
    pub shapes: Vec<ShapeEntry>,
    pub fields: Vec<FieldEntry>,
    pub bindings: Vec<ParameterBinding>,
}

impl ShapeProjection {
    /// This projection at the character level.
    pub open spec fn model(self) -> ShapeProjectionModel {
        ShapeProjectionModel {
            shapes: self.shapes@.map_values(|e: ShapeEntry| e.model()),
            fields: self.fields@.map_values(|f: FieldEntry| f.model()),
            bindings: self.bindings@.map_values(|b: ParameterBinding| b.model()),
        }
    }

    /// The empty projection.
    pub fn new() -> (r: ShapeProjection)
        ensures
            r.model() == spec_project(Seq::<SpecEvent>::empty()),
    {
        let r = ShapeProjection { shapes: Vec::new(), fields: Vec::new(), bindings: Vec::new() };
        proof {
            assert(r.model().shapes =~= spec_project(Seq::<SpecEvent>::empty()).shapes);
            assert(r.model().fields =~= spec_project(Seq::<SpecEvent>::empty()).fields);
            assert(r.model().bindings =~= spec_project(Seq::<SpecEvent>::empty()).bindings);
        }
        r
    }

    /// The first shape with this id, if any.
    pub fn find_shape(&self, shape_id: &ShapeId) -> (r: Option<&ShapeEntry>)
        ensures
            r matches Some(e) ==> find_shape_model(self.model().shapes, shape_id@) == Some(
                e.model(),
            ),
            r is None ==> find_shape_model(self.model().shapes, shape_id@) is None,
    {
        let ghost p = |e: ShapeEntryModel| e.shape_id == shape_id@;
        let n = self.shapes.len();
        let mut i: usize = 0;
        while i < n
            invariant
                n == self.shapes@.len(),
                i <= n,
                forall|j: int| 0 <= j < i ==> !p(#[trigger] self.model().shapes[j]),
                p == (|e: ShapeEntryModel| e.shape_id == shape_id@),
            decreases n - i,
        {
            if self.shapes[i].shape_id == *shape_id {
                proof {
                    lemma_spec_find_skip(self.model().shapes, p, i as int);
                    assert(self.model().shapes.skip(i as int)[0] == self.model().shapes[i as int]);
                }
                return Some(&self.shapes[i]);
            }
            i += 1;
        }
        proof {
            lemma_spec_find_skip(self.model().shapes, p, n as int);
            assert(self.model().shapes.skip(n as int).len() == 0);
        }
        None
    }

    /// The first field with this id, if any.
    pub fn find_field(&self, field_id: &FieldId) -> (r: Option<&FieldEntry>)
        ensures
            r matches Some(f) ==> find_field_model(self.model().fields, field_id@) == Some(
                f.model(),
            ),
            r is None ==> find_field_model(self.model().fields, field_id@) is None,
    {
        let ghost p = |f: FieldEntryModel| f.field_id == field_id@;
        let n = self.fields.len();
        let mut i: usize = 0;
        while i < n
            invariant
                n == self.fields@.len(),
                i <= n,
                forall|j: int| 0 <= j < i ==> !p(#[trigger] self.model().fields[j]),
                p == (|f: FieldEntryModel| f.field_id == field_id@),
            decreases n - i,
        {
            if self.fields[i].field_id == *field_id {
                proof {
                    lemma_spec_find_skip(self.model().fields, p, i as int);
                    assert(self.model().fields.skip(i as int)[0] == self.model().fields[i as int]);
                }
                return Some(&self.fields[i]);
            }
            i += 1;
        }
        proof {
            lemma_spec_find_skip(self.model().fields, p, n as int);
            assert(self.model().fields.skip(n as int).len() == 0);
        }
        None
    }

    /// The first binding for this shape and parameter, if any.
    pub fn find_binding(&self, shape_id: &ShapeId, parameter_id: &ShapeParameterId) -> (r: Option<
        &ParameterBinding,
    >)
        ensures
            r matches Some(b) ==> find_binding_model(
                self.model().bindings,
                shape_id@,
                parameter_id@,
            ) == Some(b.model()),
            r is None ==> find_binding_model(self.model().bindings, shape_id@, parameter_id@)
                is None,
    {
        let ghost p = |b: BindingModel|
            b.shape_id == shape_id@ && b.shape_parameter_id == parameter_id@;
        let n = self.bindings.len();
        let mut i: usize = 0;
        while i < n
            invariant
                n == self.bindings@.len(),
                i <= n,
                forall|j: int| 0 <= j < i ==> !p(#[trigger] self.model().bindings[j]),
                p == (|b: BindingModel|
                    b.shape_id == shape_id@ && b.shape_parameter_id == parameter_id@),
            decreases n - i,
        {
            if self.bindings[i].shape_id == *shape_id && self.bindings[i].shape_parameter_id
                == *parameter_id {
                proof {
                    lemma_spec_find_skip(self.model().bindings, p, i as int);
                    assert(self.model().bindings.skip(i as int)[0] == self.model().bindings[
                        i as int
                    ]);
                }
                return Some(&self.bindings[i]);
            }
            i += 1;
        }
        proof {
            lemma_spec_find_skip(self.model().bindings, p, n as int);
            assert(self.model().bindings.skip(n as int).len() == 0);
        }
        None
    }

    /// Applies one event. Total: an event whose preconditions fail is
    /// skipped, and events that do not touch the shape graph are no-ops.
    pub fn apply(&mut self, event: SpecEvent)
        ensures
            final(self).model() == spec_apply_event(old(self).model(), event),
    {
        match event {
            SpecEvent::ShapeAdded(a) => {
                let ghost a0 = a;
                let already = self.find_shape(&a.shape_id).is_some();
                if !already {
                    let list_base = "$list".to_owned();
                    let mut parameter_ids: Vec<ShapeParameterId> = Vec::new();
                    if a.base_shape_id == list_base {
                        parameter_ids.push("$listItem".to_owned());
                    }
                    let ghost built_in = parameter_ids@;
                    match a.parameters {
                        ShapeParametersDescriptor::NoParameterList => {},
                        ShapeParametersDescriptor::StaticParameterList(d) => {
                            append_ids(&mut parameter_ids, d.shape_parameter_ids);
                        },
                        ShapeParametersDescriptor::DynamicParameterList(d) => {
                            append_ids(&mut parameter_ids, d.shape_parameter_ids);
                        },
                    }
                    proof {
                        assert(parameter_ids@.map_values(|s: ShapeParameterId| s@)
                            =~= spec_declared_parameter_ids(a0));
                    }
                    let entry = ShapeEntry {
                        shape_id: a.shape_id,
                        base_shape_id: a.base_shape_id,
                        parameter_ids,
                        name: a.name,
                    };
                    self.shapes.push(entry);
                    proof {
                        assert(final(self).model().shapes =~= spec_apply_event(
                            old(self).model(),
                            event,
                        ).shapes);
                    }
                }
            },
            SpecEvent::FieldAdded(f) => {
                let shape_known = self.find_shape(&f.shape_id).is_some();
                let field_fresh = self.find_field(&f.field_id).is_none();
                let descriptor_field_id = match &f.shape_descriptor {
                    FieldShapeDescriptor::FieldShapeFromShape(d) => &d.field_id,
                    FieldShapeDescriptor::FieldShapeFromParameter(d) => &d.field_id,
                };
                let consistent = *descriptor_field_id == f.field_id;
                if shape_known && field_fresh && consistent {
                    let entry = FieldEntry {
                        field_id: f.field_id,
                        shape_id: f.shape_id,
                        name: f.name,
                        shape_descriptor: f.shape_descriptor,
                    };
                    self.fields.push(entry);
                    proof {
                        assert(final(self).model().fields =~= spec_apply_event(
                            old(self).model(),
                            event,
                        ).fields);
                    }
                }
            },
            _ => {},
        }
    }

    /// Records one parameter binding, skipping it when its preconditions
    /// fail, exactly as `spec_bind_parameter` says.
    pub fn bind_parameter(&mut self, descriptor: ParameterShapeDescriptor)
        ensures
            final(self).model() == spec_bind_parameter(old(self).model(), descriptor),
    {
        match descriptor {
            ParameterShapeDescriptor::ProviderInField(_) => {},
            ParameterShapeDescriptor::ProviderInShape(p) => {
                let declared = match self.find_shape(&p.shape_id) {
                    Some(entry) => contains_id(&entry.parameter_ids, &p.consuming_parameter_id),
                    None => false,
                };
                let fresh = self.find_binding(&p.shape_id, &p.consuming_parameter_id).is_none();
                if declared && fresh {
                    let binding = ParameterBinding {
                        shape_id: p.shape_id,
                        shape_parameter_id: p.consuming_parameter_id,
                        provider: p.provider_descriptor,
                    };
                    self.bindings.push(binding);
                    proof {
                        assert(final(self).model().bindings =~= spec_bind_parameter(
                            old(self).model(),
                            descriptor,
                        ).bindings);
                    }
                }
            },
        }
    }

    /// Folds a whole event stream into a projection, in stream order.
    pub fn from_events(events: Vec<SpecEvent>) -> (r: ShapeProjection)
        ensures
            r.model() == spec_project(events@),
    {
        let mut projection = ShapeProjection::new();
        let n = events.len();
        let ghost all_events = events@;
        let mut remaining = events;
        let mut i: usize = 0;
        while i < n
            invariant
                n == all_events.len(),
                i <= n,
                remaining@ == all_events.skip(i as int),
                projection.model() == spec_project(all_events.subrange(0, i as int)),
            decreases n - i,
        {
            let event = remaining.remove(0);
            proof {
                assert(event == all_events[i as int]);
                assert(remaining@ =~= all_events.skip(i as int + 1));
                let prefix = all_events.subrange(0, i as int + 1);
                assert(prefix.drop_last() =~= all_events.subrange(0, i as int));
                assert(prefix.last() == all_events[i as int]);
            }
            projection.apply(event);
            i += 1;
        }
        proof {
            assert(all_events.subrange(0, n as int) =~= all_events);
        }
        projection
    }
}

/// Appends each id of `src` to `dst`, in order.
fn append_ids(dst: &mut Vec<ShapeParameterId>, src: Vec<ShapeParameterId>)
    ensures
        final(dst)@ == old(dst)@ + src@,
{
    let n = src.len();
    let ghost base = dst@;
    let mut i: usize = 0;
    while i < n
        invariant
            n == src@.len(),
            i <= n,
            dst@ == base + src@.subrange(0, i as int),
        decreases n - i,
    {
        dst.push(src[i].clone());
        proof {
            assert(dst@ =~= base + src@.subrange(0, i as int + 1));
        }
        i += 1;
    }
    proof {
        assert(src@.subrange(0, n as int) =~= src@);
    }
}

/// Whether a vector of ids holds one with these characters.
fn contains_id(ids: &Vec<String>, id: &String) -> (r: bool)
    ensures
        r == ids@.map_values(|s: String| s@).contains(id@),
{
    let n = ids.len();
    let mut i: usize = 0;
    while i < n
        invariant
            n == ids@.len(),
            i <= n,
            forall|j: int| 0 <= j < i ==> (#[trigger] ids@[j])@ != id@,
        decreases n - i,
    {
        if ids[i] == *id {
            proof {
                assert(ids@.map_values(|s: String| s@)[i as int] == id@);
            }
            return true;
        }
        i += 1;
    }
    proof {
        let mapped = ids@.map_values(|s: String| s@);
        if mapped.contains(id@) {
            let j = choose|j: int| 0 <= j < mapped.len() && mapped[j] == id@;
            assert(ids@[j]@ == id@);
        }
    }
    false
}

/// Projection determinism: two projections folded from streams with the same
/// events in the same order are equal at the character level.
pub proof fn lemma_projection_determinism(
    p1: ShapeProjection,
    p2: ShapeProjection,
    events1: Vec<SpecEvent>,
    events2: Vec<SpecEvent>,
)
    requires
        p1.model() == spec_project(events1@),
        p2.model() == spec_project(events2@),
        events1@ == events2@,
    ensures
        p1.model() == p2.model(),
{
}

} // verus!
