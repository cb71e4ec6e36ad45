//! Spec chunks: named bags of spec events, classified as the root bootstrap
//! chunk, a batch chunk with parent linkage, or an unknown chunk kept only
//! for diagnostics.

use vstd::prelude::*;
use vstd::multiset::Multiset;
use crate::events::SpecEvent;

verus! {

/// A named sequence of spec events together with its classification.
#[derive(Debug)]
pub enum SpecChunkEvent {
    Root(RootChunkEvent),
    Batch(BatchChunkEvent),
    Unknown(UnknownChunkEvent),
}

/// The bootstrap chunk; always carries the id `root`.
#[derive(Debug)]
pub struct RootChunkEvent {
    pub id: String,
    pub name: String,
    pub events: Vec<SpecEvent>,
}

/// A chunk opened by a `BatchCommitStarted` event carrying both a batch id
/// and a parent id; those become the chunk's id and parent link.
#[derive(Debug)]
pub struct BatchChunkEvent {
    pub id: String,
    pub name: String,
    pub parent_id: String,
    pub events: Vec<SpecEvent>,
}

/// Any other chunk; it takes no part in the parent-child DAG.
#[derive(Debug)]
pub struct UnknownChunkEvent {
    pub name: String,
    pub events: Vec<SpecEvent>,
}

/// Holds when a chunk's event list opens with a `BatchCommitStarted` that
/// carries a parent id (its batch id is always present).
pub open spec fn starts_with_batch_commit(events: Seq<SpecEvent>) -> bool {
    &&& events.len() > 0
    &&& events[0] matches SpecEvent::BatchCommitStarted(first) && first.parent_id is Some
}

/// The ids of a batch chunk equal the ids of the `BatchCommitStarted` event
/// that opens its event list.
pub open spec fn batch_ids_match(events: Seq<SpecEvent>, b: BatchChunkEvent) -> bool {
    events[0] matches SpecEvent::BatchCommitStarted(first)
        && b.id == first.batch_id
        && (first.parent_id matches Some(p) && b.parent_id == p)
}

/// Exactly what `classify_chunk` returns for every input: a `Root` chunk when
/// `is_root`, a `Batch` chunk carrying the opening event's ids when the events
/// start with a full `BatchCommitStarted`, an `Unknown` chunk otherwise; the
/// name and the events are kept whole in every case.
pub open spec fn classify_post(
    name: String,
    is_root: bool,
    events: Vec<SpecEvent>,
    chunk: SpecChunkEvent,
) -> bool {
    &&& (is_root ==> (chunk matches SpecChunkEvent::Root(root) && root.id@ == "root"@
        && root.name == name && root.events == events))
    &&& (!is_root && starts_with_batch_commit(events@) ==> (chunk
        matches SpecChunkEvent::Batch(b) && b.name == name && b.events == events
        && batch_ids_match(events@, b)))
    &&& (!is_root && !starts_with_batch_commit(events@) ==> (chunk
        matches SpecChunkEvent::Unknown(u) && u.name == name && u.events == events))
}

impl SpecChunkEvent {
    /// The events this chunk carries, in insertion order.
    pub open spec fn spec_events(self) -> Seq<SpecEvent> {
        match self {
            SpecChunkEvent::Root(c) => c.events@,
            SpecChunkEvent::Batch(c) => c.events@,
            SpecChunkEvent::Unknown(c) => c.events@,
        }
    }

    /// Classifies a named bag of events into a chunk: the bootstrap file maps
    /// to `Root` with id `root`; otherwise a leading `BatchCommitStarted`
    /// carrying both ids makes a `Batch`, and anything else an `Unknown`.
    pub fn classify_chunk(name: String, is_root: bool, events: Vec<SpecEvent>) -> (chunk:
        SpecChunkEvent)
        ensures
            classify_post(name, is_root, events, chunk),
    {
        if is_root {
            SpecChunkEvent::Root(RootChunkEvent { id: "root".to_owned(), name, events })
        } else {
            match BatchChunkEvent::try_from(name, events) {
                Ok(batch_chunk) => SpecChunkEvent::Batch(batch_chunk),
                Err((_msg, name, events)) => SpecChunkEvent::Unknown(
                    UnknownChunkEvent { name, events },
                ),
            }
        }
    }

    /// Gives the chunk's events out in insertion order, whole.
    pub fn into_events_iter(self) -> (r: Vec<SpecEvent>)
        ensures
            r@ == self.spec_events(),
    {
        match self {
            SpecChunkEvent::Root(chunk) => chunk.events,
            SpecChunkEvent::Batch(chunk) => chunk.events,
            SpecChunkEvent::Unknown(chunk) => chunk.events,
        }
    }

    /// The tag this chunk kind is persisted under.
    pub fn event_type(&self) -> (r: &'static str)
        ensures
            self matches SpecChunkEvent::Root(_) ==> r@ == "RootChunkEvent"@,
            self matches SpecChunkEvent::Batch(_) ==> r@ == "BatchChunkEvent"@,
            self matches SpecChunkEvent::Unknown(_) ==> r@ == "UnknownChunkEvent"@,
    {
        match self {
            SpecChunkEvent::Root(evt) => evt.event_type(),
            SpecChunkEvent::Batch(evt) => evt.event_type(),
            SpecChunkEvent::Unknown(evt) => evt.event_type(),
        }
    }
}

impl RootChunkEvent {
    /// The tag this chunk kind is persisted under.
    pub fn event_type(&self) -> (r: &'static str)
        ensures
            r@ == "RootChunkEvent"@,
    {
        "RootChunkEvent"
    }
}

impl BatchChunkEvent {
    /// The tag this chunk kind is persisted under.
    pub fn event_type(&self) -> (r: &'static str)
        ensures
            r@ == "BatchChunkEvent"@,
    {
        "BatchChunkEvent"
    }

    /// Builds a batch chunk from a named bag of events, when its first event
    /// is a `BatchCommitStarted` carrying both ids; otherwise hands the name
    /// and the events back with the reason.
    pub fn try_from(name: String, events: Vec<SpecEvent>) -> (r: Result<
        BatchChunkEvent,
        (&'static str, String, Vec<SpecEvent>),
    >)
        ensures
            starts_with_batch_commit(events@) ==> (r matches Ok(b) && b.name == name
                && b.events == events && batch_ids_match(events@, b)),
            !starts_with_batch_commit(events@) ==> (r matches Err(e) && e.1 == name
                && e.2 == events
                && e.0@ == "Chunk does not start with a BatchCommitStarted with batchId and parentId"@),
    {
        let batch_ids: Option<(String, String)> = if events.len() > 0 {
            match &events[0] {
                SpecEvent::BatchCommitStarted(first) => match &first.parent_id {
                    Some(parent_id) => Some((first.batch_id.clone(), parent_id.clone())),
                    None => None,
                },
                _ => None,
            }
        } else {
            None
        };

        if let Some((id, parent_id)) = batch_ids {
            Ok(BatchChunkEvent { id, name, parent_id, events })
        } else {
            Err((
                "Chunk does not start with a BatchCommitStarted with batchId and parentId",
                name,
                events,
            ))
        }
    }
}

impl UnknownChunkEvent {
    /// The tag this chunk kind is persisted under.
    pub fn event_type(&self) -> (r: &'static str)
        ensures
            r@ == "UnknownChunkEvent"@,
    {
        "UnknownChunkEvent"
    }
}

/// The name a chunk was loaded under, for the replay tie-break.
pub open spec fn spec_chunk_name(c: SpecChunkEvent) -> Seq<char> {
    match c {
        SpecChunkEvent::Root(r) => r.name@,
        SpecChunkEvent::Batch(b) => b.name@,
        SpecChunkEvent::Unknown(u) => u.name@,
    }
}

/// Whether a chunk carries this id; unknown chunks carry none.
pub open spec fn chunk_has_id(c: SpecChunkEvent, id: Seq<char>) -> bool {
    match c {
        SpecChunkEvent::Root(r) => r.id@ == id,
        SpecChunkEvent::Batch(b) => b.id@ == id,
        SpecChunkEvent::Unknown(_) => false,
    }
}

/// Whether a chunk takes part in the parent-child DAG.
pub open spec fn is_participating(c: SpecChunkEvent) -> bool {
    !(c is Unknown)
}

/// The chunks that take part in the parent-child DAG, in their order.
pub open spec fn participating_chunks(chunks: Seq<SpecChunkEvent>) -> Seq<SpecChunkEvent> {
    chunks.filter(|c: SpecChunkEvent| is_participating(c))
}

/// Whether some chunk of the list carries this id.
pub open spec fn some_chunk_has_id(s: Seq<SpecChunkEvent>, id: Seq<char>) -> bool {
    exists|j: int| 0 <= j < s.len() && chunk_has_id(#[trigger] s[j], id)
}

/// Whether some id of the list has these characters.
pub open spec fn list_has_id(ids: Seq<String>, id: Seq<char>) -> bool {
    exists|j: int| 0 <= j < ids.len() && (#[trigger] ids[j])@ == id
}

/// Whether a chunk may be replayed next: the root always, a batch once its
/// parent is already placed — or right away when no chunk of the whole
/// input carries its parent id, so that an orphaned batch cannot block the
/// replay. Unknown chunks are never replayed.
pub open spec fn spec_placeable(
    c: SpecChunkEvent,
    placed: Seq<SpecChunkEvent>,
    all: Seq<SpecChunkEvent>,
) -> bool {
    match c {
        SpecChunkEvent::Root(_) => true,
        SpecChunkEvent::Batch(b) => some_chunk_has_id(placed, b.parent_id@)
            || !some_chunk_has_id(all, b.parent_id@),
        SpecChunkEvent::Unknown(_) => false,
    }
}

/// Whether some chunk of the placed list carries this id.
fn placed_has_id(placed: &Vec<SpecChunkEvent>, id: &String) -> (r: bool)
    ensures
        r == some_chunk_has_id(placed@, id@),
{
    let n = placed.len();
    let mut i: usize = 0;
    while i < n
        invariant
            n == placed@.len(),
            i <= n,
            forall|j: int| 0 <= j < i ==> !chunk_has_id(#[trigger] placed@[j], id@),
        decreases n - i,
    {
        let holds_id = match &placed[i] {
            SpecChunkEvent::Root(r) => r.id == *id,
            SpecChunkEvent::Batch(b) => b.id == *id,
            SpecChunkEvent::Unknown(_) => false,
        };
        if holds_id {
            proof {
                assert(chunk_has_id(placed@[i as int], id@));
            }
            return true;
        }
        i += 1;
    }
    false
}

/// Whether some id of the list has the same characters as this one.
fn ids_contain(ids: &Vec<String>, id: &String) -> (r: bool)
    ensures
        r == list_has_id(ids@, id@),
{
    let n = ids.len();
    let mut i: usize = 0;
    while i < n
        invariant
            n == ids@.len(),
            i <= n,
            forall|j: int| 0 <= j < i ==> (#[trigger] ids@[j])@ != id@,
        decreases n - i,
    {
        if ids[i] == *id {
            return true;
        }
        i += 1;
    }
    false
}

/// Whether this chunk may be replayed next, deciding parent existence
/// through the precollected ids of the whole input.
fn chunk_placeable(
    c: &SpecChunkEvent,
    placed: &Vec<SpecChunkEvent>,
    known_ids: &Vec<String>,
    Ghost(all): Ghost<Seq<SpecChunkEvent>>,
) -> (r: bool)
    requires
        forall|id: Seq<char>| #[trigger] list_has_id(known_ids@, id) <==> some_chunk_has_id(
            all,
            id,
        ),
    ensures
        r == spec_placeable(*c, placed@, all),
{
    match c {
        SpecChunkEvent::Root(_) => true,
        SpecChunkEvent::Batch(b) => {
            if placed_has_id(placed, &b.parent_id) {
                true
            } else {
                !ids_contain(known_ids, &b.parent_id)
            }
        },
        SpecChunkEvent::Unknown(_) => false,
    }
}

/// Strict lexicographic order on names, character by character; a proper
/// prefix sorts first.
pub open spec fn name_chars_lt(a: Seq<char>, b: Seq<char>) -> bool
    decreases a.len(),
{
    if b.len() == 0 {
        false
    } else if a.len() == 0 {
        true
    } else if a[0] != b[0] {
        (a[0] as u32) < (b[0] as u32)
    } else {
        name_chars_lt(a.drop_first(), b.drop_first())
    }
}

/// No name sorts strictly before itself.
pub proof fn lemma_name_chars_lt_irreflexive(a: Seq<char>)
    ensures
        !name_chars_lt(a, a),
    decreases a.len(),
{
    if a.len() > 0 {
        lemma_name_chars_lt_irreflexive(a.drop_first());
    }
}

/// The order on names is transitive.
pub proof fn lemma_name_chars_lt_transitive(a: Seq<char>, b: Seq<char>, c: Seq<char>)
    requires
        name_chars_lt(a, b),
        name_chars_lt(b, c),
    ensures
        name_chars_lt(a, c),
    decreases a.len(),
{
    if a.len() > 0 && b.len() > 0 && c.len() > 0 {
        if a[0] == b[0] && b[0] == c[0] {
            lemma_name_chars_lt_transitive(a.drop_first(), b.drop_first(), c.drop_first());
        }
    }
}

/// Whether the first name sorts strictly before the second.
fn name_lt(a: &String, b: &String) -> (r: bool)
    ensures
        r == name_chars_lt(a@, b@),
{
    let a_str = a.as_str();
    let b_str = b.as_str();
    let a_len = a_str.unicode_len();
    let b_len = b_str.unicode_len();
    let mut i: usize = 0;
    proof {
        assert(a@.skip(0) =~= a@);
        assert(b@.skip(0) =~= b@);
    }
    while i < a_len && i < b_len
        invariant
            a_len == a@.len(),
            b_len == b@.len(),
            a_str@ == a@,
            b_str@ == b@,
            i <= a_len,
            i <= b_len,
            name_chars_lt(a@, b@) == name_chars_lt(a@.skip(i as int), b@.skip(i as int)),
        decreases a_len - i,
    {
        let ca = a_str.get_char(i);
        let cb = b_str.get_char(i);
        proof {
            assert(a@.skip(i as int)[0] == a@[i as int]);
            assert(b@.skip(i as int)[0] == b@[i as int]);
        }
        if ca != cb {
            return (ca as u32) < (cb as u32);
        }
        proof {
            assert(a@.skip(i as int).drop_first() =~= a@.skip(i as int + 1));
            assert(b@.skip(i as int).drop_first() =~= b@.skip(i as int + 1));
        }
        i += 1;
    }
    proof {
        assert(a@.skip(i as int).len() == a_len - i);
        assert(b@.skip(i as int).len() == b_len - i);
    }
    a_len < b_len
}

/// The name of a chunk, for the tie-break.
fn chunk_name_of(c: &SpecChunkEvent) -> (r: &String)
    ensures
        r@ == spec_chunk_name(*c),
{
    match c {
        SpecChunkEvent::Root(r) => &r.name,
        SpecChunkEvent::Batch(b) => &b.name,
        SpecChunkEvent::Unknown(u) => &u.name,
    }
}

/// Orders chunks for replay: topological by parent link — the root chunks
/// first, each batch after its parent — breaking ties by chunk name
/// ascending, character by character. Unknown chunks take no part and are
/// left out.
/// A batch whose parent id no chunk carries is replayed as if free, and
/// when a cycle leaves nothing placeable the name-least chunk is forced, so
/// the replay always completes: the result holds exactly the root and batch
/// chunks; each one was placeable when placed unless nothing was, and none
/// of the chunks still waiting had a smaller name.
pub fn replay_order(chunks: Vec<SpecChunkEvent>) -> (r: Vec<SpecChunkEvent>)
    ensures
        r@.to_multiset() == participating_chunks(chunks@).to_multiset(),
        forall|i: int|
            0 <= i < r@.len() ==> (spec_placeable(#[trigger] r@[i], r@.subrange(0, i), chunks@)
                || (forall|x: SpecChunkEvent|
                #[trigger] participating_chunks(chunks@).to_multiset().sub(
                    r@.subrange(0, i).to_multiset(),
                ).count(x) > 0 ==> !spec_placeable(x, r@.subrange(0, i), chunks@))),
        forall|i: int, x: SpecChunkEvent|
            0 <= i < r@.len() && #[trigger] participating_chunks(chunks@).to_multiset().sub(
                r@.subrange(0, i).to_multiset(),
            ).count(x) > 0 && spec_placeable(x, r@.subrange(0, i), chunks@) && spec_placeable(
                r@[i],
                r@.subrange(0, i),
                chunks@,
            ) ==> !name_chars_lt(spec_chunk_name(x), spec_chunk_name(r@[i])),
        forall|i: int, x: SpecChunkEvent|
            0 <= i < r@.len() && #[trigger] participating_chunks(chunks@).to_multiset().sub(
                r@.subrange(0, i).to_multiset(),
            ).count(x) > 0 && !spec_placeable(r@[i], r@.subrange(0, i), chunks@)
                ==> !name_chars_lt(spec_chunk_name(x), spec_chunk_name(r@[i])),
{
    broadcast use vstd::seq_lib::group_to_multiset_ensures;

    let ghost all = chunks@;

    // Collect every id the input carries, so that orphaned parents can be
    // recognized after the chunks move into the worklist.
    let mut known_ids: Vec<String> = Vec::new();
    let total = chunks.len();
    let mut i: usize = 0;
    while i < total
        invariant
            total == all.len(),
            chunks@ == all,
            i <= total,
            forall|id: Seq<char>| #[trigger] list_has_id(known_ids@, id) <==> some_chunk_has_id(
                all.subrange(0, i as int),
                id,
            ),
        decreases total - i,
    {
        let ghost ids_before = known_ids@;
        match &chunks[i] {
            SpecChunkEvent::Root(rc) => known_ids.push(rc.id.clone()),
            SpecChunkEvent::Batch(bc) => known_ids.push(bc.id.clone()),
            SpecChunkEvent::Unknown(_) => (),
        }
        proof {
            assert forall|id: Seq<char>| #[trigger] list_has_id(known_ids@, id)
                implies some_chunk_has_id(all.subrange(0, i as int + 1), id) by {
                let j = choose|j: int| 0 <= j < known_ids@.len() && known_ids@[j]@ == id;
                if j < ids_before.len() {
                    assert(list_has_id(ids_before, id));
                    let k = choose|k: int|
                        0 <= k < i && chunk_has_id(#[trigger] all.subrange(0, i as int)[k], id);
                    assert(chunk_has_id(all.subrange(0, i as int + 1)[k], id));
                } else {
                    assert(chunk_has_id(all.subrange(0, i as int + 1)[i as int], id));
                }
            }
            assert forall|id: Seq<char>| some_chunk_has_id(all.subrange(0, i as int + 1), id)
                implies #[trigger] list_has_id(known_ids@, id) by {
                let k = choose|k: int|
                    0 <= k < i + 1 && chunk_has_id(#[trigger] all.subrange(0, i as int + 1)[k], id);
                if k < i {
                    assert(chunk_has_id(all.subrange(0, i as int)[k], id));
                    assert(list_has_id(ids_before, id));
                    let j = choose|j: int| 0 <= j < ids_before.len() && ids_before[j]@ == id;
                    assert(known_ids@[j]@ == id);
                } else {
                    assert(known_ids@[known_ids@.len() - 1]@ == id);
                }
            }
        }
        i += 1;
    }
    proof {
        assert(all.subrange(0, total as int) =~= all);
    }

    // Keep only the chunks that take part in the DAG.
    let mut source = chunks;
    let mut remaining: Vec<SpecChunkEvent> = Vec::new();
    let mut taken: usize = 0;
    proof {
        assert(participating_chunks(all.subrange(0, 0)) =~= Seq::<SpecChunkEvent>::empty()) by {
            reveal(Seq::filter);
        }
    }
    while taken < total
        invariant
            total == all.len(),
            taken <= total,
            source@ == all.skip(taken as int),
            remaining@ == participating_chunks(all.subrange(0, taken as int)),
        decreases total - taken,
    {
        let ghost prefix = all.subrange(0, taken as int);
        let ghost next_prefix = all.subrange(0, taken as int + 1);
        proof {
            assert(next_prefix.drop_last() =~= prefix);
            assert(next_prefix.last() == all[taken as int]);
            reveal(Seq::filter);
        }
        let chunk = source.remove(0);
        proof {
            assert(source@ =~= all.skip(taken as int + 1));
        }
        let participating = !matches!(chunk, SpecChunkEvent::Unknown(_));
        if participating {
            remaining.push(chunk);
        }
        taken += 1;
    }
    proof {
        assert(all.subrange(0, total as int) =~= all);
    }

    // Replay greedily: of everything placeable, the name-least chunk next.
    let ghost target = participating_chunks(all).to_multiset();
    let mut out: Vec<SpecChunkEvent> = Vec::new();
    while remaining.len() > 0
        invariant
            out@.to_multiset().add(remaining@.to_multiset()) == target,
            target == participating_chunks(all).to_multiset(),
            forall|id: Seq<char>| #[trigger] list_has_id(known_ids@, id) <==> some_chunk_has_id(
                all,
                id,
            ),
            forall|i2: int|
                0 <= i2 < out@.len() ==> (spec_placeable(
                    #[trigger] out@[i2],
                    out@.subrange(0, i2),
                    all,
                ) || (forall|x: SpecChunkEvent|
                    #[trigger] target.sub(out@.subrange(0, i2).to_multiset()).count(x) > 0
                        ==> !spec_placeable(x, out@.subrange(0, i2), all))),
            forall|i2: int, x: SpecChunkEvent|
                0 <= i2 < out@.len() && #[trigger] target.sub(
                    out@.subrange(0, i2).to_multiset(),
                ).count(x) > 0 && spec_placeable(x, out@.subrange(0, i2), all) && spec_placeable(
                    out@[i2],
                    out@.subrange(0, i2),
                    all,
                ) ==> !name_chars_lt(spec_chunk_name(x), spec_chunk_name(out@[i2])),
            forall|i2: int, x: SpecChunkEvent|
                0 <= i2 < out@.len() && #[trigger] target.sub(
                    out@.subrange(0, i2).to_multiset(),
                ).count(x) > 0 && !spec_placeable(out@[i2], out@.subrange(0, i2), all)
                    ==> !name_chars_lt(spec_chunk_name(x), spec_chunk_name(out@[i2])),
        decreases remaining@.len(),
    {
        let n = remaining.len();
        let mut best: usize = 0;
        let mut found_placeable = chunk_placeable(&remaining[0], &out, &known_ids, Ghost(all));
        let mut j: usize = 1;
        proof {
            lemma_name_chars_lt_irreflexive(spec_chunk_name(remaining@[0]));
        }
        while j < n
            invariant
                n == remaining@.len(),
                0 < n,
                1 <= j <= n,
                best < j,
                forall|id: Seq<char>| #[trigger] list_has_id(known_ids@, id)
                    <==> some_chunk_has_id(all, id),
                found_placeable ==> spec_placeable(remaining@[best as int], out@, all),
                found_placeable ==> forall|t: int|
                    0 <= t < j && spec_placeable(#[trigger] remaining@[t], out@, all)
                        ==> !name_chars_lt(
                        spec_chunk_name(remaining@[t]),
                        spec_chunk_name(remaining@[best as int]),
                    ),
                !found_placeable ==> forall|t: int|
                    0 <= t < j ==> !spec_placeable(#[trigger] remaining@[t], out@, all),
                !found_placeable ==> forall|t: int|
                    0 <= t < j ==> !name_chars_lt(
                        spec_chunk_name(#[trigger] remaining@[t]),
                        spec_chunk_name(remaining@[best as int]),
                    ),
            decreases n - j,
        {
            let placeable = chunk_placeable(&remaining[j], &out, &known_ids, Ghost(all));
            let j_name_less = name_lt(chunk_name_of(&remaining[j]), chunk_name_of(
                &remaining[best],
            ));
            let ghost old_best = best as int;
            proof {
                lemma_name_chars_lt_irreflexive(spec_chunk_name(remaining@[j as int]));
            }
            if placeable {
                if !found_placeable {
                    best = j;
                    found_placeable = true;
                } else if j_name_less {
                    best = j;
                    proof {
                        assert forall|t: int|
                            0 <= t < j + 1 && spec_placeable(
                                #[trigger] remaining@[t],
                                out@,
                                all,
                            ) implies !name_chars_lt(
                            spec_chunk_name(remaining@[t]),
                            spec_chunk_name(remaining@[j as int]),
                        ) by {
                            if t < j && name_chars_lt(
                                spec_chunk_name(remaining@[t]),
                                spec_chunk_name(remaining@[j as int]),
                            ) {
                                lemma_name_chars_lt_transitive(
                                    spec_chunk_name(remaining@[t]),
                                    spec_chunk_name(remaining@[j as int]),
                                    spec_chunk_name(remaining@[old_best]),
                                );
                            }
                        }
                    }
                }
            } else {
                if !found_placeable && j_name_less {
                    best = j;
                    proof {
                        assert forall|t: int| 0 <= t < j + 1 implies !name_chars_lt(
                            spec_chunk_name(#[trigger] remaining@[t]),
                            spec_chunk_name(remaining@[j as int]),
                        ) by {
                            if t < j && name_chars_lt(
                                spec_chunk_name(remaining@[t]),
                                spec_chunk_name(remaining@[j as int]),
                            ) {
                                lemma_name_chars_lt_transitive(
                                    spec_chunk_name(remaining@[t]),
                                    spec_chunk_name(remaining@[j as int]),
                                    spec_chunk_name(remaining@[old_best]),
                                );
                            }
                        }
                    }
                }
            }
            j += 1;
        }
        let ghost out_before = out@;
        let ghost remaining_before = remaining@;
        let ghost chosen_ghost = remaining@[best as int];
        let chosen = remaining.remove(best);
        out.push(chosen);
        proof {
            remaining_before.to_multiset_ensures();
            out_before.to_multiset_ensures();
            remaining@.to_multiset_ensures();
            out@.to_multiset_ensures();
            assert(remaining@ =~= remaining_before.remove(best as int));
            assert(out@ =~= out_before.push(chosen_ghost));
            assert(remaining_before.contains(chosen_ghost));
            assert(remaining_before.to_multiset().count(chosen_ghost) > 0);
            assert(remaining@.to_multiset() =~= remaining_before.to_multiset().remove(
                chosen_ghost,
            ));
            assert(out@.to_multiset() =~= out_before.to_multiset().insert(chosen_ghost));
            assert(out@.to_multiset().add(remaining@.to_multiset()) =~= target);
            assert(out@.subrange(0, out_before.len() as int) =~= out_before);
            assert forall|i2: int|
                0 <= i2 < out@.len() implies (spec_placeable(
                #[trigger] out@[i2],
                out@.subrange(0, i2),
                all,
            ) || (forall|x: SpecChunkEvent|
                #[trigger] target.sub(out@.subrange(0, i2).to_multiset()).count(x) > 0
                    ==> !spec_placeable(x, out@.subrange(0, i2), all))) by {
                if i2 < out_before.len() {
                    assert(out@.subrange(0, i2) =~= out_before.subrange(0, i2));
                    assert(out@[i2] == out_before[i2]);
                } else {
                    assert(out@[i2] == chosen_ghost);
                    assert(out@.subrange(0, i2) =~= out_before);
                    if found_placeable {
                        assert(spec_placeable(out@[i2], out@.subrange(0, i2), all));
                    } else {
                        assert forall|x: SpecChunkEvent|
                            #[trigger] target.sub(out_before.to_multiset()).count(x) > 0
                                implies !spec_placeable(x, out_before, all) by {
                            remaining_before.to_multiset_ensures();
                            assert(target.sub(out_before.to_multiset())
                                =~= remaining_before.to_multiset());
                            assert(remaining_before.to_multiset().count(x) > 0);
                            assert(remaining_before.contains(x));
                            let t = choose|t: int|
                                0 <= t < remaining_before.len() && remaining_before[t] == x;
                            assert(!spec_placeable(remaining_before[t], out_before, all));
                        }
                    }
                }
            }
            assert forall|i2: int, x: SpecChunkEvent|
                0 <= i2 < out@.len() && #[trigger] target.sub(
                    out@.subrange(0, i2).to_multiset(),
                ).count(x) > 0 && spec_placeable(x, out@.subrange(0, i2), all) && spec_placeable(
                out@[i2],
                out@.subrange(0, i2),
                all,
            ) implies !name_chars_lt(spec_chunk_name(x), spec_chunk_name(out@[i2])) by {
                if i2 < out_before.len() {
                    assert(out@.subrange(0, i2) =~= out_before.subrange(0, i2));
                    assert(out@[i2] == out_before[i2]);
                } else {
                    assert(out@[i2] == chosen_ghost);
                    assert(out@.subrange(0, i2) =~= out_before);
                    assert(target.sub(out_before.to_multiset())
                        =~= remaining_before.to_multiset());
                    remaining_before.to_multiset_ensures();
                    assert(remaining_before.contains(x));
                    let t = choose|t: int|
                        0 <= t < remaining_before.len() && remaining_before[t] == x;
                    if !found_placeable {
                        assert(!spec_placeable(remaining_before[best as int], out_before, all));
                    } else {
                        assert(!name_chars_lt(
                            spec_chunk_name(remaining_before[t]),
                            spec_chunk_name(remaining_before[best as int]),
                        ));
                    }
                }
            }
            assert forall|i2: int, x: SpecChunkEvent|
                0 <= i2 < out@.len() && #[trigger] target.sub(
                    out@.subrange(0, i2).to_multiset(),
                ).count(x) > 0 && !spec_placeable(out@[i2], out@.subrange(0, i2), all)
                implies !name_chars_lt(spec_chunk_name(x), spec_chunk_name(out@[i2])) by {
                if i2 < out_before.len() {
                    assert(out@.subrange(0, i2) =~= out_before.subrange(0, i2));
                    assert(out@[i2] == out_before[i2]);
                } else {
                    assert(out@[i2] == chosen_ghost);
                    assert(out@.subrange(0, i2) =~= out_before);
                    assert(target.sub(out_before.to_multiset())
                        =~= remaining_before.to_multiset());
                    remaining_before.to_multiset_ensures();
                    assert(remaining_before.contains(x));
                    let t = choose|t: int|
                        0 <= t < remaining_before.len() && remaining_before[t] == x;
                    if found_placeable {
                        assert(spec_placeable(remaining_before[best as int], out_before, all));
                    } else {
                        assert(!name_chars_lt(
                            spec_chunk_name(remaining_before[t]),
                            spec_chunk_name(remaining_before[best as int]),
                        ));
                    }
                }
            }
        }
    }
    proof {
        remaining@.to_multiset_ensures();
        assert(remaining@.to_multiset() =~= Multiset::<SpecChunkEvent>::empty());
        assert(out@.to_multiset() =~= target);
    }
    out
}

/// Event count preservation: however a chunk was classified, it carries
/// exactly the events it was built from, in their order.
pub proof fn lemma_classified_chunk_preserves_events(
    name: String,
    is_root: bool,
    events: Vec<SpecEvent>,
    chunk: SpecChunkEvent,
)
    requires
        classify_post(name, is_root, events, chunk),
    ensures
        chunk.spec_events() == events@,
        chunk.spec_events().len() == events@.len(),
{
}

} // verus!
