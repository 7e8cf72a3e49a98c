//! Chunk lifecycle handling: reacting to load and unload requests against
//! the registry, arming the one-shot generation signal, and attaching a
//! finished height grid to its chunk record when a readback arrives.

use vstd::prelude::*;

use crate::height_map::{classify_spec, transform_to_height_map, HeightMap};
use crate::perlin::NoiseGenerationRequest;
use crate::{lemma_coordinate_key_injective, ChunkData, ChunkMap, Coordinate, LoadChunkEvent, UnloadChunkEvent};

verus! {

broadcast use vstd::std_specs::hash::group_hash_axioms;

/// The registry contents after a load request: unchanged if the coordinate
/// is already resident, otherwise extended by a provisional record (no
/// height grid yet) for it.
pub open spec fn loaded_chunks(
    chunks: Map<u64, ChunkData>,
    position: Coordinate,
    entity: u64,
) -> Map<u64, ChunkData> {
    if chunks.contains_key(position.key_spec()) {
        chunks
    } else {
        chunks.insert(position.key_spec(), ChunkData { entity, height_map: None })
    }
}

/// The signal slot after a load request: armed exactly when the coordinate
/// was not yet resident, untouched otherwise.
pub open spec fn armed_signal(
    chunks: Map<u64, ChunkData>,
    position: Coordinate,
    request: NoiseGenerationRequest,
) -> NoiseGenerationRequest {
    if chunks.contains_key(position.key_spec()) {
        request
    } else {
        NoiseGenerationRequest::Generate
    }
}

/// Handle one load request. If the coordinate is already resident this is a
/// no-op; otherwise a provisional record holding the given entity handle is
/// inserted and the generation signal is armed. Exactly one arm happens per
/// previously-absent coordinate.
pub fn request_load(
    map: &mut ChunkMap,
    request: &mut NoiseGenerationRequest,
    position: Coordinate,
    entity: u64,
) -> (accepted: bool)
    ensures
        accepted == !old(map).resident(position),
        final(map).chunks@ == loaded_chunks(old(map).chunks@, position, entity),
        *final(request) == armed_signal(old(map).chunks@, position, *old(request)),
        final(map).chunk_size == old(map).chunk_size,
{
    let key = position.key();
    if map.chunks.contains_key(&key) {
        false
    } else {
        map.chunks.insert(key, ChunkData { entity, height_map: None });
        *request = NoiseGenerationRequest::Generate;
        true
    }
}

/// Handle one unload request: remove the record for the coordinate if it is
/// resident and hand back its entity handle for release; on an absent
/// coordinate this is a no-op, not an error.
pub fn request_unload(map: &mut ChunkMap, position: Coordinate) -> (removed: Option<u64>)
    ensures
        final(map).chunks@ == old(map).chunks@.remove(position.key_spec()),
        !old(map).resident(position) ==> final(map).chunks@ == old(map).chunks@,
        removed == if old(map).resident(position) {
            Some(old(map).record_of(position).entity)
        } else {
            None::<u64>
        },
        final(map).chunk_size == old(map).chunk_size,
{
    let key = position.key();
    let taken = map.chunks.remove(&key);
    proof {
        if !old(map).chunks@.contains_key(position.key_spec()) {
            assert(old(map).chunks@.remove(position.key_spec()) =~= old(map).chunks@);
        }
    }
    match taken {
        Some(data) => Some(data.entity),
        None => None,
    }
}

/// Handle the asynchronous readback of one generation pass: classify the raw
/// sample buffer into a height grid and attach it to the record for the
/// originating coordinate. A result whose coordinate is no longer resident
/// is stale (unloaded while the dispatch was in flight): it is dropped and
/// the registry is left untouched, never an error. The buffer length must
/// equal the grid area for the given side length.
pub fn attach_generated_map(
    map: &mut ChunkMap,
    position: Coordinate,
    data: Vec<u32>,
    side: usize,
) -> (attached: bool)
    requires
        data@.len() == side * side,
    ensures
        attached == old(map).resident(position),
        !attached ==> final(map).chunks@ == old(map).chunks@,
        attached ==> {
            let record = final(map).chunks@[position.key_spec()];
            &&& final(map).chunks@ == old(map).chunks@.insert(position.key_spec(), record)
            &&& record.entity == old(map).record_of(position).entity
            &&& record.height_map is Some
            &&& record.height_map->Some_0.wf()
            &&& record.height_map->Some_0.side_spec() == side
            &&& forall|i: int|
                0 <= i < side * side ==> record.height_map->Some_0.cells_spec()[i] == classify_spec(
                    data@[i],
                )
        },
        final(map).chunk_size == old(map).chunk_size,
{
    let key = position.key();
    let entity = match map.chunks.get(&key) {
        Some(record) => record.entity,
        None => {
            return false;
        },
    };
    let grid: HeightMap = transform_to_height_map(data, side);
    map.chunks.insert(key, ChunkData { entity, height_map: Some(grid) });
    true
}

/// The combined effect of draining a queue of load requests in order,
/// starting with a given fresh entity handle: the registry, signal slot and
/// next fresh handle after all of them. Each accepted request takes the
/// current handle and advances it; a duplicate request takes nothing.
pub open spec fn load_batch(
    chunks: Map<u64, ChunkData>,
    events: Seq<LoadChunkEvent>,
    request: NoiseGenerationRequest,
    entity: u64,
) -> (Map<u64, ChunkData>, NoiseGenerationRequest, u64)
    decreases events.len(),
{
    if events.len() == 0 {
        (chunks, request, entity)
    } else {
        let position = events[0].position;
        let next_entity: u64 = if chunks.contains_key(position.key_spec()) {
            entity
        } else {
            (entity + 1) as u64
        };
        load_batch(
            loaded_chunks(chunks, position, entity),
            events.skip(1),
            armed_signal(chunks, position, request),
            next_entity,
        )
    }
}

/// Drain one tick's queue of load requests: handle each in order, assigning
/// consecutive entity handles starting at `first_entity` to the accepted
/// ones, and return the next unused handle.
pub fn spawn_chunk_on_event(
    map: &mut ChunkMap,
    request: &mut NoiseGenerationRequest,
    events: &Vec<LoadChunkEvent>,
    first_entity: u64,
) -> (next_entity: u64)
    requires
        first_entity + events@.len() <= u64::MAX,
    ensures
        (final(map).chunks@, *final(request), next_entity) == load_batch(
            old(map).chunks@,
            events@,
            *old(request),
            first_entity,
        ),
        final(map).chunk_size == old(map).chunk_size,
{
    let ghost goal = load_batch(old(map).chunks@, events@, *old(request), first_entity);
    proof {
        assert(events@.skip(0) =~= events@);
    }
    let mut entity: u64 = first_entity;
    let mut i: usize = 0;
    while i < events.len()
        invariant
            i <= events@.len(),
            entity <= first_entity + i,
            first_entity + events@.len() <= u64::MAX,
            map.chunk_size == old(map).chunk_size,
            goal == load_batch(map.chunks@, events@.skip(i as int), *request, entity),
        decreases events@.len() - i,
    {
        proof {
            assert(events@.skip(i as int)[0] == events@[i as int]);
            assert(events@.skip(i as int).skip(1) =~= events@.skip(i as int + 1));
        }
        let accepted = request_load(map, request, events[i].position, entity);
        if accepted {
            entity = entity + 1;
        }
        i = i + 1;
    }
    proof {
        assert(events@.skip(i as int) =~= Seq::<LoadChunkEvent>::empty());
    }
    entity
}

/// The combined effect of draining a queue of unload requests in order: the
/// registry after all of them, and the released entity handles of the
/// removed records, in request order.
pub open spec fn unload_batch(
    chunks: Map<u64, ChunkData>,
    events: Seq<UnloadChunkEvent>,
) -> (Map<u64, ChunkData>, Seq<u64>)
    decreases events.len(),
{
    if events.len() == 0 {
        (chunks, Seq::<u64>::empty())
    } else {
        let position = events[0].position;
        let released: Seq<u64> = if chunks.contains_key(position.key_spec()) {
            seq![chunks[position.key_spec()].entity]
        } else {
            Seq::<u64>::empty()
        };
        let rest = unload_batch(chunks.remove(position.key_spec()), events.skip(1));
        (rest.0, released + rest.1)
    }
}

/// Drain one tick's queue of unload requests: remove each resident record in
/// order and hand back the released entity handles for the caller to
/// despawn. Absent coordinates are skipped without error.
pub fn despawn_chunk_on_event(
    map: &mut ChunkMap,
    events: &Vec<UnloadChunkEvent>,
) -> (released: Vec<u64>)
    ensures
        (final(map).chunks@, released@) == unload_batch(old(map).chunks@, events@),
        final(map).chunk_size == old(map).chunk_size,
{
    let ghost goal = unload_batch(old(map).chunks@, events@);
    proof {
        assert(events@.skip(0) =~= events@);
        assert(Seq::<u64>::empty() + unload_batch(old(map).chunks@, events@).1 =~= unload_batch(
            old(map).chunks@,
            events@,
        ).1);
    }
    let mut released: Vec<u64> = Vec::new();
    let mut i: usize = 0;
    while i < events.len()
        invariant
            i <= events@.len(),
            map.chunk_size == old(map).chunk_size,
            goal.0 == unload_batch(map.chunks@, events@.skip(i as int)).0,
            goal.1 =~= released@ + unload_batch(map.chunks@, events@.skip(i as int)).1,
        decreases events@.len() - i,
    {
        proof {
            assert(events@.skip(i as int)[0] == events@[i as int]);
            assert(events@.skip(i as int).skip(1) =~= events@.skip(i as int + 1));
        }
        let removed = request_unload(map, events[i].position);
        if let Some(entity) = removed {
            released.push(entity);
        }
        i = i + 1;
    }
    proof {
        assert(events@.skip(i as int) =~= Seq::<UnloadChunkEvent>::empty());
        assert(released@ + Seq::<u64>::empty() =~= released@);
    }
    released
}

/// A load request for an absent coordinate leaves the registry with exactly
/// one record for that coordinate — the fresh provisional one — and leaves
/// every other coordinate's record as it was.
pub proof fn lemma_load_makes_resident(
    chunks: Map<u64, ChunkData>,
    position: Coordinate,
    entity: u64,
)
    ensures
        loaded_chunks(chunks, position, entity).contains_key(position.key_spec()),
        !chunks.contains_key(position.key_spec()) ==> loaded_chunks(chunks, position, entity)[
            position.key_spec()] == (ChunkData { entity, height_map: None }),
        forall|other: Coordinate|
            other != position ==> (#[trigger] loaded_chunks(chunks, position, entity).contains_key(
                other.key_spec(),
            )) == chunks.contains_key(other.key_spec()),
        forall|other: Coordinate|
            other != position && chunks.contains_key(other.key_spec())
                ==> #[trigger] loaded_chunks(chunks, position, entity)[other.key_spec()] == chunks[
                other.key_spec()],
{
    assert forall|other: Coordinate| other != position implies (#[trigger] loaded_chunks(
        chunks,
        position,
        entity,
    ).contains_key(other.key_spec())) == chunks.contains_key(other.key_spec()) by {
        if other.key_spec() == position.key_spec() {
            lemma_coordinate_key_injective(other, position);
        }
    }
    assert forall|other: Coordinate|
        other != position && chunks.contains_key(other.key_spec()) implies #[trigger] loaded_chunks(
        chunks,
        position,
        entity,
    )[other.key_spec()] == chunks[other.key_spec()] by {
        if other.key_spec() == position.key_spec() {
            lemma_coordinate_key_injective(other, position);
        }
    }
}

/// Loading the same not-yet-resident coordinate twice is the same as loading
/// it once: the second request finds the record resident, changes nothing,
/// and arms the signal no further — the signal is armed exactly once.
pub proof fn lemma_request_load_idempotent(
    chunks: Map<u64, ChunkData>,
    position: Coordinate,
    first_entity: u64,
    second_entity: u64,
    request: NoiseGenerationRequest,
)
    ensures
        loaded_chunks(loaded_chunks(chunks, position, first_entity), position, second_entity)
            == loaded_chunks(chunks, position, first_entity),
        armed_signal(
            loaded_chunks(chunks, position, first_entity),
            position,
            armed_signal(chunks, position, request),
        ) == armed_signal(chunks, position, request),
{
}

} // verus!
