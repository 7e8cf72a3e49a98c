//! Procedural terrain generation core for a tiled, chunk-based world.
//!
//! A chunk is a fixed-size square region of the world addressed by an integer
//! grid coordinate. On demand the pipeline turns a chunk coordinate into a
//! classified height grid: a compute backend fills a raw sample buffer, the
//! samples are classified into discrete terrain levels, and a border matcher
//! locates seams between adjacent terrain types for mesh stitching.
//!
//! The pieces are: [`ChunkMap`], the registry of resident chunks, driven by
//! the load/unload handling in [`chunk_manager`]; the per-tick compute
//! state machine in [`perlin`]; sample classification in [`height_map`];
//! and the border matcher in [`heightmap_to_map`].

use vstd::prelude::*;

pub mod chunk_manager;
pub mod height_map;
pub mod heightmap_to_map;
pub mod perlin;

use crate::height_map::HeightMap;
use std::collections::HashMap;

verus! {

broadcast use vstd::std_specs::hash::group_hash_axioms;

/// Side length, in cells, of one chunk's square grid.
pub const CHUNK_SIZE: usize = 64;

/// Unique chunk address on the integer 2D grid.
#[derive(Clone, Copy, PartialEq, Eq, Structural, Debug, Hash)]
pub struct Coordinate {
    pub x: i32,
    pub y: i32,
}

impl Coordinate {
    /// The registry key a coordinate is stored under: the x axis packed into
    /// the high 32 bits, the y axis into the low 32 bits.
    pub open spec fn key_spec(&self) -> u64 {
        ((self.x as u32 as u64) << 32u64) | (self.y as u32 as u64)
    }

    pub fn key(&self) -> (key: u64)
        ensures
            key == self.key_spec(),
    {
        ((self.x as u32 as u64) << 32u64) | (self.y as u32 as u64)
    }
}

/// Packing a coordinate into a registry key loses nothing: two coordinates
/// with the same key are the same coordinate.
pub proof fn lemma_coordinate_key_injective(a: Coordinate, b: Coordinate)
    requires
        a.key_spec() == b.key_spec(),
    ensures
        a == b,
{
    let ax = a.x;
    let ay = a.y;
    let bx = b.x;
    let by = b.y;
    assert(((ax as u32 as u64) << 32u64) | (ay as u32 as u64) == ((bx as u32 as u64) << 32u64) | (
    by as u32 as u64) ==> ax == bx && ay == by) by (bit_vector);
}

/// Logical data for a single resident chunk: the handle of the entity that
/// represents the chunk in the world, and, once a generation pass for it has
/// completed, its classified height grid.
#[derive(Clone, Debug)]
pub struct ChunkData {
    pub entity: u64,
    pub height_map: Option<HeightMap>,
}

/// An external request that a specific chunk be loaded.
#[derive(Clone, Copy, PartialEq, Eq, Structural, Debug)]
pub struct LoadChunkEvent {
    pub position: Coordinate,
}

/// An external request that a chunk be unloaded.
#[derive(Clone, Copy, PartialEq, Eq, Structural, Debug)]
pub struct UnloadChunkEvent {
    pub position: Coordinate,
}

/// The authoritative registry of currently-resident chunks: each coordinate
/// maps to at most one record at any time, keyed by the packed coordinate.
#[derive(Debug)]
pub struct ChunkMap {
    pub chunks: HashMap<u64, ChunkData>,
    pub chunk_size: i32,
}

impl ChunkMap {
    /// Is a record for this coordinate resident?
    pub open spec fn resident(&self, position: Coordinate) -> bool {
        self.chunks@.contains_key(position.key_spec())
    }

    /// The record for a resident coordinate.
    pub open spec fn record_of(&self, position: Coordinate) -> ChunkData {
        self.chunks@[position.key_spec()]
    }

    /// An empty registry for chunks of the given side length.
    pub fn new(chunk_size: i32) -> (map: ChunkMap)
        ensures
            map.chunks@ == Map::<u64, ChunkData>::empty(),
            map.chunk_size == chunk_size,
    {
        ChunkMap { chunks: HashMap::new(), chunk_size }
    }

    pub fn contains(&self, position: Coordinate) -> (resident: bool)
        ensures
            resident == self.resident(position),
    {
        self.chunks.contains_key(&position.key())
    }

    pub fn len(&self) -> (count: usize)
        ensures
            count == self.chunks@.dom().len(),
    {
        self.chunks.len()
    }
}

} // verus!
