use vstd::prelude::*;

use crate::tags::{TagCompound, TagValue};
use crate::{ChunkCoordinate, ScanError};

verus! {

// The fixed names that the predicate looks up in a chunk's tag tree,
// kept as their byte spellings.

/// The bytes of the name `Level`.
pub open spec fn spec_level_key() -> Seq<u8> {
    seq![76u8, 101u8, 118u8, 101u8, 108u8]
}

/// The bytes of the name `xPos`.
pub open spec fn spec_x_pos_key() -> Seq<u8> {
    seq![120u8, 80u8, 111u8, 115u8]
}

/// The bytes of the name `zPos`.
pub open spec fn spec_z_pos_key() -> Seq<u8> {
    seq![122u8, 80u8, 111u8, 115u8]
}

/// The bytes of the name `Entities`.
pub open spec fn spec_entities_key() -> Seq<u8> {
    seq![69u8, 110u8, 116u8, 105u8, 116u8, 105u8, 101u8, 115u8]
}

/// The bytes of the name `TileEntities`.
pub open spec fn spec_tile_entities_key() -> Seq<u8> {
    seq![84u8, 105u8, 108u8, 101u8, 69u8, 110u8, 116u8, 105u8, 116u8, 105u8, 101u8, 115u8]
}

/// The name `Level` as a byte vector.
pub fn level_key() -> (r: Vec<u8>)
    ensures
        r@ == spec_level_key(),
{
    let r: Vec<u8> = vec![76u8, 101u8, 118u8, 101u8, 108u8];
    assert(r@ =~= spec_level_key());
    r
}

/// The name `xPos` as a byte vector.
pub fn x_pos_key() -> (r: Vec<u8>)
    ensures
        r@ == spec_x_pos_key(),
{
    let r: Vec<u8> = vec![120u8, 80u8, 111u8, 115u8];
    assert(r@ =~= spec_x_pos_key());
    r
}

/// The name `zPos` as a byte vector.
pub fn z_pos_key() -> (r: Vec<u8>)
    ensures
        r@ == spec_z_pos_key(),
{
    let r: Vec<u8> = vec![122u8, 80u8, 111u8, 115u8];
    assert(r@ =~= spec_z_pos_key());
    r
}

/// The name `Entities` as a byte vector.
pub fn entities_key() -> (r: Vec<u8>)
    ensures
        r@ == spec_entities_key(),
{
    let r: Vec<u8> = vec![69u8, 110u8, 116u8, 105u8, 116u8, 105u8, 101u8, 115u8];
    assert(r@ =~= spec_entities_key());
    r
}

/// The name `TileEntities` as a byte vector.
pub fn tile_entities_key() -> (r: Vec<u8>)
    ensures
        r@ == spec_tile_entities_key(),
{
    let r: Vec<u8> = vec![
        84u8, 105u8, 108u8, 101u8, 69u8, 110u8, 116u8, 105u8, 116u8, 105u8, 101u8, 115u8,
    ];
    assert(r@ =~= spec_tile_entities_key());
    r
}

/// A chunk's tag tree has the shape the predicate expects: a nested
/// compound named `Level` holding two signed 32-bit integers `xPos`
/// and `zPos` and two compound lists `Entities` and `TileEntities`.
pub open spec fn chunk_well_formed(chunk: TagCompound) -> bool {
    match chunk.spec_get_compound(spec_level_key()) {
        Result::Ok(level) => {
            &&& level.spec_get_i32(spec_x_pos_key()) is Ok
            &&& level.spec_get_i32(spec_z_pos_key()) is Ok
            &&& level.spec_get_compound_vec(spec_entities_key()) is Ok
            &&& level.spec_get_compound_vec(spec_tile_entities_key()) is Ok
        },
        Result::Err(_) => false,
    }
}

/// The `xPos` stored in a well-formed chunk.
pub open spec fn chunk_x(chunk: TagCompound) -> i32
    recommends
        chunk_well_formed(chunk),
{
    (chunk.spec_get_compound(spec_level_key())->Ok_0).spec_get_i32(spec_x_pos_key())->Ok_0
}

/// The `zPos` stored in a well-formed chunk.
pub open spec fn chunk_z(chunk: TagCompound) -> i32
    recommends
        chunk_well_formed(chunk),
{
    (chunk.spec_get_compound(spec_level_key())->Ok_0).spec_get_i32(spec_z_pos_key())->Ok_0
}

/// A well-formed chunk holds at least one entity or tile-entity record.
pub open spec fn chunk_has_records(chunk: TagCompound) -> bool
    recommends
        chunk_well_formed(chunk),
{
    let level = chunk.spec_get_compound(spec_level_key())->Ok_0;
    ||| (level.spec_get_compound_vec(spec_entities_key())->Ok_0).len() > 0
    ||| (level.spec_get_compound_vec(spec_tile_entities_key())->Ok_0).len() > 0
}

/// The coordinate stored in a well-formed chunk.
pub open spec fn chunk_coord(chunk: TagCompound) -> ChunkCoordinate
    recommends
        chunk_well_formed(chunk),
{
    ChunkCoordinate { x: chunk_x(chunk), z: chunk_z(chunk) }
}

/// What the predicate reports of one chunk: its coordinate when it
/// holds records, nothing when it holds none, and `MalformedChunk`
/// when its tree lacks the expected fields or types.
pub open spec fn spec_chunk_coordinate(chunk: TagCompound) -> Result<
    Option<ChunkCoordinate>,
    ScanError,
> {
    if chunk_well_formed(chunk) {
        if chunk_has_records(chunk) {
            Result::Ok(Option::Some(chunk_coord(chunk)))
        } else {
            Result::Ok(Option::None)
        }
    } else {
        Result::Err(ScanError::MalformedChunk)
    }
}

/// The entity predicate: the chunk's stored coordinate exactly when at
/// least one of its entity or tile-entity lists is non-empty.
pub fn get_coordinate_if_contains_entities(chunk: &TagCompound) -> (r: Result<
    Option<ChunkCoordinate>,
    ScanError,
>)
    ensures
        r == spec_chunk_coordinate(*chunk),
        chunk_well_formed(*chunk) && chunk_has_records(*chunk) ==> r == Result::<
            Option<ChunkCoordinate>,
            ScanError,
        >::Ok(Option::Some(chunk_coord(*chunk))),
        chunk_well_formed(*chunk) && !chunk_has_records(*chunk) ==> r == Result::<
            Option<ChunkCoordinate>,
            ScanError,
        >::Ok(Option::None),
        !chunk_well_formed(*chunk) ==> r == Result::<Option<ChunkCoordinate>, ScanError>::Err(
            ScanError::MalformedChunk,
        ),
{
    let level = match chunk.get_compound_tag(&level_key()) {
        Result::Ok(level) => level,
        Result::Err(_) => {
            return Result::Err(ScanError::MalformedChunk);
        },
    };

    let x = match level.get_i32(&x_pos_key()) {
        Result::Ok(x) => x,
        Result::Err(_) => {
            return Result::Err(ScanError::MalformedChunk);
        },
    };
    let z = match level.get_i32(&z_pos_key()) {
        Result::Ok(z) => z,
        Result::Err(_) => {
            return Result::Err(ScanError::MalformedChunk);
        },
    };

    let entities = match level.get_compound_tag_vec(&entities_key()) {
        Result::Ok(l) => l,
        Result::Err(_) => {
            return Result::Err(ScanError::MalformedChunk);
        },
    };
    let tile_entities = match level.get_compound_tag_vec(&tile_entities_key()) {
        Result::Ok(l) => l,
        Result::Err(_) => {
            return Result::Err(ScanError::MalformedChunk);
        },
    };

    if entities.len() > 0 || tile_entities.len() > 0 {
        Result::Ok(Option::Some(ChunkCoordinate { x, z }))
    } else {
        Result::Ok(Option::None)
    }
}

} // verus!
