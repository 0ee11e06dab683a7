//! Terrains: the restrictions, the tile sizes, the terrains themselves and
//! the block that holds them, and the random maps.

use crate::error::DecodeError;
use crate::layout::{need_array, read_one, starts_with, Fixed};
use crate::le;
use crate::reader::{decoded, decoded_plain, took, Reader};
use crate::record::{lemma_run_in_longer, list_of, read_list, Record};
use crate::text::{lemma_name_in_longer, name_at, read_debug_string};
use vstd::prelude::*;

verus! {

/// The number of tile kinds.
pub const TILE_TYPE_COUNT: usize = 19;

/// The number of terrains in the terrain block.
pub const TERRAIN_COUNT: usize = 200;

/// The size of one kind of tile on screen.
#[derive(Clone, Copy, Debug, PartialEq, Eq)]
pub struct TileSize {
    pub width: i16,
    pub height: i16,
    pub delta_y: i16,
}

impl Fixed for TileSize {
    open spec fn size() -> nat {
        6
    }

    open spec fn at(s: Seq<u8>, p: int) -> TileSize {
        TileSize {
            width: le::i16_at(s, p),
            height: le::i16_at(s, p + 2),
            delta_y: le::i16_at(s, p + 4),
        }
    }

    fn width() -> usize {
        6
    }

    fn peek(reader: &Reader, off: usize) -> TileSize {
        TileSize {
            width: reader.i16_at(off),
            height: reader.i16_at(off + 2),
            delta_y: reader.i16_at(off + 4),
        }
    }

    proof fn lemma_at_in_longer(short: Seq<u8>, long: Seq<u8>, p: int) {
    }
}

impl TileSize {
    /// Reads one record of 6 bytes.
    pub fn read_from(reader: &mut Reader) -> (res: Result<TileSize, DecodeError>)
        ensures
            took(
                *old(reader),
                *final(reader),
                res,
                TileSize::size() as int,
                TileSize::at(old(reader).bytes(), old(reader).pos()),
            ),
    {
        read_one(reader)
    }
}

/// A terrain. Only its name is kept.
#[derive(Clone, Debug, PartialEq, Eq)]
pub struct Terrain {
    pub name: String,
}

/// A terrain as a mathematical value.
pub struct TerrainView {
    pub name: Seq<char>,
}

impl View for Terrain {
    type V = TerrainView;

    open spec fn view(&self) -> TerrainView {
        TerrainView {
            name: self.name@,
        }
    }
}

/// What a kind of unit may do on each terrain. The record is passed over;
/// what is kept is for how many terrains it speaks.
#[derive(Clone, Copy, Debug, PartialEq, Eq)]
pub struct TerrainRestriction {
    pub terrains_count: i32,
}

impl TerrainRestriction {
    /// The width of a restriction that speaks for `terrain_count` terrains:
    /// four bytes and sixteen bytes for each.
    pub open spec fn size(terrain_count: nat) -> nat {
        terrain_count * 4 + terrain_count * 16
    }

    /// The restriction that stands at `p`, with the position after it, if
    /// the buffer reaches that far.
    pub open spec fn parse(s: Seq<u8>, p: int, terrain_count: usize) -> Option<
        (TerrainRestriction, int),
    > {
        let end = p + TerrainRestriction::size(terrain_count as nat);
        if end <= s.len() {
            Some((TerrainRestriction { terrains_count: terrain_count as i32 }, end))
        } else {
            None
        }
    }

    /// Passes over one restriction. Where the buffer ends before the
    /// restriction does, nothing is read.
    pub fn read_from(reader: &mut Reader, terrain_count: usize) -> (res: Result<
        TerrainRestriction,
        DecodeError,
    >)
        ensures
            decoded_plain(
                *old(reader),
                *final(reader),
                res,
                TerrainRestriction::parse(old(reader).bytes(), old(reader).pos(), terrain_count),
            ),
    {
        let total = need_array(reader, terrain_count, 20)?;
        reader.advance(total);
        Ok(TerrainRestriction { terrains_count: terrain_count as i32 })
    }
}

impl Terrain {
    /// The terrain that stands at `p`, with the position after it, if the
    /// buffer reaches that far: eight bytes, two names, of which the first
    /// is kept, 28 bytes, a third name, and 364 bytes.
    pub open spec fn parse(s: Seq<u8>, p: int) -> Option<(TerrainView, int)> {
        match name_at(s, p + 8) {
            None => None,
            Some((name, a)) => match name_at(s, a) {
                None => None,
                Some((name_2, b)) => match name_at(s, b + 28) {
                    None => None,
                    Some((mask, c)) => if c + 364 <= s.len() {
                        Some((TerrainView { name }, c + 364))
                    } else {
                        None
                    },
                },
            },
        }
    }

    /// Reads the parts in their order. On an underrun the position is
    /// wherever the last whole part ended.
    fn read_fields(reader: &mut Reader) -> (res: Result<Terrain, DecodeError>)
        ensures
            final(reader).bytes() == old(reader).bytes(),
            final(reader).pos() >= old(reader).pos(),
            match res {
                Ok(v) => Terrain::parse(old(reader).bytes(), old(reader).pos()) == Some(
                    (v@, final(reader).pos()),
                ),
                Err(e) => e == DecodeError::Underrun && Terrain::parse(
                    old(reader).bytes(),
                    old(reader).pos(),
                ) is None,
            },
    {
        reader.skip_forward(8)?;
        let name = read_debug_string(reader)?;
        let _name_2 = read_debug_string(reader)?;
        reader.skip_forward(28)?;
        let _mask = read_debug_string(reader)?;
        reader.skip_forward(30 + TILE_TYPE_COUNT * 6 + 220)?;
        Ok(Terrain { name })
    }

    /// Reads one terrain. Where the buffer ends before the terrain does,
    /// nothing is read.
    pub fn read_from(reader: &mut Reader) -> (res: Result<Terrain, DecodeError>)
        ensures
            decoded(
                *old(reader),
                *final(reader),
                res,
                Terrain::parse(old(reader).bytes(), old(reader).pos()),
            ),
    {
        let start = reader.position();
        let res = Terrain::read_fields(reader);
        if res.is_err() {
            reader.rewind(start);
        }
        res
    }
}

impl Record for Terrain {
    open spec fn found(s: Seq<u8>, p: int, version: Seq<char>) -> Option<(TerrainView, int)> {
        Terrain::parse(s, p)
    }

    fn read(reader: &mut Reader, _version: &str) -> (res: Result<Terrain, DecodeError>) {
        Terrain::read_from(reader)
    }

    proof fn lemma_found_in_longer(short: Seq<u8>, long: Seq<u8>, p: int, version: Seq<char>) {
        lemma_name_in_longer(short, long, p + 8);
        let a = name_at(short, p + 8)->Some_0.1;
        lemma_name_in_longer(short, long, a);
        let b = name_at(short, a)->Some_0.1;
        lemma_name_in_longer(short, long, b + 28);
    }
}

/// The terrains of the archive as a block. The block is passed over; two
/// addresses of no meaning are kept.
#[derive(Clone, Copy, Debug, PartialEq, Eq)]
pub struct TerrainBlock {
    pub map_pointer: i32,
    pub search_map_ptr: i32,
}

impl TerrainBlock {
    /// The block that stands at `p`, with the position after it, if the
    /// buffer reaches that far: 24 bytes, of which the second four are
    /// kept; nineteen tile sizes; two bytes; two hundred terrains; 52 bytes;
    /// four bytes that are kept; and seven bytes.
    pub open spec fn parse(s: Seq<u8>, p: int) -> Option<(TerrainBlock, int)> {
        let terrains = p + 24 + TILE_TYPE_COUNT * TileSize::size() + 2;
        if terrains <= s.len() {
            match list_of::<Terrain>(s, terrains, TERRAIN_COUNT as nat, Seq::empty()) {
                None => None,
                Some((items, q)) => if q + 63 <= s.len() {
                    Some(
                        (
                            TerrainBlock {
                                map_pointer: le::i32_at(s, p + 4),
                                search_map_ptr: le::i32_at(s, q + 52),
                            },
                            q + 63,
                        ),
                    )
                } else {
                    None
                },
            }
        } else {
            None
        }
    }

    /// Reads the parts in their order. On an underrun the position is
    /// wherever the last whole part ended.
    fn read_fields(reader: &mut Reader) -> (res: Result<TerrainBlock, DecodeError>)
        ensures
            final(reader).bytes() == old(reader).bytes(),
            final(reader).pos() >= old(reader).pos(),
            match res {
                Ok(v) => TerrainBlock::parse(old(reader).bytes(), old(reader).pos()) == Some(
                    (v, final(reader).pos()),
                ),
                Err(e) => e == DecodeError::Underrun && TerrainBlock::parse(
                    old(reader).bytes(),
                    old(reader).pos(),
                ) is None,
            },
    {
        reader.need(24 + TILE_TYPE_COUNT * 6 + 2)?;
        let map_pointer = reader.i32_at(4);
        reader.advance(24 + TILE_TYPE_COUNT * 6 + 2);
        proof {
            reveal_strlit("");
            assert(""@ =~= Seq::<char>::empty());
        }
        let _terrains = read_list::<Terrain>(reader, TERRAIN_COUNT, "")?;
        reader.need(63)?;
        let search_map_ptr = reader.i32_at(52);
        reader.advance(63);
        Ok(TerrainBlock { map_pointer, search_map_ptr })
    }

    /// Reads one block. Where the buffer ends before the block does,
    /// nothing is read.
    pub fn read_from(reader: &mut Reader) -> (res: Result<TerrainBlock, DecodeError>)
        ensures
            decoded_plain(
                *old(reader),
                *final(reader),
                res,
                TerrainBlock::parse(old(reader).bytes(), old(reader).pos()),
            ),
    {
        let start = reader.position();
        let res = TerrainBlock::read_fields(reader);
        if res.is_err() {
            reader.rewind(start);
        }
        res
    }
}

/// A block that is found in a buffer is found, the same, in every buffer
/// that starts with that one; and it ends after its start and within the
/// buffer.
pub proof fn lemma_terrain_block_in_longer(short: Seq<u8>, long: Seq<u8>, p: int)
    requires
        starts_with(long, short),
        0 <= p,
        TerrainBlock::parse(short, p) is Some,
    ensures
        TerrainBlock::parse(long, p) == TerrainBlock::parse(short, p),
        p <= TerrainBlock::parse(short, p)->Some_0.1 <= short.len(),
{
    let terrains = p + 24 + TILE_TYPE_COUNT * TileSize::size() + 2;
    lemma_run_in_longer::<Terrain>(short, long, terrains, TERRAIN_COUNT as nat, Seq::empty());
}

/// The random maps of the archive. None of them is decoded: the section is
/// read as a count and an address, and what the count announces is left
/// where it stands.
#[derive(Clone, Copy, Debug, PartialEq, Eq, Structural)]
pub struct RandomMaps {
}

impl RandomMaps {
    /// The section that stands at `p`, with the position after it, if the
    /// buffer reaches that far: eight bytes.
    pub open spec fn parse(s: Seq<u8>, p: int) -> Option<(RandomMaps, int)> {
        if p + 8 <= s.len() {
            Some((RandomMaps {  }, p + 8))
        } else {
            None
        }
    }

    /// Passes over the count and the address of the section.
    pub fn read_from(reader: &mut Reader) -> (res: Result<RandomMaps, DecodeError>)
        ensures
            decoded_plain(
                *old(reader),
                *final(reader),
                res,
                RandomMaps::parse(old(reader).bytes(), old(reader).pos()),
            ),
    {
        reader.need(8)?;
        reader.advance(8);
        Ok(RandomMaps {  })
    }
}

} // verus!
