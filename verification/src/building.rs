//! Buildings: what stands with a building, and the building record of a
//! unit.

use crate::error::DecodeError;
use crate::layout::{array_at, lemma_array_in_longer, peek_array, read_one, starts_with, Fixed};
use crate::le;
use crate::le::F32;
use crate::reader::{decoded, took, Reader};
use vstd::prelude::*;

verus! {

/// A unit that stands with a building, and where it stands relative to it.
#[derive(Clone, Copy, Debug, PartialEq, Eq)]
pub struct BuildingAnnex {
    pub unit_id: i16,
    pub misplacement_x: F32,
    pub misplacement_y: F32,
}

impl Fixed for BuildingAnnex {
    open spec fn size() -> nat {
        10
    }

    open spec fn at(s: Seq<u8>, p: int) -> BuildingAnnex {
        BuildingAnnex {
            unit_id: le::i16_at(s, p),
            misplacement_x: le::f32_at(s, p + 2),
            misplacement_y: le::f32_at(s, p + 6),
        }
    }

    fn width() -> usize {
        10
    }

    fn peek(reader: &Reader, off: usize) -> BuildingAnnex {
        BuildingAnnex {
            unit_id: reader.i16_at(off),
            misplacement_x: reader.f32_at(off + 2),
            misplacement_y: reader.f32_at(off + 6),
        }
    }

    proof fn lemma_at_in_longer(short: Seq<u8>, long: Seq<u8>, p: int) {
    }
}

impl BuildingAnnex {
    /// Reads one record of 10 bytes.
    pub fn read_from(reader: &mut Reader) -> (res: Result<BuildingAnnex, DecodeError>)
        ensures
            took(
                *old(reader),
                *final(reader),
                res,
                BuildingAnnex::size() as int,
                BuildingAnnex::at(old(reader).bytes(), old(reader).pos()),
            ),
    {
        read_one(reader)
    }
}

/// What a unit of type 80 has beyond a creatable one: how it is built, what
/// stands with it, and how it shelters units.
#[derive(Clone, Debug, PartialEq, Eq)]
pub struct Building {
    pub construction_graphic_id: i16,
    pub snow_graphic_id: i16,
    pub destruction_graphic_id: i16,
    pub destruction_rubble_graphic_id: i16,
    pub researching_graphic: i16,
    pub research_completed_graphic: i16,
    pub adjacent_mode: i16,
    pub graphics_angle: i16,
    pub disappears_when_built: i8,
    pub stack_unit_id: i16,
    pub foundation_terrain_id: i8,
    pub old_overlap_id: i16,
    pub tech_id: i16,
    pub can_burn: i8,
    /// Four annexes.
    pub annexes: Vec<BuildingAnnex>,
    pub head_unit: i16,
    pub transform_unit: i16,
    pub transform_sound: i16,
    pub construction_sound: i16,
    pub wwise_transform_sound_id: i32,
    pub wwise_construction_sound_id: i32,
    pub garrison_type: i8,
    pub garrison_heal_rate: F32,
    pub garrison_repair_rate: F32,
    pub pile_unit: i16,
    /// Six entries.
    pub looting_table: Vec<i8>,
}

/// A building record as a mathematical value.
pub struct BuildingView {
    pub construction_graphic_id: i16,
    pub snow_graphic_id: i16,
    pub destruction_graphic_id: i16,
    pub destruction_rubble_graphic_id: i16,
    pub researching_graphic: i16,
    pub research_completed_graphic: i16,
    pub adjacent_mode: i16,
    pub graphics_angle: i16,
    pub disappears_when_built: i8,
    pub stack_unit_id: i16,
    pub foundation_terrain_id: i8,
    pub old_overlap_id: i16,
    pub tech_id: i16,
    pub can_burn: i8,
    pub annexes: Seq<BuildingAnnex>,
    pub head_unit: i16,
    pub transform_unit: i16,
    pub transform_sound: i16,
    pub construction_sound: i16,
    pub wwise_transform_sound_id: i32,
    pub wwise_construction_sound_id: i32,
    pub garrison_type: i8,
    pub garrison_heal_rate: F32,
    pub garrison_repair_rate: F32,
    pub pile_unit: i16,
    pub looting_table: Seq<i8>,
}

impl View for Building {
    type V = BuildingView;

    open spec fn view(&self) -> BuildingView {
        BuildingView {
            construction_graphic_id: self.construction_graphic_id,
            snow_graphic_id: self.snow_graphic_id,
            destruction_graphic_id: self.destruction_graphic_id,
            destruction_rubble_graphic_id: self.destruction_rubble_graphic_id,
            researching_graphic: self.researching_graphic,
            research_completed_graphic: self.research_completed_graphic,
            adjacent_mode: self.adjacent_mode,
            graphics_angle: self.graphics_angle,
            disappears_when_built: self.disappears_when_built,
            stack_unit_id: self.stack_unit_id,
            foundation_terrain_id: self.foundation_terrain_id,
            old_overlap_id: self.old_overlap_id,
            tech_id: self.tech_id,
            can_burn: self.can_burn,
            annexes: self.annexes@,
            head_unit: self.head_unit,
            transform_unit: self.transform_unit,
            transform_sound: self.transform_sound,
            construction_sound: self.construction_sound,
            wwise_transform_sound_id: self.wwise_transform_sound_id,
            wwise_construction_sound_id: self.wwise_construction_sound_id,
            garrison_type: self.garrison_type,
            garrison_heal_rate: self.garrison_heal_rate,
            garrison_repair_rate: self.garrison_repair_rate,
            pile_unit: self.pile_unit,
            looting_table: self.looting_table@,
        }
    }
}

impl Building {
    /// The width of a building record in bytes.
    pub open spec fn size() -> nat {
        98
    }

    /// The building record whose encoding starts at `p`.
    pub open spec fn at(s: Seq<u8>, p: int) -> BuildingView {
        BuildingView {
            construction_graphic_id: le::i16_at(s, p),
            snow_graphic_id: le::i16_at(s, p + 2),
            destruction_graphic_id: le::i16_at(s, p + 4),
            destruction_rubble_graphic_id: le::i16_at(s, p + 6),
            researching_graphic: le::i16_at(s, p + 8),
            research_completed_graphic: le::i16_at(s, p + 10),
            adjacent_mode: le::i16_at(s, p + 12),
            graphics_angle: le::i16_at(s, p + 14),
            disappears_when_built: le::i8_at(s, p + 16),
            stack_unit_id: le::i16_at(s, p + 17),
            foundation_terrain_id: le::i8_at(s, p + 19),
            old_overlap_id: le::i16_at(s, p + 20),
            tech_id: le::i16_at(s, p + 22),
            can_burn: le::i8_at(s, p + 24),
            annexes: array_at(s, p + 25, 4),
            head_unit: le::i16_at(s, p + 65),
            transform_unit: le::i16_at(s, p + 67),
            transform_sound: le::i16_at(s, p + 69),
            construction_sound: le::i16_at(s, p + 71),
            wwise_transform_sound_id: le::i32_at(s, p + 73),
            wwise_construction_sound_id: le::i32_at(s, p + 77),
            garrison_type: le::i8_at(s, p + 81),
            garrison_heal_rate: le::f32_at(s, p + 82),
            garrison_repair_rate: le::f32_at(s, p + 86),
            pile_unit: le::i16_at(s, p + 90),
            looting_table: array_at(s, p + 92, 6),
        }
    }

    /// The record that stands at `p`, with the position after it, if the
    /// buffer reaches that far.
    pub open spec fn parse(s: Seq<u8>, p: int) -> Option<(BuildingView, int)> {
        if p + 98 <= s.len() {
            Some((Building::at(s, p), p + 98))
        } else {
            None
        }
    }

    /// Reads one building record of 98 bytes. Where fewer remain, nothing
    /// is read.
    pub fn read_from(reader: &mut Reader) -> (res: Result<Building, DecodeError>)
        ensures
            decoded(
                *old(reader),
                *final(reader),
                res,
                Building::parse(old(reader).bytes(), old(reader).pos()),
            ),
    {
        reader.need(98)?;
        let v = Building {
            construction_graphic_id: reader.i16_at(0),
            snow_graphic_id: reader.i16_at(2),
            destruction_graphic_id: reader.i16_at(4),
            destruction_rubble_graphic_id: reader.i16_at(6),
            researching_graphic: reader.i16_at(8),
            research_completed_graphic: reader.i16_at(10),
            adjacent_mode: reader.i16_at(12),
            graphics_angle: reader.i16_at(14),
            disappears_when_built: reader.i8_at(16),
            stack_unit_id: reader.i16_at(17),
            foundation_terrain_id: reader.i8_at(19),
            old_overlap_id: reader.i16_at(20),
            tech_id: reader.i16_at(22),
            can_burn: reader.i8_at(24),
            annexes: peek_array::<BuildingAnnex>(reader, 25, 4),
            head_unit: reader.i16_at(65),
            transform_unit: reader.i16_at(67),
            transform_sound: reader.i16_at(69),
            construction_sound: reader.i16_at(71),
            wwise_transform_sound_id: reader.i32_at(73),
            wwise_construction_sound_id: reader.i32_at(77),
            garrison_type: reader.i8_at(81),
            garrison_heal_rate: reader.f32_at(82),
            garrison_repair_rate: reader.f32_at(86),
            pile_unit: reader.i16_at(90),
            looting_table: peek_array::<i8>(reader, 92, 6),
        };
        reader.advance(98);
        Ok(v)
    }
}

/// A record that is found in a buffer is found, the same, in every buffer
/// that starts with that one; and it ends after its start and within the
/// buffer.
pub proof fn lemma_building_in_longer(short: Seq<u8>, long: Seq<u8>, p: int)
    requires
        starts_with(long, short),
        0 <= p,
        Building::parse(short, p) is Some,
    ensures
        Building::parse(long, p) == Building::parse(short, p),
        p <= Building::parse(short, p)->Some_0.1 <= short.len(),
{
    lemma_array_in_longer::<BuildingAnnex>(short, long, p + 25, 4);
    lemma_array_in_longer::<i8>(short, long, p + 92, 6);
}

} // verus!
