//! Creation: what a unit costs, where it is trained, and the creation
//! record of a unit.

use crate::error::DecodeError;
use crate::layout::{
    array_at, count_of, gated_array_at, item_count, lemma_array_in_longer,
    lemma_gated_array_in_longer, peek_array, read_array, read_gated, read_gated_array, read_one,
    starts_with, Fixed, Gated,
};
use crate::le;
use crate::le::F32;
use crate::reader::{decoded, took, Reader};
use crate::version::{at_least, gates, gates_of, VER_8_4, VER_8_8};
use vstd::prelude::*;

verus! {

/// What creating a unit costs in one resource.
#[derive(Clone, Copy, Debug, PartialEq, Eq)]
pub struct ResourceCost {
    pub type_: i16,
    pub amount: i16,
    pub flag: i16,
}

impl Fixed for ResourceCost {
    open spec fn size() -> nat {
        6
    }

    open spec fn at(s: Seq<u8>, p: int) -> ResourceCost {
        ResourceCost {
            type_: le::i16_at(s, p),
            amount: le::i16_at(s, p + 2),
            flag: le::i16_at(s, p + 4),
        }
    }

    fn width() -> usize {
        6
    }

    fn peek(reader: &Reader, off: usize) -> ResourceCost {
        ResourceCost {
            type_: reader.i16_at(off),
            amount: reader.i16_at(off + 2),
            flag: reader.i16_at(off + 4),
        }
    }

    proof fn lemma_at_in_longer(short: Seq<u8>, long: Seq<u8>, p: int) {
    }
}

impl ResourceCost {
    /// Reads one record of 6 bytes.
    pub fn read_from(reader: &mut Reader) -> (res: Result<ResourceCost, DecodeError>)
        ensures
            took(
                *old(reader),
                *final(reader),
                res,
                ResourceCost::size() as int,
                ResourceCost::at(old(reader).bytes(), old(reader).pos()),
            ),
    {
        read_one(reader)
    }
}

/// An amount of one resource that a unit holds.
#[derive(Clone, Copy, Debug, PartialEq, Eq)]
pub struct ResourceStorage {
    pub type_: i16,
    pub amount: F32,
    pub flag: i8,
}

impl Fixed for ResourceStorage {
    open spec fn size() -> nat {
        7
    }

    open spec fn at(s: Seq<u8>, p: int) -> ResourceStorage {
        ResourceStorage {
            type_: le::i16_at(s, p),
            amount: le::f32_at(s, p + 2),
            flag: le::i8_at(s, p + 6),
        }
    }

    fn width() -> usize {
        7
    }

    fn peek(reader: &Reader, off: usize) -> ResourceStorage {
        ResourceStorage {
            type_: reader.i16_at(off),
            amount: reader.f32_at(off + 2),
            flag: reader.i8_at(off + 6),
        }
    }

    proof fn lemma_at_in_longer(short: Seq<u8>, long: Seq<u8>, p: int) {
    }
}

impl ResourceStorage {
    /// Reads one record of 7 bytes.
    pub fn read_from(reader: &mut Reader) -> (res: Result<ResourceStorage, DecodeError>)
        ensures
            took(
                *old(reader),
                *final(reader),
                res,
                ResourceStorage::size() as int,
                ResourceStorage::at(old(reader).bytes(), old(reader).pos()),
            ),
    {
        read_one(reader)
    }
}

/// Where and how a unit is trained: the building, the time, the button.
#[derive(Clone, Copy, Debug, PartialEq, Eq)]
pub struct TrainLocation {
    pub train_time: i16,
    pub unit_id: i16,
    pub button_id: i8,
    /// Stored from `"VER 8.8"` on; 16000 before.
    pub hot_key_id: i32,
}

impl Gated for TrainLocation {
    open spec fn size(full: bool) -> nat {
        if full {
            9
        } else {
            5
        }
    }

    open spec fn at(s: Seq<u8>, p: int, full: bool) -> TrainLocation {
        TrainLocation {
            train_time: le::i16_at(s, p),
            unit_id: le::i16_at(s, p + 2),
            button_id: le::i8_at(s, p + 4),
            hot_key_id: if full {
                le::i32_at(s, p + 5)
            } else {
                16000
            },
        }
    }

    fn width(full: bool) -> usize {
        if full {
            9
        } else {
            5
        }
    }

    fn peek(reader: &Reader, off: usize, full: bool) -> TrainLocation {
        TrainLocation {
            train_time: reader.i16_at(off),
            unit_id: reader.i16_at(off + 2),
            button_id: reader.i8_at(off + 4),
            hot_key_id: if full {
                reader.i32_at(off + 5)
            } else {
                16000
            },
        }
    }

    proof fn lemma_at_in_longer(short: Seq<u8>, long: Seq<u8>, p: int, full: bool) {
    }
}

impl TrainLocation {
    /// The record that stands at `p` under `version`, with the position
    /// after it, if the buffer reaches that far.
    pub open spec fn parse(s: Seq<u8>, p: int, version: Seq<char>) -> Option<(TrainLocation, int)> {
        let full = gates_of(version).v8_8;
        if p + TrainLocation::size(full) <= s.len() {
            Some((TrainLocation::at(s, p, full), p + TrainLocation::size(full)))
        } else {
            None
        }
    }

    /// Reads one record: nine bytes from `"VER 8.8"` on, five before.
    pub fn read_from(reader: &mut Reader, version: &str) -> (res: Result<
        TrainLocation,
        DecodeError,
    >)
        ensures
            took(
                *old(reader),
                *final(reader),
                res,
                TrainLocation::size(gates_of(version@).v8_8) as int,
                TrainLocation::at(
                    old(reader).bytes(),
                    old(reader).pos(),
                    gates_of(version@).v8_8,
                ),
            ),
    {
        read_gated(reader, gates(version).v8_8)
    }
}

/// What a unit of type 70 or more has beyond a combatant: what it costs,
/// where it is trained, and the rest of what creating it involves.
#[derive(Clone, Debug, PartialEq, Eq)]
pub struct Creatable {
    /// Three costs.
    pub resource_costs: Vec<ResourceCost>,
    /// Before `"VER 8.8"` one location, without a hot key of its own; from then
    /// on a counted list.
    pub train_locations: Vec<TrainLocation>,
    pub rear_attack_modifier: F32,
    pub flank_attack_modifier: F32,
    pub creatable_type: i8,
    pub hero_mode: i8,
    pub garrison_graphic: i32,
    pub spawning_graphic: i16,
    pub upgrade_graphic: i16,
    pub hero_glow_graphic: i16,
    /// Stored from `"VER 8.4"` on; -1 before.
    pub idle_attack_graphic: i16,
    pub max_charge: F32,
    pub recharge_rate: F32,
    pub charge_event: i16,
    pub charge_type: i16,
    /// Stored from `"VER 8.4"` on; 0 before.
    pub charge_target: i16,
    /// Stored from `"VER 8.4"` on; -1 before.
    pub charge_projectile_unit: i32,
    /// Stored from `"VER 8.4"` on; 0 before.
    pub attack_priority: i8,
    /// Stored from `"VER 8.4"` on; 0.0 before.
    pub invulnerability_level: F32,
    /// Stored from `"VER 8.4"` on; -1 before.
    pub button_icon_id: i16,
    /// Stored from `"VER 8.4"` on; -1 before.
    pub button_short_tooltip_id: i32,
    /// Stored from `"VER 8.4"` on; -1 before.
    pub button_extended_tooltip_id: i32,
    /// Stored from `"VER 8.4"` on; -1 before.
    pub button_hotkey_action: i16,
    pub min_conversion_time_mod: F32,
    pub max_conversion_time_mod: F32,
    pub conversion_chance_mod: F32,
    pub total_projectiles: F32,
    pub max_total_projectiles: i8,
    /// Three numbers.
    pub projectile_spawning_area: Vec<F32>,
    pub secondary_projectile_unit: i32,
    pub special_graphic: i32,
    pub special_ability: i8,
    pub displayed_pierce_armour: i16,
}

/// A creation record as a mathematical value.
pub struct CreatableView {
    pub resource_costs: Seq<ResourceCost>,
    pub train_locations: Seq<TrainLocation>,
    pub rear_attack_modifier: F32,
    pub flank_attack_modifier: F32,
    pub creatable_type: i8,
    pub hero_mode: i8,
    pub garrison_graphic: i32,
    pub spawning_graphic: i16,
    pub upgrade_graphic: i16,
    pub hero_glow_graphic: i16,
    pub idle_attack_graphic: i16,
    pub max_charge: F32,
    pub recharge_rate: F32,
    pub charge_event: i16,
    pub charge_type: i16,
    pub charge_target: i16,
    pub charge_projectile_unit: i32,
    pub attack_priority: i8,
    pub invulnerability_level: F32,
    pub button_icon_id: i16,
    pub button_short_tooltip_id: i32,
    pub button_extended_tooltip_id: i32,
    pub button_hotkey_action: i16,
    pub min_conversion_time_mod: F32,
    pub max_conversion_time_mod: F32,
    pub conversion_chance_mod: F32,
    pub total_projectiles: F32,
    pub max_total_projectiles: i8,
    pub projectile_spawning_area: Seq<F32>,
    pub secondary_projectile_unit: i32,
    pub special_graphic: i32,
    pub special_ability: i8,
    pub displayed_pierce_armour: i16,
}

impl View for Creatable {
    type V = CreatableView;

    open spec fn view(&self) -> CreatableView {
        CreatableView {
            resource_costs: self.resource_costs@,
            train_locations: self.train_locations@,
            rear_attack_modifier: self.rear_attack_modifier,
            flank_attack_modifier: self.flank_attack_modifier,
            creatable_type: self.creatable_type,
            hero_mode: self.hero_mode,
            garrison_graphic: self.garrison_graphic,
            spawning_graphic: self.spawning_graphic,
            upgrade_graphic: self.upgrade_graphic,
            hero_glow_graphic: self.hero_glow_graphic,
            idle_attack_graphic: self.idle_attack_graphic,
            max_charge: self.max_charge,
            recharge_rate: self.recharge_rate,
            charge_event: self.charge_event,
            charge_type: self.charge_type,
            charge_target: self.charge_target,
            charge_projectile_unit: self.charge_projectile_unit,
            attack_priority: self.attack_priority,
            invulnerability_level: self.invulnerability_level,
            button_icon_id: self.button_icon_id,
            button_short_tooltip_id: self.button_short_tooltip_id,
            button_extended_tooltip_id: self.button_extended_tooltip_id,
            button_hotkey_action: self.button_hotkey_action,
            min_conversion_time_mod: self.min_conversion_time_mod,
            max_conversion_time_mod: self.max_conversion_time_mod,
            conversion_chance_mod: self.conversion_chance_mod,
            total_projectiles: self.total_projectiles,
            max_total_projectiles: self.max_total_projectiles,
            projectile_spawning_area: self.projectile_spawning_area@,
            secondary_projectile_unit: self.secondary_projectile_unit,
            special_graphic: self.special_graphic,
            special_ability: self.special_ability,
            displayed_pierce_armour: self.displayed_pierce_armour,
        }
    }
}

impl Creatable {
    /// Where the fields after the train locations stand in the record at
    /// `p`: from `"VER 8.8"` on after three costs, a count and that many
    /// locations of nine bytes; before, after three costs and one location
    /// of five bytes.
    pub open spec fn rest_at(s: Seq<u8>, p: int, version: Seq<char>) -> int {
        if gates_of(version).v8_8 {
            p + 20 + 9 * count_of(le::i16_at(s, p + 18))
        } else {
            p + 23
        }
    }

    /// Where the charge fields stand in the record at `p`: 20 bytes after
    /// the train locations, and two more from `"VER 8.4"` on.
    pub open spec fn charge_at(s: Seq<u8>, p: int, version: Seq<char>) -> int {
        Creatable::rest_at(s, p, version) + if gates_of(version).v8_4 {
            22int
        } else {
            20int
        }
    }

    /// Where the conversion fields stand in the record at `p`: twelve bytes
    /// after the start of the charge fields, and 23 more from `"VER 8.4"`
    /// on.
    pub open spec fn conversion_at(s: Seq<u8>, p: int, version: Seq<char>) -> int {
        Creatable::charge_at(s, p, version) + if gates_of(version).v8_4 {
            35int
        } else {
            12int
        }
    }

    /// The train locations of the record at `p`.
    pub open spec fn train_locations_at(s: Seq<u8>, p: int, version: Seq<char>) -> Seq<
        TrainLocation,
    > {
        if gates_of(version).v8_8 {
            gated_array_at(s, p + 20, count_of(le::i16_at(s, p + 18)), true)
        } else {
            gated_array_at(s, p + 18, 1, false)
        }
    }

    /// The record made of the given costs and train locations and of the
    /// fields that stand from `r` on, in the layout from `"VER 8.4"` on if
    /// `full` and in the earlier one if not.
    pub open spec fn with_rest_at(
        s: Seq<u8>,
        r: int,
        full: bool,
        resource_costs: Seq<ResourceCost>,
        train_locations: Seq<TrainLocation>,
    ) -> CreatableView {
        let m = r + if full {
            22int
        } else {
            20int
        };
        let c = m + if full {
            35int
        } else {
            12int
        };
        CreatableView {
            resource_costs,
            train_locations,
            rear_attack_modifier: le::f32_at(s, r),
            flank_attack_modifier: le::f32_at(s, r + 4),
            creatable_type: le::i8_at(s, r + 8),
            hero_mode: le::i8_at(s, r + 9),
            garrison_graphic: le::i32_at(s, r + 10),
            spawning_graphic: le::i16_at(s, r + 14),
            upgrade_graphic: le::i16_at(s, r + 16),
            hero_glow_graphic: le::i16_at(s, r + 18),
            idle_attack_graphic: if full {
                le::i16_at(s, r + 20)
            } else {
                -1i16
            },
            max_charge: le::f32_at(s, m),
            recharge_rate: le::f32_at(s, m + 4),
            charge_event: le::i16_at(s, m + 8),
            charge_type: le::i16_at(s, m + 10),
            charge_target: if full {
                le::i16_at(s, m + 12)
            } else {
                0i16
            },
            charge_projectile_unit: if full {
                le::i32_at(s, m + 14)
            } else {
                -1i32
            },
            attack_priority: if full {
                le::i8_at(s, m + 18)
            } else {
                0i8
            },
            invulnerability_level: if full {
                le::f32_at(s, m + 19)
            } else {
                F32::zero()
            },
            button_icon_id: if full {
                le::i16_at(s, m + 23)
            } else {
                -1i16
            },
            button_short_tooltip_id: if full {
                le::i32_at(s, m + 25)
            } else {
                -1i32
            },
            button_extended_tooltip_id: if full {
                le::i32_at(s, m + 29)
            } else {
                -1i32
            },
            button_hotkey_action: if full {
                le::i16_at(s, m + 33)
            } else {
                -1i16
            },
            min_conversion_time_mod: le::f32_at(s, c),
            max_conversion_time_mod: le::f32_at(s, c + 4),
            conversion_chance_mod: le::f32_at(s, c + 8),
            total_projectiles: le::f32_at(s, c + 12),
            max_total_projectiles: le::i8_at(s, c + 16),
            projectile_spawning_area: array_at(s, c + 17, 3),
            secondary_projectile_unit: le::i32_at(s, c + 29),
            special_graphic: le::i32_at(s, c + 33),
            special_ability: le::i8_at(s, c + 37),
            displayed_pierce_armour: le::i16_at(s, c + 38),
        }
    }

    /// The record that stands at `p` under `version`, with the position
    /// after it, if the buffer reaches that far. No length is negative, so
    /// the record fits where its end does.
    pub open spec fn parse(s: Seq<u8>, p: int, version: Seq<char>) -> Option<(CreatableView, int)> {
        let end = Creatable::conversion_at(s, p, version) + 40;
        if end <= s.len() {
            Some(
                (
                    Creatable::with_rest_at(
                        s,
                        Creatable::rest_at(s, p, version),
                        gates_of(version).v8_4,
                        array_at(s, p, 3),
                        Creatable::train_locations_at(s, p, version),
                    ),
                    end,
                ),
            )
        } else {
            None
        }
    }

    /// Reads the train locations, which stand 18 bytes into the record.
    fn read_train_locations(reader: &mut Reader, listed: bool) -> (res: Result<
        Vec<TrainLocation>,
        DecodeError,
    >)
        ensures
            final(reader).bytes() == old(reader).bytes(),
            final(reader).pos() >= old(reader).pos(),
            ({
                let s = old(reader).bytes();
                let q = old(reader).pos();
                let end = if listed {
                    q + 2 + 9 * count_of(le::i16_at(s, q))
                } else {
                    q + 5
                };
                match res {
                    Ok(v) => end <= s.len() && final(reader).pos() == end && v@ == (if listed {
                        gated_array_at::<TrainLocation>(s, q + 2, count_of(le::i16_at(s, q)), true)
                    } else {
                        gated_array_at::<TrainLocation>(s, q, 1, false)
                    }),
                    Err(e) => e == DecodeError::Underrun && end > s.len(),
                }
            }),
    {
        if listed {
            let count = item_count(reader.read_i16()?);
            read_gated_array::<TrainLocation>(reader, count, true)
        } else {
            read_gated_array::<TrainLocation>(reader, 1, false)
        }
    }

    /// Decodes the fields that stand from the position on, without moving.
    fn peek_rest(
        reader: &Reader,
        full: bool,
        resource_costs: Vec<ResourceCost>,
        train_locations: Vec<TrainLocation>,
    ) -> (v: Creatable)
        requires
            (if full {
                97int
            } else {
                72int
            }) <= reader.remaining() <= usize::MAX,
        ensures
            v@ == Creatable::with_rest_at(
                reader.bytes(),
                reader.pos(),
                full,
                resource_costs@,
                train_locations@,
            ),
    {
        let m: usize = if full {
            22
        } else {
            20
        };
        let c: usize = if full {
            57
        } else {
            32
        };
        Creatable {
            resource_costs,
            train_locations,
            rear_attack_modifier: reader.f32_at(0),
            flank_attack_modifier: reader.f32_at(4),
            creatable_type: reader.i8_at(8),
            hero_mode: reader.i8_at(9),
            garrison_graphic: reader.i32_at(10),
            spawning_graphic: reader.i16_at(14),
            upgrade_graphic: reader.i16_at(16),
            hero_glow_graphic: reader.i16_at(18),
            idle_attack_graphic: if full {
                reader.i16_at(20)
            } else {
                -1
            },
            max_charge: reader.f32_at(m),
            recharge_rate: reader.f32_at(m + 4),
            charge_event: reader.i16_at(m + 8),
            charge_type: reader.i16_at(m + 10),
            charge_target: if full {
                reader.i16_at(m + 12)
            } else {
                0
            },
            charge_projectile_unit: if full {
                reader.i32_at(m + 14)
            } else {
                -1
            },
            attack_priority: if full {
                reader.i8_at(m + 18)
            } else {
                0
            },
            invulnerability_level: if full {
                reader.f32_at(m + 19)
            } else {
                F32 { bits: 0 }
            },
            button_icon_id: if full {
                reader.i16_at(m + 23)
            } else {
                -1
            },
            button_short_tooltip_id: if full {
                reader.i32_at(m + 25)
            } else {
                -1
            },
            button_extended_tooltip_id: if full {
                reader.i32_at(m + 29)
            } else {
                -1
            },
            button_hotkey_action: if full {
                reader.i16_at(m + 33)
            } else {
                -1
            },
            min_conversion_time_mod: reader.f32_at(c),
            max_conversion_time_mod: reader.f32_at(c + 4),
            conversion_chance_mod: reader.f32_at(c + 8),
            total_projectiles: reader.f32_at(c + 12),
            max_total_projectiles: reader.i8_at(c + 16),
            projectile_spawning_area: peek_array::<F32>(reader, c + 17, 3),
            secondary_projectile_unit: reader.i32_at(c + 29),
            special_graphic: reader.i32_at(c + 33),
            special_ability: reader.i8_at(c + 37),
            displayed_pierce_armour: reader.i16_at(c + 38),
        }
    }

    /// Reads the parts in their order. On an underrun the position is
    /// wherever the last whole part ended.
    fn read_fields(reader: &mut Reader, version: &str) -> (res: Result<Creatable, DecodeError>)
        ensures
            final(reader).bytes() == old(reader).bytes(),
            final(reader).pos() >= old(reader).pos(),
            match res {
                Ok(v) => Creatable::parse(old(reader).bytes(), old(reader).pos(), version@) == Some(
                    (v@, final(reader).pos()),
                ),
                Err(e) => e == DecodeError::Underrun && Creatable::parse(
                    old(reader).bytes(),
                    old(reader).pos(),
                    version@,
                ) is None,
            },
    {
        let g = gates(version);
        let resource_costs = read_array::<ResourceCost>(reader, 3)?;
        let train_locations = Creatable::read_train_locations(reader, g.v8_8)?;
        let rest: usize = if g.v8_4 {
            97
        } else {
            72
        };
        reader.need(rest)?;
        let v = Creatable::peek_rest(reader, g.v8_4, resource_costs, train_locations);
        reader.advance(rest);
        Ok(v)
    }

    /// Reads one creation record. Where the buffer ends before the record
    /// does, nothing is read.
    pub fn read_from(reader: &mut Reader, version: &str) -> (res: Result<Creatable, DecodeError>)
        ensures
            decoded(
                *old(reader),
                *final(reader),
                res,
                Creatable::parse(old(reader).bytes(), old(reader).pos(), version@),
            ),
    {
        let start = reader.position();
        let res = Creatable::read_fields(reader, version);
        if res.is_err() {
            reader.rewind(start);
        }
        res
    }
}


/// Of two versions of which one lies before `"VER 8.8"` and the other does
/// not, the earlier one reads a train location as five bytes and gives it
/// the hot key 16000, and the later one reads the same bytes and four more,
/// which are its hot key.
pub proof fn lemma_hot_key_gate(s: Seq<u8>, p: int, v1: Seq<char>, v2: Seq<char>)
    requires
        !at_least(v1, VER_8_8@),
        at_least(v2, VER_8_8@),
        0 <= p,
        p + 9 <= s.len(),
    ensures
        TrainLocation::parse(s, p, v1) == Some(
            (
                TrainLocation {
                    train_time: le::i16_at(s, p),
                    unit_id: le::i16_at(s, p + 2),
                    button_id: le::i8_at(s, p + 4),
                    hot_key_id: 16000,
                },
                p + 5,
            ),
        ),
        TrainLocation::parse(s, p, v2) == Some(
            (
                TrainLocation {
                    train_time: le::i16_at(s, p),
                    unit_id: le::i16_at(s, p + 2),
                    button_id: le::i8_at(s, p + 4),
                    hot_key_id: le::i32_at(s, p + 5),
                },
                p + 9,
            ),
        ),
{
}

/// Of two versions of which one lies before `"VER 8.4"` and the other does
/// not, the earlier one gives a creation record the defaults of the fields
/// that came with that version, and the later one reads them from the
/// bytes.
pub proof fn lemma_creation_gate(s: Seq<u8>, p: int, v1: Seq<char>, v2: Seq<char>)
    requires
        !at_least(v1, VER_8_4@),
        at_least(v2, VER_8_4@),
        Creatable::parse(s, p, v1) is Some,
        Creatable::parse(s, p, v2) is Some,
    ensures
        ({
            let early = Creatable::parse(s, p, v1)->Some_0.0;
            let late = Creatable::parse(s, p, v2)->Some_0.0;
            let m = Creatable::charge_at(s, p, v2);
            &&& early.idle_attack_graphic == -1
            &&& early.charge_target == 0
            &&& early.charge_projectile_unit == -1
            &&& early.attack_priority == 0
            &&& early.invulnerability_level == F32::zero()
            &&& early.button_icon_id == -1
            &&& early.button_short_tooltip_id == -1
            &&& early.button_extended_tooltip_id == -1
            &&& early.button_hotkey_action == -1
            &&& late.idle_attack_graphic == le::i16_at(s, m - 2)
            &&& late.charge_target == le::i16_at(s, m + 12)
            &&& late.charge_projectile_unit == le::i32_at(s, m + 14)
            &&& late.attack_priority == le::i8_at(s, m + 18)
            &&& late.invulnerability_level == le::f32_at(s, m + 19)
            &&& late.button_icon_id == le::i16_at(s, m + 23)
            &&& late.button_short_tooltip_id == le::i32_at(s, m + 25)
            &&& late.button_extended_tooltip_id == le::i32_at(s, m + 29)
            &&& late.button_hotkey_action == le::i16_at(s, m + 33)
        }),
{
}

/// A record that is found in a buffer is found, the same, in every buffer
/// that starts with that one; and it ends after its start and within the
/// buffer.
pub proof fn lemma_creation_in_longer(short: Seq<u8>, long: Seq<u8>, p: int, version: Seq<char>)
    requires
        starts_with(long, short),
        0 <= p,
        Creatable::parse(short, p, version) is Some,
    ensures
        Creatable::parse(long, p, version) == Creatable::parse(short, p, version),
        p <= Creatable::parse(short, p, version)->Some_0.1 <= short.len(),
{
    let c = Creatable::conversion_at(short, p, version);
    lemma_array_in_longer::<ResourceCost>(short, long, p, 3);
    if gates_of(version).v8_8 {
        lemma_gated_array_in_longer::<TrainLocation>(
            short,
            long,
            p + 20,
            count_of(le::i16_at(short, p + 18)),
            true,
        );
    } else {
        lemma_gated_array_in_longer::<TrainLocation>(short, long, p + 18, 1, false);
    }
    lemma_array_in_longer::<F32>(short, long, c + 17, 3);
}

} // verus!
