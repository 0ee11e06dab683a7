//! Combat: attack and armour amounts, the combat record of a unit, and
//! what a projectile adds to it.

use crate::error::DecodeError;
use crate::layout::{
    array_at, count_of, item_count, lemma_array_in_longer, peek_array, read_array, read_one,
    starts_with, Fixed,
};
use crate::le;
use crate::le::F32;
use crate::reader::{decoded, took, Reader};
use crate::version::{at_least, gates, gates_of, VER_8_4};
use vstd::prelude::*;

verus! {

/// An amount of attack or of armour in one damage class.
#[derive(Clone, Copy, Debug, PartialEq, Eq)]
pub struct AttackOrArmor {
    pub class_: i16,
    pub amount: i16,
}

impl Fixed for AttackOrArmor {
    open spec fn size() -> nat {
        4
    }

    open spec fn at(s: Seq<u8>, p: int) -> AttackOrArmor {
        AttackOrArmor {
            class_: le::i16_at(s, p),
            amount: le::i16_at(s, p + 2),
        }
    }

    fn width() -> usize {
        4
    }

    fn peek(reader: &Reader, off: usize) -> AttackOrArmor {
        AttackOrArmor {
            class_: reader.i16_at(off),
            amount: reader.i16_at(off + 2),
        }
    }

    proof fn lemma_at_in_longer(short: Seq<u8>, long: Seq<u8>, p: int) {
    }
}

impl AttackOrArmor {
    /// Reads one record of 4 bytes.
    pub fn read_from(reader: &mut Reader) -> (res: Result<AttackOrArmor, DecodeError>)
        ensures
            took(
                *old(reader),
                *final(reader),
                res,
                AttackOrArmor::size() as int,
                AttackOrArmor::at(old(reader).bytes(), old(reader).pos()),
            ),
    {
        read_one(reader)
    }
}

/// What a unit of type 60 has beyond a combatant: how it flies and hits.
#[derive(Clone, Copy, Debug, PartialEq, Eq)]
pub struct Projectile {
    pub projectile_type: i8,
    pub smart_mode: i8,
    pub hit_mode: i8,
    pub vanish_mode: i8,
    pub area_effect_specials: i8,
    pub projectile_arc: F32,
}

impl Fixed for Projectile {
    open spec fn size() -> nat {
        9
    }

    open spec fn at(s: Seq<u8>, p: int) -> Projectile {
        Projectile {
            projectile_type: le::i8_at(s, p),
            smart_mode: le::i8_at(s, p + 1),
            hit_mode: le::i8_at(s, p + 2),
            vanish_mode: le::i8_at(s, p + 3),
            area_effect_specials: le::i8_at(s, p + 4),
            projectile_arc: le::f32_at(s, p + 5),
        }
    }

    fn width() -> usize {
        9
    }

    fn peek(reader: &Reader, off: usize) -> Projectile {
        Projectile {
            projectile_type: reader.i8_at(off),
            smart_mode: reader.i8_at(off + 1),
            hit_mode: reader.i8_at(off + 2),
            vanish_mode: reader.i8_at(off + 3),
            area_effect_specials: reader.i8_at(off + 4),
            projectile_arc: reader.f32_at(off + 5),
        }
    }

    proof fn lemma_at_in_longer(short: Seq<u8>, long: Seq<u8>, p: int) {
    }
}

impl Projectile {
    /// Reads one record of 9 bytes.
    pub fn read_from(reader: &mut Reader) -> (res: Result<Projectile, DecodeError>)
        ensures
            took(
                *old(reader),
                *final(reader),
                res,
                Projectile::size() as int,
                Projectile::at(old(reader).bytes(), old(reader).pos()),
            ),
    {
        read_one(reader)
    }
}

/// What a unit of type 50 or more has beyond its tasks: its armour, its
/// attacks and how it fights.
#[derive(Clone, Debug, PartialEq, Eq)]
pub struct Type50 {
    pub base_armor: i16,
    pub attacks: Vec<AttackOrArmor>,
    pub armours: Vec<AttackOrArmor>,
    pub defense_terrain_bonus: i16,
    pub bonus_damage_resistance: F32,
    pub max_range: F32,
    pub blast_width: F32,
    pub reload_time: F32,
    pub projectile_unit_id: i16,
    pub accuracy_percent: i16,
    pub break_off_combat: i8,
    pub frame_delay: i16,
    /// Three numbers.
    pub graphic_displacement: Vec<F32>,
    pub blast_attack_level: i8,
    pub min_range: F32,
    pub accuracy_dispersion: F32,
    pub attack_graphic: i16,
    pub displayed_melee_armour: i16,
    pub displayed_attack: i16,
    pub displayed_range: F32,
    pub displayed_reload_time: F32,
    pub blast_damage: F32,
    /// Stored from `"VER 8.4"` on; 0.0 before.
    pub damage_reflection: F32,
    /// Stored from `"VER 8.4"` on; 1.0 before.
    pub friendly_fire_damage: F32,
    /// Stored from `"VER 8.4"` on; -1 before.
    pub interrupt_frame: i16,
    /// Stored from `"VER 8.4"` on; 0.0 before.
    pub garrison_firepower: F32,
    /// Stored from `"VER 8.4"` on; -1 before.
    pub attack_graphic_2: i16,
}

/// A combat record as a mathematical value.
pub struct Type50View {
    pub base_armor: i16,
    pub attacks: Seq<AttackOrArmor>,
    pub armours: Seq<AttackOrArmor>,
    pub defense_terrain_bonus: i16,
    pub bonus_damage_resistance: F32,
    pub max_range: F32,
    pub blast_width: F32,
    pub reload_time: F32,
    pub projectile_unit_id: i16,
    pub accuracy_percent: i16,
    pub break_off_combat: i8,
    pub frame_delay: i16,
    pub graphic_displacement: Seq<F32>,
    pub blast_attack_level: i8,
    pub min_range: F32,
    pub accuracy_dispersion: F32,
    pub attack_graphic: i16,
    pub displayed_melee_armour: i16,
    pub displayed_attack: i16,
    pub displayed_range: F32,
    pub displayed_reload_time: F32,
    pub blast_damage: F32,
    pub damage_reflection: F32,
    pub friendly_fire_damage: F32,
    pub interrupt_frame: i16,
    pub garrison_firepower: F32,
    pub attack_graphic_2: i16,
}

impl View for Type50 {
    type V = Type50View;

    open spec fn view(&self) -> Type50View {
        Type50View {
            base_armor: self.base_armor,
            attacks: self.attacks@,
            armours: self.armours@,
            defense_terrain_bonus: self.defense_terrain_bonus,
            bonus_damage_resistance: self.bonus_damage_resistance,
            max_range: self.max_range,
            blast_width: self.blast_width,
            reload_time: self.reload_time,
            projectile_unit_id: self.projectile_unit_id,
            accuracy_percent: self.accuracy_percent,
            break_off_combat: self.break_off_combat,
            frame_delay: self.frame_delay,
            graphic_displacement: self.graphic_displacement@,
            blast_attack_level: self.blast_attack_level,
            min_range: self.min_range,
            accuracy_dispersion: self.accuracy_dispersion,
            attack_graphic: self.attack_graphic,
            displayed_melee_armour: self.displayed_melee_armour,
            displayed_attack: self.displayed_attack,
            displayed_range: self.displayed_range,
            displayed_reload_time: self.displayed_reload_time,
            blast_damage: self.blast_damage,
            damage_reflection: self.damage_reflection,
            friendly_fire_damage: self.friendly_fire_damage,
            interrupt_frame: self.interrupt_frame,
            garrison_firepower: self.garrison_firepower,
            attack_graphic_2: self.attack_graphic_2,
        }
    }
}

impl Type50 {
    /// Where the count of the armours stands in the record at `p`: after
    /// the base armour, the count of the attacks and the attacks.
    pub open spec fn armours_at(s: Seq<u8>, p: int) -> int {
        p + 4 + 4 * count_of(le::i16_at(s, p + 2))
    }

    /// Where the fields after the armours stand in the record at `p`.
    pub open spec fn rest_at(s: Seq<u8>, p: int) -> int {
        let q = Type50::armours_at(s, p);
        q + 2 + 4 * count_of(le::i16_at(s, q))
    }

    /// Where the record at `p` ends: 64 bytes after the armours, and 16
    /// more from `"VER 8.4"` on.
    pub open spec fn end_at(s: Seq<u8>, p: int, version: Seq<char>) -> int {
        Type50::rest_at(s, p) + if gates_of(version).v8_4 {
            80int
        } else {
            64int
        }
    }

    /// The record that stands at `p` under `version`, with the position
    /// after it, if the buffer reaches that far. No length is negative, so
    /// the record fits where its end does.
    pub open spec fn parse(s: Seq<u8>, p: int, version: Seq<char>) -> Option<(Type50View, int)> {
        let full = gates_of(version).v8_4;
        let q = Type50::armours_at(s, p);
        let r = Type50::rest_at(s, p);
        let end = Type50::end_at(s, p, version);
        if end <= s.len() {
            Some(
                (
                    Type50View {
                        base_armor: le::i16_at(s, p),
                        attacks: array_at(s, p + 4, count_of(le::i16_at(s, p + 2))),
                        armours: array_at(s, q + 2, count_of(le::i16_at(s, q))),
                        defense_terrain_bonus: le::i16_at(s, r),
                        bonus_damage_resistance: le::f32_at(s, r + 2),
                        max_range: le::f32_at(s, r + 6),
                        blast_width: le::f32_at(s, r + 10),
                        reload_time: le::f32_at(s, r + 14),
                        projectile_unit_id: le::i16_at(s, r + 18),
                        accuracy_percent: le::i16_at(s, r + 20),
                        break_off_combat: le::i8_at(s, r + 22),
                        frame_delay: le::i16_at(s, r + 23),
                        graphic_displacement: array_at(s, r + 25, 3),
                        blast_attack_level: le::i8_at(s, r + 37),
                        min_range: le::f32_at(s, r + 38),
                        accuracy_dispersion: le::f32_at(s, r + 42),
                        attack_graphic: le::i16_at(s, r + 46),
                        displayed_melee_armour: le::i16_at(s, r + 48),
                        displayed_attack: le::i16_at(s, r + 50),
                        displayed_range: le::f32_at(s, r + 52),
                        displayed_reload_time: le::f32_at(s, r + 56),
                        blast_damage: le::f32_at(s, r + 60),
                        damage_reflection: if full {
                            le::f32_at(s, r + 64)
                        } else {
                            F32::zero()
                        },
                        friendly_fire_damage: if full {
                            le::f32_at(s, r + 68)
                        } else {
                            F32::one()
                        },
                        interrupt_frame: if full {
                            le::i16_at(s, r + 72)
                        } else {
                            -1i16
                        },
                        garrison_firepower: if full {
                            le::f32_at(s, r + 74)
                        } else {
                            F32::zero()
                        },
                        attack_graphic_2: if full {
                            le::i16_at(s, r + 78)
                        } else {
                            -1i16
                        },
                    },
                    end,
                ),
            )
        } else {
            None
        }
    }

    /// Reads the fields in their order. On an underrun the position is
    /// wherever the last whole field ended.
    fn read_fields(reader: &mut Reader, version: &str) -> (res: Result<Type50, DecodeError>)
        ensures
            final(reader).bytes() == old(reader).bytes(),
            final(reader).pos() >= old(reader).pos(),
            match res {
                Ok(v) => Type50::parse(old(reader).bytes(), old(reader).pos(), version@) == Some(
                    (v@, final(reader).pos()),
                ),
                Err(e) => e == DecodeError::Underrun && Type50::parse(
                    old(reader).bytes(),
                    old(reader).pos(),
                    version@,
                ) is None,
            },
    {
        let full = gates(version).v8_4;
        reader.need(4)?;
        let base_armor = reader.i16_at(0);
        let attack_count = item_count(reader.i16_at(2));
        reader.advance(4);
        let attacks = read_array::<AttackOrArmor>(reader, attack_count)?;
        let armour_count = item_count(reader.read_i16()?);
        let armours = read_array::<AttackOrArmor>(reader, armour_count)?;
        let rest: usize = if full {
            80
        } else {
            64
        };
        reader.need(rest)?;
        let v = Type50 {
            base_armor,
            attacks,
            armours,
            defense_terrain_bonus: reader.i16_at(0),
            bonus_damage_resistance: reader.f32_at(2),
            max_range: reader.f32_at(6),
            blast_width: reader.f32_at(10),
            reload_time: reader.f32_at(14),
            projectile_unit_id: reader.i16_at(18),
            accuracy_percent: reader.i16_at(20),
            break_off_combat: reader.i8_at(22),
            frame_delay: reader.i16_at(23),
            graphic_displacement: peek_array::<F32>(reader, 25, 3),
            blast_attack_level: reader.i8_at(37),
            min_range: reader.f32_at(38),
            accuracy_dispersion: reader.f32_at(42),
            attack_graphic: reader.i16_at(46),
            displayed_melee_armour: reader.i16_at(48),
            displayed_attack: reader.i16_at(50),
            displayed_range: reader.f32_at(52),
            displayed_reload_time: reader.f32_at(56),
            blast_damage: reader.f32_at(60),
            damage_reflection: if full {
                reader.f32_at(64)
            } else {
                F32 { bits: 0 }
            },
            friendly_fire_damage: if full {
                reader.f32_at(68)
            } else {
                F32 { bits: 0x3F80_0000 }
            },
            interrupt_frame: if full {
                reader.i16_at(72)
            } else {
                -1
            },
            garrison_firepower: if full {
                reader.f32_at(74)
            } else {
                F32 { bits: 0 }
            },
            attack_graphic_2: if full {
                reader.i16_at(78)
            } else {
                -1
            },
        };
        reader.advance(rest);
        Ok(v)
    }

    /// Reads one combat record. Where the buffer ends before the record
    /// does, nothing is read.
    pub fn read_from(reader: &mut Reader, version: &str) -> (res: Result<Type50, DecodeError>)
        ensures
            decoded(
                *old(reader),
                *final(reader),
                res,
                Type50::parse(old(reader).bytes(), old(reader).pos(), version@),
            ),
    {
        let start = reader.position();
        let res = Type50::read_fields(reader, version);
        if res.is_err() {
            reader.rewind(start);
        }
        res
    }
}

/// Of two versions of which one lies before `"VER 8.4"` and the other does
/// not, the earlier one gives a combat record the defaults of the five
/// fields that came with that version, and the later one reads them from
/// the sixteen bytes at the end of the record.
pub proof fn lemma_combat_gate(s: Seq<u8>, p: int, v1: Seq<char>, v2: Seq<char>)
    requires
        !at_least(v1, VER_8_4@),
        at_least(v2, VER_8_4@),
        Type50::parse(s, p, v2) is Some,
    ensures
        Type50::parse(s, p, v1) is Some,
        ({
            let (early, early_end) = Type50::parse(s, p, v1)->Some_0;
            let (late, late_end) = Type50::parse(s, p, v2)->Some_0;
            &&& late_end == early_end + 16
            &&& early.damage_reflection == F32::zero()
            &&& early.friendly_fire_damage == F32::one()
            &&& early.interrupt_frame == -1
            &&& early.garrison_firepower == F32::zero()
            &&& early.attack_graphic_2 == -1
            &&& late.damage_reflection == le::f32_at(s, early_end)
            &&& late.friendly_fire_damage == le::f32_at(s, early_end + 4)
            &&& late.interrupt_frame == le::i16_at(s, early_end + 8)
            &&& late.garrison_firepower == le::f32_at(s, early_end + 10)
            &&& late.attack_graphic_2 == le::i16_at(s, early_end + 14)
            &&& late.base_armor == early.base_armor
            &&& late.attacks == early.attacks
            &&& late.armours == early.armours
            &&& late.blast_damage == early.blast_damage
        }),
{
}

/// A record that is found in a buffer is found, the same, in every buffer
/// that starts with that one; and it ends after its start and within the
/// buffer.
pub proof fn lemma_combat_in_longer(short: Seq<u8>, long: Seq<u8>, p: int, version: Seq<char>)
    requires
        starts_with(long, short),
        0 <= p,
        Type50::parse(short, p, version) is Some,
    ensures
        Type50::parse(long, p, version) == Type50::parse(short, p, version),
        p <= Type50::parse(short, p, version)->Some_0.1 <= short.len(),
{
    let q = Type50::armours_at(short, p);
    let r = Type50::rest_at(short, p);
    lemma_array_in_longer::<AttackOrArmor>(short, long, p + 4, count_of(le::i16_at(short, p + 2)));
    lemma_array_in_longer::<AttackOrArmor>(short, long, q + 2, count_of(le::i16_at(short, q)));
    lemma_array_in_longer::<F32>(short, long, r + 25, 3);
}

} // verus!
