//! Units: what every unit has, the ladder of type codes that decides what
//! a unit has beyond that, and the unit headers.

use crate::building::{lemma_building_in_longer, Building, BuildingView};
use crate::combat::{lemma_combat_in_longer, AttackOrArmor, Projectile, Type50, Type50View};
use crate::creatable::{lemma_creation_in_longer, Creatable, CreatableView, ResourceStorage};
use crate::error::DecodeError;
use crate::layout::{
    fixed_at, lemma_fixed_in_longer, read_one, starts_with, view_of_option, Fixed, Gated,
};
use crate::le;
use crate::le::F32;
use crate::reader::{decoded, decoded_plain, took, Reader};
use crate::record::Record;
use crate::task::{lemma_bird_in_longer, Bird, BirdView, Task};
use crate::text::{lemma_name_in_longer, name_at, read_debug_string};
use crate::version::{gates, gates_of};
use vstd::prelude::*;

verus! {

/// The graphic that shows a unit damaged to a given degree.
#[derive(Clone, Copy, Debug, PartialEq, Eq)]
pub struct DamageGraphic {
    pub graphic_id: i16,
    pub damage_percent: i16,
    pub apply_mode: i8,
}

impl Fixed for DamageGraphic {
    open spec fn size() -> nat {
        5
    }

    open spec fn at(s: Seq<u8>, p: int) -> DamageGraphic {
        DamageGraphic {
            graphic_id: le::i16_at(s, p),
            damage_percent: le::i16_at(s, p + 2),
            apply_mode: le::i8_at(s, p + 4),
        }
    }

    fn width() -> usize {
        5
    }

    fn peek(reader: &Reader, off: usize) -> DamageGraphic {
        DamageGraphic {
            graphic_id: reader.i16_at(off),
            damage_percent: reader.i16_at(off + 2),
            apply_mode: reader.i8_at(off + 4),
        }
    }

    proof fn lemma_at_in_longer(short: Seq<u8>, long: Seq<u8>, p: int) {
    }
}

impl DamageGraphic {
    /// Reads one record of 5 bytes.
    pub fn read_from(reader: &mut Reader) -> (res: Result<DamageGraphic, DecodeError>)
        ensures
            took(
                *old(reader),
                *final(reader),
                res,
                DamageGraphic::size() as int,
                DamageGraphic::at(old(reader).bytes(), old(reader).pos()),
            ),
    {
        read_one(reader)
    }
}

/// What a unit of type 30 or more has beyond its speed: how it moves and turns.
#[derive(Clone, Copy, Debug, PartialEq, Eq)]
pub struct DeadFish {
    pub walking_graphic: i16,
    pub running_graphic: i16,
    pub rotation_speed: F32,
    pub old_size_class: i8,
    pub tracking_unit: i16,
    pub tracking_unit_mode: i8,
    pub tracking_unit_density: F32,
    pub old_move_algorithm: i8,
    pub turn_radius: F32,
    pub turn_radius_speed: F32,
    pub max_yaw_per_second_moving: F32,
    pub stationary_yaw_revolution_time: F32,
    pub max_yaw_per_second_stationary: F32,
    pub min_collision_size_multiplier: F32,
}

impl Fixed for DeadFish {
    open spec fn size() -> nat {
        41
    }

    open spec fn at(s: Seq<u8>, p: int) -> DeadFish {
        DeadFish {
            walking_graphic: le::i16_at(s, p),
            running_graphic: le::i16_at(s, p + 2),
            rotation_speed: le::f32_at(s, p + 4),
            old_size_class: le::i8_at(s, p + 8),
            tracking_unit: le::i16_at(s, p + 9),
            tracking_unit_mode: le::i8_at(s, p + 11),
            tracking_unit_density: le::f32_at(s, p + 12),
            old_move_algorithm: le::i8_at(s, p + 16),
            turn_radius: le::f32_at(s, p + 17),
            turn_radius_speed: le::f32_at(s, p + 21),
            max_yaw_per_second_moving: le::f32_at(s, p + 25),
            stationary_yaw_revolution_time: le::f32_at(s, p + 29),
            max_yaw_per_second_stationary: le::f32_at(s, p + 33),
            min_collision_size_multiplier: le::f32_at(s, p + 37),
        }
    }

    fn width() -> usize {
        41
    }

    fn peek(reader: &Reader, off: usize) -> DeadFish {
        DeadFish {
            walking_graphic: reader.i16_at(off),
            running_graphic: reader.i16_at(off + 2),
            rotation_speed: reader.f32_at(off + 4),
            old_size_class: reader.i8_at(off + 8),
            tracking_unit: reader.i16_at(off + 9),
            tracking_unit_mode: reader.i8_at(off + 11),
            tracking_unit_density: reader.f32_at(off + 12),
            old_move_algorithm: reader.i8_at(off + 16),
            turn_radius: reader.f32_at(off + 17),
            turn_radius_speed: reader.f32_at(off + 21),
            max_yaw_per_second_moving: reader.f32_at(off + 25),
            stationary_yaw_revolution_time: reader.f32_at(off + 29),
            max_yaw_per_second_stationary: reader.f32_at(off + 33),
            min_collision_size_multiplier: reader.f32_at(off + 37),
        }
    }

    proof fn lemma_at_in_longer(short: Seq<u8>, long: Seq<u8>, p: int) {
    }
}

impl DeadFish {
    /// Reads one record of 41 bytes.
    pub fn read_from(reader: &mut Reader) -> (res: Result<DeadFish, DecodeError>)
        ensures
            took(
                *old(reader),
                *final(reader),
                res,
                DeadFish::size() as int,
                DeadFish::at(old(reader).bytes(), old(reader).pos()),
            ),
    {
        read_one(reader)
    }
}

/// Which records a unit has beyond what every unit has.
#[derive(Clone, Copy, Debug, PartialEq, Eq, Structural)]
pub struct UnitParts {
    pub speed: bool,
    pub dead_fish: bool,
    pub bird: bool,
    pub type_50: bool,
    pub projectile: bool,
    pub creatable: bool,
    pub building: bool,
}

/// The ladder of type codes. The codes 10 and 90 have nothing beyond what
/// every unit has. Of the others, each rung adds to the ones below it: a
/// speed from 20 on, movement from 30 on, tasks from 40 on, combat from 50
/// on, creation from 70 on. A projectile record belongs to the code 60
/// alone, a building record to the code 80 alone.
pub open spec fn parts_of(t: u8) -> UnitParts {
    UnitParts {
        speed: t >= 20 && t != 10 && t != 90,
        dead_fish: t >= 30 && t != 10 && t != 90,
        bird: t >= 40 && t != 10 && t != 90,
        type_50: t >= 50 && t != 10 && t != 90,
        projectile: t == 60,
        creatable: t >= 70 && t != 10 && t != 90,
        building: t == 80,
    }
}

impl UnitParts {
    /// The records that a unit of type `t` has.
    pub fn of(t: u8) -> (parts: UnitParts)
        ensures
            parts == parts_of(t),
    {
        let mut parts = UnitParts {
            speed: false,
            dead_fish: false,
            bird: false,
            type_50: false,
            projectile: false,
            creatable: false,
            building: false,
        };
        if t != 10 && t != 90 {
            if t >= 20 {
                parts.speed = true;
                if t >= 30 {
                    parts.dead_fish = true;
                }
                if t >= 40 {
                    parts.bird = true;
                }
                if t >= 50 {
                    parts.type_50 = true;
                }
                if t == 60 {
                    parts.projectile = true;
                }
                if t >= 70 {
                    parts.creatable = true;
                }
                if t == 80 {
                    parts.building = true;
                }
            }
        }
        parts
    }
}

/// What a part that may be absent gives: nothing, at no cost, where it is
/// absent; what was found where it is present; and no outcome where it is
/// present and the buffer is too short for it.
pub open spec fn optional<V>(present: bool, found: Option<(V, int)>, p: int) -> Option<
    (Option<V>, int),
> {
    if !present {
        Some((None, p))
    } else {
        match found {
            Some((v, q)) => Some((Some(v), q)),
            None => None,
        }
    }
}

/// A unit: what every unit has, and the records that its type adds.
#[derive(Clone, Debug, PartialEq, Eq)]
pub struct Unit {
    /// The type code, which decides which of the records below are present.
    pub type_: u8,
    pub id: i16,
    pub name: String,
    pub hit_points: i16,
    pub line_of_sight: F32,
    /// Stored for the types that move; 0.0 for the others.
    pub speed: F32,
    pub dead_fish: Option<DeadFish>,
    pub bird: Option<Bird>,
    pub type_50: Option<Type50>,
    pub projectile: Option<Projectile>,
    pub creatable: Option<Creatable>,
    pub building: Option<Building>,
}

/// A unit as a mathematical value.
pub struct UnitView {
    pub type_: u8,
    pub id: i16,
    pub name: Seq<char>,
    pub hit_points: i16,
    pub line_of_sight: F32,
    pub speed: F32,
    pub dead_fish: Option<DeadFish>,
    pub bird: Option<BirdView>,
    pub type_50: Option<Type50View>,
    pub projectile: Option<Projectile>,
    pub creatable: Option<CreatableView>,
    pub building: Option<BuildingView>,
}

impl View for Unit {
    type V = UnitView;

    open spec fn view(&self) -> UnitView {
        UnitView {
            type_: self.type_,
            id: self.id,
            name: self.name@,
            hit_points: self.hit_points,
            line_of_sight: self.line_of_sight,
            speed: self.speed,
            dead_fish: self.dead_fish,
            bird: view_of_option(self.bird),
            type_50: view_of_option(self.type_50),
            projectile: self.projectile,
            creatable: view_of_option(self.creatable),
            building: view_of_option(self.building),
        }
    }
}

/// What a unit has beyond what every unit has, as a mathematical value.
pub struct LadderView {
    pub speed: F32,
    pub dead_fish: Option<DeadFish>,
    pub bird: Option<BirdView>,
    pub type_50: Option<Type50View>,
    pub projectile: Option<Projectile>,
    pub creatable: Option<CreatableView>,
    pub building: Option<BuildingView>,
}

impl Unit {
    /// The width of the fields at the head of a unit: 136 bytes from
    /// `"VER 8.8"` on, and four more before, for a hot key that later
    /// versions keep elsewhere.
    pub open spec fn head_len(version: Seq<char>) -> int {
        if gates_of(version).v8_8 {
            136
        } else {
            140
        }
    }

    /// Where the name of the unit at `p` stands: after the head, three
    /// resource storages, the count of the damage graphics in one byte, that
    /// many damage graphics, and 22 bytes more.
    pub open spec fn name_pos(s: Seq<u8>, p: int, version: Seq<char>) -> int {
        let d = p + Unit::head_len(version) + 3 * ResourceStorage::size();
        d + 1 + le::u8_at(s, d) * DamageGraphic::size() + 22
    }

    /// The name of the unit at `p`, and where the records that depend on
    /// its type start: four bytes after the name, if the buffer reaches that
    /// far.
    pub open spec fn named_at(s: Seq<u8>, p: int, version: Seq<char>) -> Option<(Seq<char>, int)> {
        match name_at(s, Unit::name_pos(s, p, version)) {
            Some((name, q)) => if q + 4 <= s.len() {
                Some((name, q + 4))
            } else {
                None
            },
            None => None,
        }
    }

    /// The records that a unit with the given parts has from `l` on, with the
    /// position after them, if the buffer reaches that far. The records that
    /// the unit has follow one another; the others take no bytes.
    pub open spec fn ladder_at(s: Seq<u8>, l: int, version: Seq<char>, parts: UnitParts) -> Option<
        (LadderView, int),
    > {
        match optional(parts.speed, fixed_at::<F32>(s, l), l) {
            None => None,
            Some((speed, a)) => match optional(parts.dead_fish, fixed_at::<DeadFish>(s, a), a) {
                None => None,
                Some((dead_fish, b)) => match optional(
                    parts.bird,
                    Bird::parse(s, b, version),
                    b,
                ) {
                    None => None,
                    Some((bird, c)) => match optional(
                        parts.type_50,
                        Type50::parse(s, c, version),
                        c,
                    ) {
                        None => None,
                        Some((type_50, d)) => match optional(
                            parts.projectile,
                            fixed_at::<Projectile>(s, d),
                            d,
                        ) {
                            None => None,
                            Some((projectile, e)) => match optional(
                                parts.creatable,
                                Creatable::parse(s, e, version),
                                e,
                            ) {
                                None => None,
                                Some((creatable, f)) => match optional(
                                    parts.building,
                                    Building::parse(s, f),
                                    f,
                                ) {
                                    None => None,
                                    Some((building, end)) => Some(
                                        (
                                            LadderView {
                                                speed: match speed {
                                                    Some(v) => v,
                                                    None => F32::zero(),
                                                },
                                                dead_fish,
                                                bird,
                                                type_50,
                                                projectile,
                                                creatable,
                                                building,
                                            },
                                            end,
                                        ),
                                    ),
                                },
                            },
                        },
                    },
                },
            },
        }
    }

    /// The unit that stands at `p` under `version`, with the position after
    /// it, if the buffer reaches that far.
    pub open spec fn parse(s: Seq<u8>, p: int, version: Seq<char>) -> Option<(UnitView, int)> {
        match Unit::named_at(s, p, version) {
            None => None,
            Some((name, l)) => match Unit::ladder_at(s, l, version, parts_of(le::u8_at(s, p))) {
                None => None,
                Some((ladder, end)) => Some(
                    (
                        UnitView {
                            type_: le::u8_at(s, p),
                            id: le::i16_at(s, p + 1),
                            name,
                            hit_points: le::i16_at(s, p + 22),
                            line_of_sight: le::f32_at(s, p + 24),
                            speed: ladder.speed,
                            dead_fish: ladder.dead_fish,
                            bird: ladder.bird,
                            type_50: ladder.type_50,
                            projectile: ladder.projectile,
                            creatable: ladder.creatable,
                            building: ladder.building,
                        },
                        end,
                    ),
                ),
            },
        }
    }

    /// Reads what every unit has, up to where the records that depend on
    /// the type start.
    fn read_head(reader: &mut Reader, version: &str) -> (res: Result<Unit, DecodeError>)
        ensures
            final(reader).bytes() == old(reader).bytes(),
            final(reader).pos() >= old(reader).pos(),
            ({
                let s = old(reader).bytes();
                let p = old(reader).pos();
                match res {
                    Ok(v) => Unit::named_at(s, p, version@) == Some((v.name@, final(reader).pos()))
                        && v.type_ == le::u8_at(s, p) && v.id == le::i16_at(s, p + 1)
                        && v.hit_points == le::i16_at(s, p + 22) && v.line_of_sight == le::f32_at(
                        s,
                        p + 24,
                    ) && v.speed == F32::zero() && v.has_parts(parts_of(10)),
                    Err(e) => e == DecodeError::Underrun && Unit::named_at(s, p, version@) is None,
                }
            }),
    {
        let g = gates(version);
        let head: usize = if g.v8_8 {
            136
        } else {
            140
        };
        reader.need(head + 22)?;
        let type_ = reader.u8_at(0);
        let id = reader.i16_at(1);
        let hit_points = reader.i16_at(22);
        let line_of_sight = reader.f32_at(24);
        let damage_graphics = reader.u8_at(head + 21) as usize;
        reader.advance(head + 22);
        reader.skip_forward(5 * damage_graphics + 22)?;
        let name = read_debug_string(reader)?;
        reader.skip_forward(4)?;
        Ok(
            Unit {
                type_,
                id,
                name,
                hit_points,
                line_of_sight,
                speed: F32 { bits: 0 },
                dead_fish: None,
                bird: None,
                type_50: None,
                projectile: None,
                creatable: None,
                building: None,
            },
        )
    }

    /// Reads the records that the type of `unit` calls for into it.
    fn read_ladder(reader: &mut Reader, version: &str, unit: &mut Unit) -> (res: Result<
        (),
        DecodeError,
    >)
        requires
            old(unit).speed == F32::zero(),
            old(unit).has_parts(parts_of(10)),
        ensures
            final(reader).bytes() == old(reader).bytes(),
            final(reader).pos() >= old(reader).pos(),
            final(unit).type_ == old(unit).type_,
            final(unit).id == old(unit).id,
            final(unit).name == old(unit).name,
            final(unit).hit_points == old(unit).hit_points,
            final(unit).line_of_sight == old(unit).line_of_sight,
            ({
                let found = Unit::ladder_at(
                    old(reader).bytes(),
                    old(reader).pos(),
                    version@,
                    parts_of(old(unit).type_),
                );
                match res {
                    Ok(_) => found == Some((final(unit).ladder(), final(reader).pos())),
                    Err(e) => e == DecodeError::Underrun && found is None,
                }
            }),
    {
        let parts = UnitParts::of(unit.type_);
        if parts.speed {
            unit.speed = reader.read_f32()?;
        }
        if parts.dead_fish {
            unit.dead_fish = Some(DeadFish::read_from(reader)?);
        }
        if parts.bird {
            unit.bird = Some(Bird::read_from(reader, version)?);
        }
        if parts.type_50 {
            unit.type_50 = Some(Type50::read_from(reader, version)?);
        }
        if parts.projectile {
            unit.projectile = Some(Projectile::read_from(reader)?);
        }
        if parts.creatable {
            unit.creatable = Some(Creatable::read_from(reader, version)?);
        }
        if parts.building {
            unit.building = Some(Building::read_from(reader)?);
        }
        Ok(())
    }

    /// Reads the parts in their order. On an underrun the position is
    /// wherever the last whole part ended.
    fn read_fields(reader: &mut Reader, version: &str) -> (res: Result<Unit, DecodeError>)
        ensures
            final(reader).bytes() == old(reader).bytes(),
            final(reader).pos() >= old(reader).pos(),
            match res {
                Ok(v) => Unit::parse(old(reader).bytes(), old(reader).pos(), version@) == Some(
                    (v@, final(reader).pos()),
                ),
                Err(e) => e == DecodeError::Underrun && Unit::parse(
                    old(reader).bytes(),
                    old(reader).pos(),
                    version@,
                ) is None,
            },
    {
        let mut unit = Unit::read_head(reader, version)?;
        Unit::read_ladder(reader, version, &mut unit)?;
        Ok(unit)
    }

    /// What the unit has beyond what every unit has.
    pub open spec fn ladder(&self) -> LadderView {
        LadderView {
            speed: self.speed,
            dead_fish: self.dead_fish,
            bird: view_of_option(self.bird),
            type_50: view_of_option(self.type_50),
            projectile: self.projectile,
            creatable: view_of_option(self.creatable),
            building: view_of_option(self.building),
        }
    }

    /// Reads one unit. Where the buffer ends before the unit does, nothing
    /// is read.
    pub fn read_from(reader: &mut Reader, version: &str) -> (res: Result<Unit, DecodeError>)
        ensures
            decoded(
                *old(reader),
                *final(reader),
                res,
                Unit::parse(old(reader).bytes(), old(reader).pos(), version@),
            ),
            res matches Ok(unit) ==> unit.has_parts(parts_of(unit.type_)),
    {
        let start = reader.position();
        let res = Unit::read_fields(reader, version);
        if res.is_err() {
            reader.rewind(start);
        }
        res
    }

    /// The records that the unit has are those that `parts` names.
    pub open spec fn has_parts(&self, parts: UnitParts) -> bool {
        &&& self.dead_fish is Some == parts.dead_fish
        &&& self.bird is Some == parts.bird
        &&& self.type_50 is Some == parts.type_50
        &&& self.projectile is Some == parts.projectile
        &&& self.creatable is Some == parts.creatable
        &&& self.building is Some == parts.building
    }

    /// The attacks of the unit: those of its combat record, or none where it
    /// has no such record.
    pub fn attacks(&self) -> (out: Vec<AttackOrArmor>)
        ensures
            out@ == (match self.type_50 {
                Some(t) => t.attacks@,
                None => Seq::empty(),
            }),
    {
        match &self.type_50 {
            Some(t) => copy_amounts(&t.attacks),
            None => Vec::new(),
        }
    }

    /// The armours of the unit: those of its combat record, or none where
    /// it has no such record.
    pub fn armours(&self) -> (out: Vec<AttackOrArmor>)
        ensures
            out@ == (match self.type_50 {
                Some(t) => t.armours@,
                None => Seq::empty(),
            }),
    {
        match &self.type_50 {
            Some(t) => copy_amounts(&t.armours),
            None => Vec::new(),
        }
    }
}

/// A unit that is found in a buffer has the records that its type code calls
/// for and no others, and a speed of 0.0 where its type code calls for
/// none.
pub proof fn lemma_unit_parts(s: Seq<u8>, p: int, version: Seq<char>)
    requires
        Unit::parse(s, p, version) is Some,
    ensures
        ({
            let unit = Unit::parse(s, p, version)->Some_0.0;
            let parts = parts_of(unit.type_);
            &&& unit.dead_fish is Some == parts.dead_fish
            &&& unit.bird is Some == parts.bird
            &&& unit.type_50 is Some == parts.type_50
            &&& unit.projectile is Some == parts.projectile
            &&& unit.creatable is Some == parts.creatable
            &&& unit.building is Some == parts.building
            &&& !parts.speed ==> unit.speed == F32::zero()
        }),
{
}

/// The ladder is additive: of two type codes on it, the higher calls for
/// every record that the lower calls for, but for the two records that
/// belong to one code alone.
pub proof fn lemma_ladder_is_additive(low: u8, high: u8)
    requires
        low <= high,
        high != 10 && high != 90,
    ensures
        parts_of(low).speed ==> parts_of(high).speed,
        parts_of(low).dead_fish ==> parts_of(high).dead_fish,
        parts_of(low).bird ==> parts_of(high).bird,
        parts_of(low).type_50 ==> parts_of(high).type_50,
        parts_of(low).creatable ==> parts_of(high).creatable,
{
}

/// The type codes 10 and 90 call for no record and no speed.
pub proof fn lemma_nothing_for_10_and_90(t: u8)
    requires
        t == 10 || t == 90,
    ensures
        parts_of(t) == (UnitParts {
            speed: false,
            dead_fish: false,
            bird: false,
            type_50: false,
            projectile: false,
            creatable: false,
            building: false,
        }),
{
}

/// The records that a unit has beyond what every unit has, where they are
/// found in a buffer, are found, the same, in every buffer that starts
/// with that one; and they end at or after their start and within the
/// buffer.
pub proof fn lemma_ladder_in_longer(
    short: Seq<u8>,
    long: Seq<u8>,
    l: int,
    version: Seq<char>,
    parts: UnitParts,
)
    requires
        starts_with(long, short),
        0 <= l <= short.len(),
        Unit::ladder_at(short, l, version, parts) is Some,
    ensures
        Unit::ladder_at(long, l, version, parts) == Unit::ladder_at(short, l, version, parts),
        l <= Unit::ladder_at(short, l, version, parts)->Some_0.1 <= short.len(),
{
    let speed = optional(parts.speed, fixed_at::<F32>(short, l), l);
    let a = speed->Some_0.1;
    if parts.speed {
        lemma_fixed_in_longer::<F32>(short, long, l);
    }
    assert(optional(parts.speed, fixed_at::<F32>(long, l), l) == speed);
    let dead_fish = optional(parts.dead_fish, fixed_at::<DeadFish>(short, a), a);
    let b = dead_fish->Some_0.1;
    if parts.dead_fish {
        lemma_fixed_in_longer::<DeadFish>(short, long, a);
    }
    assert(optional(parts.dead_fish, fixed_at::<DeadFish>(long, a), a) == dead_fish);
    let bird = optional(parts.bird, Bird::parse(short, b, version), b);
    let c = bird->Some_0.1;
    if parts.bird {
        lemma_bird_in_longer(short, long, b, version);
    }
    assert(optional(parts.bird, Bird::parse(long, b, version), b) == bird);
    let type_50 = optional(parts.type_50, Type50::parse(short, c, version), c);
    let d = type_50->Some_0.1;
    if parts.type_50 {
        lemma_combat_in_longer(short, long, c, version);
    }
    assert(optional(parts.type_50, Type50::parse(long, c, version), c) == type_50);
    let projectile = optional(parts.projectile, fixed_at::<Projectile>(short, d), d);
    let e = projectile->Some_0.1;
    if parts.projectile {
        lemma_fixed_in_longer::<Projectile>(short, long, d);
    }
    assert(optional(parts.projectile, fixed_at::<Projectile>(long, d), d) == projectile);
    let creatable = optional(parts.creatable, Creatable::parse(short, e, version), e);
    let f = creatable->Some_0.1;
    if parts.creatable {
        lemma_creation_in_longer(short, long, e, version);
    }
    assert(optional(parts.creatable, Creatable::parse(long, e, version), e) == creatable);
    let building = optional(parts.building, Building::parse(short, f), f);
    if parts.building {
        lemma_building_in_longer(short, long, f);
    }
    assert(optional(parts.building, Building::parse(long, f), f) == building);
}

/// A unit that is found in a buffer is found, the same, in every buffer
/// that starts with that one; and it ends after its start and within the
/// buffer.
pub proof fn lemma_unit_in_longer(short: Seq<u8>, long: Seq<u8>, p: int, version: Seq<char>)
    requires
        starts_with(long, short),
        0 <= p,
        Unit::parse(short, p, version) is Some,
    ensures
        Unit::parse(long, p, version) == Unit::parse(short, p, version),
        p <= Unit::parse(short, p, version)->Some_0.1 <= short.len(),
{
    lemma_name_in_longer(short, long, Unit::name_pos(short, p, version));
    let l = Unit::named_at(short, p, version)->Some_0.1;
    lemma_ladder_in_longer(short, long, l, version, parts_of(le::u8_at(short, p)));
}

/// A copy of a list of amounts.
fn copy_amounts(items: &Vec<AttackOrArmor>) -> (out: Vec<AttackOrArmor>)
    ensures
        out@ == items@,
{
    let mut out: Vec<AttackOrArmor> = Vec::new();
    let mut i: usize = 0;
    while i < items.len()
        invariant
            i <= items@.len(),
            out@ == items@.subrange(0, i as int),
        decreases items@.len() - i,
    {
        out.push(items[i]);
        assert(out@ =~= items@.subrange(0, i + 1));
        i = i + 1;
    }
    assert(items@.subrange(0, items@.len() as int) =~= items@);
    out
}

/// The header of a unit. It says whether the unit exists; the tasks that
/// follow it in the archive are passed over.
#[derive(Clone, Copy, Debug, PartialEq, Eq)]
pub struct UnitHeaders {
    /// Zero where the unit does not exist.
    pub exists: u8,
}

impl UnitHeaders {
    /// The header that stands at `p` under `version`, with the position
    /// after it, if the buffer reaches that far: one byte where the unit
    /// does not exist; otherwise that byte, a count in two bytes and that
    /// many tasks.
    pub open spec fn parse(s: Seq<u8>, p: int, version: Seq<char>) -> Option<(UnitHeaders, int)> {
        let end = if p < s.len() && le::u8_at(s, p) == 0 {
            p + 1
        } else {
            p + 3 + le::u16_at(s, p + 1) * Task::size(gates_of(version).v8_8)
        };
        if end <= s.len() {
            Some((UnitHeaders { exists: le::u8_at(s, p) }, end))
        } else {
            None
        }
    }

    /// Reads one header and passes over its tasks. Where the buffer ends
    /// before they do, nothing is read.
    pub fn read_from(reader: &mut Reader, version: &str) -> (res: Result<UnitHeaders, DecodeError>)
        ensures
            decoded_plain(
                *old(reader),
                *final(reader),
                res,
                UnitHeaders::parse(old(reader).bytes(), old(reader).pos(), version@),
            ),
    {
        let g = gates(version);
        reader.need(1)?;
        let exists = reader.u8_at(0);
        if exists == 0 {
            reader.advance(1);
        } else {
            reader.need(3)?;
            let count = reader.u16_at(1) as usize;
            let width = <Task as Gated>::width(g.v8_8);
            assert(count * width <= 65535 * 128) by (nonlinear_arith)
                requires
                    count <= 65535,
                    width <= 128,
            ;
            reader.need(3 + count * width)?;
            reader.advance(3 + count * width);
        }
        Ok(UnitHeaders { exists })
    }
}

impl View for UnitHeaders {
    type V = UnitHeaders;

    open spec fn view(&self) -> UnitHeaders {
        *self
    }
}

impl Record for UnitHeaders {
    open spec fn found(s: Seq<u8>, p: int, version: Seq<char>) -> Option<(UnitHeaders, int)> {
        UnitHeaders::parse(s, p, version)
    }

    fn read(reader: &mut Reader, version: &str) -> (res: Result<UnitHeaders, DecodeError>) {
        UnitHeaders::read_from(reader, version)
    }

    proof fn lemma_found_in_longer(short: Seq<u8>, long: Seq<u8>, p: int, version: Seq<char>) {
    }
}

} // verus!
