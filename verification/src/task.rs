//! Tasks: what a unit can be told to do, and the record of a unit that
//! holds its tasks.

use crate::error::DecodeError;
use crate::layout::{
    array_at, count_of, gated_array_at, item_count, lemma_array_in_longer,
    lemma_gated_array_in_longer, read_array, read_gated, read_gated_array, starts_with, Gated,
};
use crate::le;
use crate::le::F32;
use crate::reader::{decoded, took, Reader};
use crate::version::{at_least, gates, gates_of, VER_7_7, VER_8_8};
use vstd::prelude::*;

verus! {

/// One thing that a unit can be told to do, and how it then works.
#[derive(Clone, Copy, Debug, PartialEq, Eq)]
pub struct Task {
    pub task_type: i16,
    pub id: i16,
    pub is_default: i8,
    pub action_type: i16,
    pub class_id: i16,
    pub unit_id: i16,
    pub terrain_id: i16,
    pub resource_in: i16,
    pub resource_multiplier: i16,
    pub resource_out: i16,
    pub unused_resource: i16,
    pub work_value_1: F32,
    pub work_value_2: F32,
    pub work_range: F32,
    pub auto_search_targets: i8,
    pub search_wait_time: F32,
    pub enable_targeting: i8,
    pub combat_level_flag: i8,
    pub gather_type: i16,
    pub work_flag_2: i16,
    pub target_diplomacy: i8,
    pub carry_check: i8,
    pub pick_for_construction: i8,
    pub moving_graphic_id: i16,
    pub proceeding_graphic_id: i16,
    pub working_graphic_id: i16,
    pub carrying_graphic_id: i16,
    pub resource_gathering_sound_id: i16,
    pub resource_deposit_sound_id: i16,
    pub wwise_resource_gathering_sound_id: i32,
    pub wwise_resource_deposit_sound_id: i32,
    /// Stored from `"VER 8.8"` on; -1 before.
    pub enabled: i16,
}

impl Gated for Task {
    open spec fn size(full: bool) -> nat {
        if full {
            69
        } else {
            67
        }
    }

    open spec fn at(s: Seq<u8>, p: int, full: bool) -> Task {
        Task {
            task_type: le::i16_at(s, p),
            id: le::i16_at(s, p + 2),
            is_default: le::i8_at(s, p + 4),
            action_type: le::i16_at(s, p + 5),
            class_id: le::i16_at(s, p + 7),
            unit_id: le::i16_at(s, p + 9),
            terrain_id: le::i16_at(s, p + 11),
            resource_in: le::i16_at(s, p + 13),
            resource_multiplier: le::i16_at(s, p + 15),
            resource_out: le::i16_at(s, p + 17),
            unused_resource: le::i16_at(s, p + 19),
            work_value_1: le::f32_at(s, p + 21),
            work_value_2: le::f32_at(s, p + 25),
            work_range: le::f32_at(s, p + 29),
            auto_search_targets: le::i8_at(s, p + 33),
            search_wait_time: le::f32_at(s, p + 34),
            enable_targeting: le::i8_at(s, p + 38),
            combat_level_flag: le::i8_at(s, p + 39),
            gather_type: le::i16_at(s, p + 40),
            work_flag_2: le::i16_at(s, p + 42),
            target_diplomacy: le::i8_at(s, p + 44),
            carry_check: le::i8_at(s, p + 45),
            pick_for_construction: le::i8_at(s, p + 46),
            moving_graphic_id: le::i16_at(s, p + 47),
            proceeding_graphic_id: le::i16_at(s, p + 49),
            working_graphic_id: le::i16_at(s, p + 51),
            carrying_graphic_id: le::i16_at(s, p + 53),
            resource_gathering_sound_id: le::i16_at(s, p + 55),
            resource_deposit_sound_id: le::i16_at(s, p + 57),
            wwise_resource_gathering_sound_id: le::i32_at(s, p + 59),
            wwise_resource_deposit_sound_id: le::i32_at(s, p + 63),
            enabled: if full {
                le::i16_at(s, p + 67)
            } else {
                -1i16
            },
        }
    }

    fn width(full: bool) -> usize {
        if full {
            69
        } else {
            67
        }
    }

    fn peek(reader: &Reader, off: usize, full: bool) -> Task {
        Task {
            task_type: reader.i16_at(off),
            id: reader.i16_at(off + 2),
            is_default: reader.i8_at(off + 4),
            action_type: reader.i16_at(off + 5),
            class_id: reader.i16_at(off + 7),
            unit_id: reader.i16_at(off + 9),
            terrain_id: reader.i16_at(off + 11),
            resource_in: reader.i16_at(off + 13),
            resource_multiplier: reader.i16_at(off + 15),
            resource_out: reader.i16_at(off + 17),
            unused_resource: reader.i16_at(off + 19),
            work_value_1: reader.f32_at(off + 21),
            work_value_2: reader.f32_at(off + 25),
            work_range: reader.f32_at(off + 29),
            auto_search_targets: reader.i8_at(off + 33),
            search_wait_time: reader.f32_at(off + 34),
            enable_targeting: reader.i8_at(off + 38),
            combat_level_flag: reader.i8_at(off + 39),
            gather_type: reader.i16_at(off + 40),
            work_flag_2: reader.i16_at(off + 42),
            target_diplomacy: reader.i8_at(off + 44),
            carry_check: reader.i8_at(off + 45),
            pick_for_construction: reader.i8_at(off + 46),
            moving_graphic_id: reader.i16_at(off + 47),
            proceeding_graphic_id: reader.i16_at(off + 49),
            working_graphic_id: reader.i16_at(off + 51),
            carrying_graphic_id: reader.i16_at(off + 53),
            resource_gathering_sound_id: reader.i16_at(off + 55),
            resource_deposit_sound_id: reader.i16_at(off + 57),
            wwise_resource_gathering_sound_id: reader.i32_at(off + 59),
            wwise_resource_deposit_sound_id: reader.i32_at(off + 63),
            enabled: if full {
                reader.i16_at(off + 67)
            } else {
                -1
            },
        }
    }

    proof fn lemma_at_in_longer(short: Seq<u8>, long: Seq<u8>, p: int, full: bool) {
    }
}

impl Task {
    /// The record that stands at `p` under `version`, with the position
    /// after it, if the buffer reaches that far.
    pub open spec fn parse(s: Seq<u8>, p: int, version: Seq<char>) -> Option<(Task, int)> {
        let full = gates_of(version).v8_8;
        if p + Task::size(full) <= s.len() {
            Some((Task::at(s, p, full), p + Task::size(full)))
        } else {
            None
        }
    }

    /// Reads one record: 69 bytes from `"VER 8.8"` on, 67 before.
    pub fn read_from(reader: &mut Reader, version: &str) -> (res: Result<
        Task,
        DecodeError,
    >)
        ensures
            took(
                *old(reader),
                *final(reader),
                res,
                Task::size(gates_of(version@).v8_8) as int,
                Task::at(
                    old(reader).bytes(),
                    old(reader).pos(),
                    gates_of(version@).v8_8,
                ),
            ),
    {
        read_gated(reader, gates(version).v8_8)
    }
}

/// What a unit of type 40 or more has beyond its movement: what it can be
/// told to do, and where it brings what it gathers.
#[derive(Clone, Debug, PartialEq, Eq)]
pub struct Bird {
    pub default_task_id: i16,
    pub search_radius: F32,
    pub work_rate: F32,
    /// Before `"VER 7.7"` three sites; from then on a counted list.
    pub drop_sites: Vec<i16>,
    pub task_swap_group: i8,
    pub attack_sound: i16,
    pub move_sound: i16,
    pub wwise_attack_sound_id: i32,
    pub wwise_move_sound_id: i32,
    pub run_pattern: i8,
    pub tasks: Vec<Task>,
}

/// A task-holder record as a mathematical value.
pub struct BirdView {
    pub default_task_id: i16,
    pub search_radius: F32,
    pub work_rate: F32,
    pub drop_sites: Seq<i16>,
    pub task_swap_group: i8,
    pub attack_sound: i16,
    pub move_sound: i16,
    pub wwise_attack_sound_id: i32,
    pub wwise_move_sound_id: i32,
    pub run_pattern: i8,
    pub tasks: Seq<Task>,
}

impl View for Bird {
    type V = BirdView;

    open spec fn view(&self) -> BirdView {
        BirdView {
            default_task_id: self.default_task_id,
            search_radius: self.search_radius,
            work_rate: self.work_rate,
            drop_sites: self.drop_sites@,
            task_swap_group: self.task_swap_group,
            attack_sound: self.attack_sound,
            move_sound: self.move_sound,
            wwise_attack_sound_id: self.wwise_attack_sound_id,
            wwise_move_sound_id: self.wwise_move_sound_id,
            run_pattern: self.run_pattern,
            tasks: self.tasks@,
        }
    }
}

impl Bird {
    /// How many drop sites the record at `p` has: three before `"VER 7.7"`,
    /// and from then on as many as the count ten bytes into the record says.
    pub open spec fn site_count_at(s: Seq<u8>, p: int, version: Seq<char>) -> nat {
        if gates_of(version).v7_7 {
            count_of(le::i16_at(s, p + 10))
        } else {
            3
        }
    }

    /// Where the drop sites of the record at `p` stand.
    pub open spec fn sites_at(p: int, version: Seq<char>) -> int {
        if gates_of(version).v7_7 {
            p + 12
        } else {
            p + 10
        }
    }

    /// Where the fields after the drop sites stand in the record at `p`.
    pub open spec fn rest_at(s: Seq<u8>, p: int, version: Seq<char>) -> int {
        Bird::sites_at(p, version) + 2 * Bird::site_count_at(s, p, version)
    }

    /// How many tasks the record at `p` has.
    pub open spec fn task_count_at(s: Seq<u8>, p: int, version: Seq<char>) -> nat {
        count_of(le::i16_at(s, Bird::rest_at(s, p, version) + 14))
    }

    /// Where the record at `p` ends.
    pub open spec fn end_at(s: Seq<u8>, p: int, version: Seq<char>) -> int {
        Bird::rest_at(s, p, version) + 16 + Bird::task_count_at(s, p, version) * Task::size(
            gates_of(version).v8_8,
        )
    }

    /// The record that stands at `p` under `version`, with the position
    /// after it, if the buffer reaches that far. No length is negative, so
    /// the record fits where its end does.
    pub open spec fn parse(s: Seq<u8>, p: int, version: Seq<char>) -> Option<(BirdView, int)> {
        let r = Bird::rest_at(s, p, version);
        let end = Bird::end_at(s, p, version);
        if end <= s.len() {
            Some(
                (
                    BirdView {
                        default_task_id: le::i16_at(s, p),
                        search_radius: le::f32_at(s, p + 2),
                        work_rate: le::f32_at(s, p + 6),
                        drop_sites: array_at(
                            s,
                            Bird::sites_at(p, version),
                            Bird::site_count_at(s, p, version),
                        ),
                        task_swap_group: le::i8_at(s, r),
                        attack_sound: le::i16_at(s, r + 1),
                        move_sound: le::i16_at(s, r + 3),
                        wwise_attack_sound_id: le::i32_at(s, r + 5),
                        wwise_move_sound_id: le::i32_at(s, r + 9),
                        run_pattern: le::i8_at(s, r + 13),
                        tasks: gated_array_at(
                            s,
                            r + 16,
                            Bird::task_count_at(s, p, version),
                            gates_of(version).v8_8,
                        ),
                    },
                    end,
                ),
            )
        } else {
            None
        }
    }

    /// Reads the parts in their order. On an underrun the position is
    /// wherever the last whole part ended.
    fn read_fields(reader: &mut Reader, version: &str) -> (res: Result<Bird, DecodeError>)
        ensures
            final(reader).bytes() == old(reader).bytes(),
            final(reader).pos() >= old(reader).pos(),
            match res {
                Ok(v) => Bird::parse(old(reader).bytes(), old(reader).pos(), version@) == Some(
                    (v@, final(reader).pos()),
                ),
                Err(e) => e == DecodeError::Underrun && Bird::parse(
                    old(reader).bytes(),
                    old(reader).pos(),
                    version@,
                ) is None,
            },
    {
        let g = gates(version);
        reader.need(10)?;
        let default_task_id = reader.i16_at(0);
        let search_radius = reader.f32_at(2);
        let work_rate = reader.f32_at(6);
        reader.advance(10);
        let site_count = if g.v7_7 {
            item_count(reader.read_i16()?)
        } else {
            3
        };
        let drop_sites = read_array::<i16>(reader, site_count)?;
        reader.need(16)?;
        let task_swap_group = reader.i8_at(0);
        let attack_sound = reader.i16_at(1);
        let move_sound = reader.i16_at(3);
        let wwise_attack_sound_id = reader.i32_at(5);
        let wwise_move_sound_id = reader.i32_at(9);
        let run_pattern = reader.i8_at(13);
        let task_count = item_count(reader.i16_at(14));
        reader.advance(16);
        let tasks = read_gated_array::<Task>(reader, task_count, g.v8_8)?;
        Ok(
            Bird {
                default_task_id,
                search_radius,
                work_rate,
                drop_sites,
                task_swap_group,
                attack_sound,
                move_sound,
                wwise_attack_sound_id,
                wwise_move_sound_id,
                run_pattern,
                tasks,
            },
        )
    }

    /// Reads one record. Where the buffer ends before the record does,
    /// nothing is read.
    pub fn read_from(reader: &mut Reader, version: &str) -> (res: Result<Bird, DecodeError>)
        ensures
            decoded(
                *old(reader),
                *final(reader),
                res,
                Bird::parse(old(reader).bytes(), old(reader).pos(), version@),
            ),
    {
        let start = reader.position();
        let res = Bird::read_fields(reader, version);
        if res.is_err() {
            reader.rewind(start);
        }
        res
    }
}

/// Of two versions of which one lies before `"VER 8.8"` and the other does
/// not, the earlier one reads a task as 67 bytes and gives it -1 in place
/// of the switch, and the later one reads the same bytes and two more,
/// which are its switch.
pub proof fn lemma_task_gate(s: Seq<u8>, p: int, v1: Seq<char>, v2: Seq<char>)
    requires
        !at_least(v1, VER_8_8@),
        at_least(v2, VER_8_8@),
        0 <= p,
        p + 69 <= s.len(),
    ensures
        Task::parse(s, p, v1) == Some((Task { enabled: -1i16, ..Task::at(s, p, true) }, p + 67)),
        Task::parse(s, p, v2) == Some(
            (Task { enabled: le::i16_at(s, p + 67), ..Task::at(s, p, true) }, p + 69),
        ),
{
}

/// Of two versions of which one lies before `"VER 7.7"` and the other does
/// not, the earlier one gives a unit three drop sites, which stand ten
/// bytes into the record, and the later one reads their count there and
/// the sites after it.
pub proof fn lemma_drop_site_gate(s: Seq<u8>, p: int, v1: Seq<char>, v2: Seq<char>)
    requires
        !at_least(v1, VER_7_7@),
        at_least(v2, VER_7_7@),
        Bird::parse(s, p, v1) is Some,
        Bird::parse(s, p, v2) is Some,
    ensures
        Bird::parse(s, p, v1)->Some_0.0.drop_sites == array_at::<i16>(s, p + 10, 3),
        Bird::parse(s, p, v2)->Some_0.0.drop_sites == array_at::<i16>(
            s,
            p + 12,
            count_of(le::i16_at(s, p + 10)),
        ),
{
}

/// A record that is found in a buffer is found, the same, in every buffer
/// that starts with that one; and it ends after its start and within the
/// buffer.
pub proof fn lemma_bird_in_longer(short: Seq<u8>, long: Seq<u8>, p: int, version: Seq<char>)
    requires
        starts_with(long, short),
        0 <= p,
        Bird::parse(short, p, version) is Some,
    ensures
        Bird::parse(long, p, version) == Bird::parse(short, p, version),
        p <= Bird::parse(short, p, version)->Some_0.1 <= short.len(),
{
    let full = gates_of(version).v8_8;
    let r = Bird::rest_at(short, p, version);
    lemma_array_in_longer::<i16>(
        short,
        long,
        Bird::sites_at(p, version),
        Bird::site_count_at(short, p, version),
    );
    lemma_gated_array_in_longer::<Task>(
        short,
        long,
        r + 16,
        Bird::task_count_at(short, p, version),
        full,
    );
}

} // verus!
