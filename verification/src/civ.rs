//! Civilisations and the slots of their units.

use crate::error::DecodeError;
use crate::layout::{
    array_at, lemma_array_in_longer, read_array, starts_with, view_of_option, views_of_options,
};
use crate::le;
use crate::le::F32;
use crate::reader::{decoded, Reader};
use crate::record::Record;
use crate::text::{lemma_name_in_longer, name_at, read_debug_string};
use crate::unit::{lemma_unit_in_longer, optional, Unit, UnitView};
use vstd::prelude::*;

verus! {

/// A civilisation: its name, its resources and its units.
#[derive(Clone, Debug, PartialEq, Eq)]
pub struct Civ {
    pub name: String,
    /// One slot for each unit that the civilisation could have; a slot is
    /// empty where it has none.
    pub units: Vec<Option<Unit>>,
    pub resources: Vec<F32>,
}

/// A civilisation as a mathematical value.
pub struct CivView {
    pub name: Seq<char>,
    pub units: Seq<Option<UnitView>>,
    pub resources: Seq<F32>,
}

impl View for Civ {
    type V = CivView;

    open spec fn view(&self) -> CivView {
        CivView {
            name: self.name@,
            units: views_of_options(self.units@),
            resources: self.resources@,
        }
    }
}

/// `found` with `slots` before what it holds.
pub open spec fn after_slots(
    slots: Seq<Option<UnitView>>,
    found: Option<(Seq<Option<UnitView>>, int)>,
) -> Option<(Seq<Option<UnitView>>, int)> {
    match found {
        Some((rest, end)) => Some((slots + rest, end)),
        None => None,
    }
}

impl Civ {
    /// The `j`-th address of the table of unit addresses that stands at
    /// `table`. An address has no meaning but this: it is zero where the
    /// civilisation has no unit in that slot.
    pub open spec fn address(s: Seq<u8>, table: int, j: int) -> i32 {
        le::i32_at(s, table + 4 * j)
    }

    /// The slots from the `i`-th on of a civilisation with `n` slots, whose
    /// table of unit addresses stands at `table`, the units of these slots
    /// standing from `at` on; with the position after them, if the buffer
    /// reaches that far. A slot whose address is zero is empty and takes no
    /// bytes; a slot whose address is not zero holds the unit that stands
    /// next.
    pub open spec fn slots_from(
        s: Seq<u8>,
        table: int,
        n: nat,
        i: nat,
        at: int,
        version: Seq<char>,
    ) -> Option<(Seq<Option<UnitView>>, int)>
        decreases n - i,
    {
        if i >= n {
            Some((Seq::empty(), at))
        } else {
            match optional(Civ::address(s, table, i as int) != 0, Unit::parse(s, at, version), at) {
                None => None,
                Some((slot, next)) => after_slots(
                    seq![slot],
                    Civ::slots_from(s, table, n, i + 1, next, version),
                ),
            }
        }
    }

    /// Where the resources of the civilisation whose name ends at `q`
    /// stand: after their count in two bytes and four bytes more.
    pub open spec fn resources_at(q: int) -> int {
        q + 6
    }

    /// Where the table of unit addresses stands in the civilisation whose
    /// name ends at `q`: after the resources, one byte, and the count of
    /// the slots in two bytes.
    pub open spec fn table_at(s: Seq<u8>, q: int) -> int {
        q + 6 + 4 * le::u16_at(s, q) + 3
    }

    /// How many slots the civilisation whose name ends at `q` has.
    pub open spec fn slot_count(s: Seq<u8>, q: int) -> nat {
        le::u16_at(s, Civ::table_at(s, q) - 2) as nat
    }

    /// The civilisation that stands at `p` under `version`, with the
    /// position after it, if the buffer reaches that far: one byte, the
    /// name, the resources, the table of unit addresses, and the units of
    /// the slots that are not empty.
    pub open spec fn parse(s: Seq<u8>, p: int, version: Seq<char>) -> Option<(CivView, int)> {
        match name_at(s, p + 1) {
            None => None,
            Some((name, q)) => {
                let table = Civ::table_at(s, q);
                let n = Civ::slot_count(s, q);
                if table + 4 * n <= s.len() {
                    match Civ::slots_from(s, table, n, 0, table + 4 * n, version) {
                        None => None,
                        Some((units, end)) => Some(
                            (
                                CivView {
                                    name,
                                    units,
                                    resources: array_at(s, q + 6, le::u16_at(s, q) as nat),
                                },
                                end,
                            ),
                        ),
                    }
                } else {
                    None
                }
            },
        }
    }

    /// Reads the units of the slots whose addresses are `table`.
    fn read_slots(
        reader: &mut Reader,
        version: &str,
        table: &Vec<i32>,
        Ghost(at): Ghost<int>,
    ) -> (res: Result<Vec<Option<Unit>>, DecodeError>)
        requires
            table@ == array_at::<i32>(old(reader).bytes(), at, table@.len()),
        ensures
            final(reader).bytes() == old(reader).bytes(),
            final(reader).pos() >= old(reader).pos(),
            ({
                let found = Civ::slots_from(
                    old(reader).bytes(),
                    at,
                    table@.len(),
                    0,
                    old(reader).pos(),
                    version@,
                );
                match res {
                    Ok(v) => found == Some((views_of_options(v@), final(reader).pos())),
                    Err(e) => e == DecodeError::Underrun && found is None,
                }
            }),
    {
        let ghost s = reader.bytes();
        let ghost start = reader.pos();
        let n = table.len();
        let mut units: Vec<Option<Unit>> = Vec::new();
        let mut i: usize = 0;
        while i < n
            invariant
                i <= n,
                n == table@.len(),
                s == old(reader).bytes(),
                start == old(reader).pos(),
                reader.bytes() == s,
                reader.pos() >= start,
                table@ == array_at::<i32>(s, at, n as nat),
                units@.len() == i,
                Civ::slots_from(s, at, n as nat, 0, start, version@) == after_slots(
                    views_of_options(units@),
                    Civ::slots_from(s, at, n as nat, i as nat, reader.pos(), version@),
                ),
            decreases n - i,
        {
            let ghost before = views_of_options(units@);
            assert(table@[i as int] == Civ::address(s, at, i as int));
            let slot = if table[i] != 0 {
                Some(Unit::read_from(reader, version)?)
            } else {
                None
            };
            units.push(slot);
            proof {
                let slot_view = view_of_option(slot);
                assert(views_of_options(units@) =~= before.push(slot_view));
                match Civ::slots_from(s, at, n as nat, (i + 1) as nat, reader.pos(), version@) {
                    Some((rest, end)) => {
                        assert(before + (seq![slot_view] + rest) =~= before.push(slot_view) + rest);
                    },
                    None => {},
                }
            }
            i = i + 1;
        }
        proof {
            assert(views_of_options(units@) + Seq::<Option<UnitView>>::empty() =~= views_of_options(
                units@,
            ));
        }
        Ok(units)
    }

    /// Reads the parts in their order. On an underrun the position is
    /// wherever the last whole part ended.
    fn read_fields(reader: &mut Reader, version: &str) -> (res: Result<Civ, DecodeError>)
        ensures
            final(reader).bytes() == old(reader).bytes(),
            final(reader).pos() >= old(reader).pos(),
            match res {
                Ok(v) => Civ::parse(old(reader).bytes(), old(reader).pos(), version@) == Some(
                    (v@, final(reader).pos()),
                ),
                Err(e) => e == DecodeError::Underrun && Civ::parse(
                    old(reader).bytes(),
                    old(reader).pos(),
                    version@,
                ) is None,
            },
    {
        reader.skip_forward(1)?;
        let name = read_debug_string(reader)?;
        reader.need(6)?;
        let resource_count = reader.u16_at(0) as usize;
        reader.advance(6);
        let resources = read_array::<F32>(reader, resource_count)?;
        reader.need(3)?;
        let slot_count = reader.u16_at(1) as usize;
        reader.advance(3);
        let ghost table_at = reader.pos();
        let table = read_array::<i32>(reader, slot_count)?;
        let units = Civ::read_slots(reader, version, &table, Ghost(table_at))?;
        Ok(Civ { name, units, resources })
    }

    /// Reads one civilisation. Where the buffer ends before the
    /// civilisation does, nothing is read.
    pub fn read_from(reader: &mut Reader, version: &str) -> (res: Result<Civ, DecodeError>)
        ensures
            decoded(
                *old(reader),
                *final(reader),
                res,
                Civ::parse(old(reader).bytes(), old(reader).pos(), version@),
            ),
    {
        let start = reader.position();
        let res = Civ::read_fields(reader, version);
        if res.is_err() {
            reader.rewind(start);
        }
        res
    }
}

/// The slots that `slots_from` gives are as many as are left of the table;
/// each holds a unit exactly where its address is not zero; and where none
/// of these addresses is not zero, no byte is taken.
pub proof fn lemma_slots(s: Seq<u8>, table: int, n: nat, i: nat, at: int, version: Seq<char>)
    requires
        i <= n,
        Civ::slots_from(s, table, n, i, at, version) is Some,
    ensures
        ({
            let (slots, end) = Civ::slots_from(s, table, n, i, at, version)->Some_0;
            &&& slots.len() == n - i
            &&& forall|j: int|
                0 <= j < n - i ==> (#[trigger] slots[j] is Some <==> Civ::address(s, table, i + j)
                    != 0)
            &&& (forall|j: int| i <= j < n ==> #[trigger] Civ::address(s, table, j) == 0) ==> end
                == at
        }),
    decreases n - i,
{
    if i < n {
        let here = optional(
            Civ::address(s, table, i as int) != 0,
            Unit::parse(s, at, version),
            at,
        );
        let (slot, next) = here->Some_0;
        lemma_slots(s, table, n, i + 1, next, version);
        let (rest, tail_end) = Civ::slots_from(s, table, n, i + 1, next, version)->Some_0;
        let (slots, end) = Civ::slots_from(s, table, n, i, at, version)->Some_0;
        assert(slots =~= seq![slot] + rest);
        assert forall|j: int| 0 <= j < n - i implies (#[trigger] slots[j] is Some <==> Civ::address(
            s,
            table,
            i + j,
        ) != 0) by {
            if j > 0 {
                assert(slots[j] == rest[j - 1]);
                assert(i + j == i + 1 + (j - 1));
            }
        }
        if forall|j: int| i <= j < n ==> #[trigger] Civ::address(s, table, j) == 0 {
            assert(Civ::address(s, table, i as int) == 0);
        }
    }
}

/// A civilisation has one slot for each address of its table, and a slot
/// holds a unit exactly where its address is not zero.
pub proof fn lemma_civ_slots(s: Seq<u8>, p: int, version: Seq<char>)
    requires
        Civ::parse(s, p, version) is Some,
    ensures
        ({
            let civ = Civ::parse(s, p, version)->Some_0.0;
            let q = name_at(s, p + 1)->Some_0.1;
            &&& civ.units.len() == Civ::slot_count(s, q)
            &&& forall|j: int|
                0 <= j < civ.units.len() ==> (#[trigger] civ.units[j] is Some <==> Civ::address(
                    s,
                    Civ::table_at(s, q),
                    j,
                ) != 0)
        }),
{
    let q = name_at(s, p + 1)->Some_0.1;
    let table = Civ::table_at(s, q);
    let n = Civ::slot_count(s, q);
    lemma_slots(s, table, n, 0, table + 4 * n, version);
}

/// The slots that are found in a buffer are found, the same, in every
/// buffer that starts with that one; and they end at or after their start
/// and within the buffer.
pub proof fn lemma_slots_in_longer(
    short: Seq<u8>,
    long: Seq<u8>,
    table: int,
    n: nat,
    i: nat,
    at: int,
    version: Seq<char>,
)
    requires
        starts_with(long, short),
        0 <= table,
        table + 4 * n <= short.len(),
        0 <= at <= short.len(),
        i <= n,
        Civ::slots_from(short, table, n, i, at, version) is Some,
    ensures
        Civ::slots_from(long, table, n, i, at, version) == Civ::slots_from(
            short,
            table,
            n,
            i,
            at,
            version,
        ),
        at <= Civ::slots_from(short, table, n, i, at, version)->Some_0.1 <= short.len(),
    decreases n - i,
{
    if i < n {
        assert(Civ::address(long, table, i as int) == Civ::address(short, table, i as int));
        if Civ::address(short, table, i as int) != 0 {
            lemma_unit_in_longer(short, long, at, version);
        }
        let next = optional(
            Civ::address(short, table, i as int) != 0,
            Unit::parse(short, at, version),
            at,
        )->Some_0.1;
        lemma_slots_in_longer(short, long, table, n, i + 1, next, version);
    }
}

impl Record for Civ {
    open spec fn found(s: Seq<u8>, p: int, version: Seq<char>) -> Option<(CivView, int)> {
        Civ::parse(s, p, version)
    }

    fn read(reader: &mut Reader, version: &str) -> (res: Result<Civ, DecodeError>) {
        Civ::read_from(reader, version)
    }

    proof fn lemma_found_in_longer(short: Seq<u8>, long: Seq<u8>, p: int, version: Seq<char>) {
        lemma_name_in_longer(short, long, p + 1);
        let q = name_at(short, p + 1)->Some_0.1;
        let table = Civ::table_at(short, q);
        let n = Civ::slot_count(short, q);
        lemma_array_in_longer::<F32>(short, long, q + 6, le::u16_at(short, q) as nat);
        lemma_slots_in_longer(short, long, table, n, 0, table + 4 * n, version);
    }
}

} // verus!
