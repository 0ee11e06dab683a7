//! Technologies, where they are researched, and the marker of the
//! technology tree.

use crate::error::DecodeError;
use crate::layout::{count_of, item_count, read_one, Fixed};
use crate::le;
use crate::reader::{decoded, took, Reader};
use crate::record::Record;
use crate::text::{lemma_name_in_longer, name_at, read_debug_string};
use crate::version::{gates, gates_of};
use vstd::prelude::*;

verus! {

/// A building in which a technology is researched, with the button for it.
#[derive(Clone, Copy, Debug, PartialEq, Eq)]
pub struct ResearchLocation {
    pub location_id: i16,
    pub research_time: i16,
    pub button_id: i8,
    pub hot_key_id: i32,
}

impl Fixed for ResearchLocation {
    open spec fn size() -> nat {
        9
    }

    open spec fn at(s: Seq<u8>, p: int) -> ResearchLocation {
        ResearchLocation {
            location_id: le::i16_at(s, p),
            research_time: le::i16_at(s, p + 2),
            button_id: le::i8_at(s, p + 4),
            hot_key_id: le::i32_at(s, p + 5),
        }
    }

    fn width() -> usize {
        9
    }

    fn peek(reader: &Reader, off: usize) -> ResearchLocation {
        ResearchLocation {
            location_id: reader.i16_at(off),
            research_time: reader.i16_at(off + 2),
            button_id: reader.i8_at(off + 4),
            hot_key_id: reader.i32_at(off + 5),
        }
    }

    proof fn lemma_at_in_longer(short: Seq<u8>, long: Seq<u8>, p: int) {
    }
}

impl ResearchLocation {
    /// Reads one record of 9 bytes.
    pub fn read_from(reader: &mut Reader) -> (res: Result<ResearchLocation, DecodeError>)
        ensures
            took(
                *old(reader),
                *final(reader),
                res,
                ResearchLocation::size() as int,
                ResearchLocation::at(old(reader).bytes(), old(reader).pos()),
            ),
    {
        read_one(reader)
    }
}

/// A technology. Only its name is kept.
#[derive(Clone, Debug, PartialEq, Eq)]
pub struct Tech {
    pub name: String,
}

/// A technology as a mathematical value.
pub struct TechView {
    pub name: Seq<char>,
}

impl View for Tech {
    type V = TechView;

    open spec fn view(&self) -> TechView {
        TechView {
            name: self.name@,
        }
    }
}

impl Tech {
    /// Where the name of the technology at `p` stands: after 59 bytes from
    /// `"VER 8.8"` on, and after 68 before, when the record still held one
    /// research location, its button and its hot key among them.
    pub open spec fn name_pos(p: int, version: Seq<char>) -> int {
        if gates_of(version).v8_8 {
            p + 59
        } else {
            p + 68
        }
    }

    /// Where the technology whose name ends at `q` ends: one byte after the
    /// name and, from `"VER 8.8"` on, a count in two bytes and that many
    /// research locations.
    pub open spec fn end_after_name(s: Seq<u8>, q: int, version: Seq<char>) -> int {
        if gates_of(version).v8_8 {
            q + 3 + count_of(le::i16_at(s, q + 1)) * ResearchLocation::size()
        } else {
            q + 1
        }
    }

    /// The technology that stands at `p` under `version`, with the position
    /// after it, if the buffer reaches that far.
    pub open spec fn parse(s: Seq<u8>, p: int, version: Seq<char>) -> Option<(TechView, int)> {
        match name_at(s, Tech::name_pos(p, version)) {
            None => None,
            Some((name, q)) => if Tech::end_after_name(s, q, version) <= s.len() {
                Some((TechView { name }, Tech::end_after_name(s, q, version)))
            } else {
                None
            },
        }
    }

    /// Reads the parts in their order. On an underrun the position is
    /// wherever the last whole part ended.
    fn read_fields(reader: &mut Reader, version: &str) -> (res: Result<Tech, DecodeError>)
        ensures
            final(reader).bytes() == old(reader).bytes(),
            final(reader).pos() >= old(reader).pos(),
            match res {
                Ok(v) => Tech::parse(old(reader).bytes(), old(reader).pos(), version@) == Some(
                    (v@, final(reader).pos()),
                ),
                Err(e) => e == DecodeError::Underrun && Tech::parse(
                    old(reader).bytes(),
                    old(reader).pos(),
                    version@,
                ) is None,
            },
    {
        let g = gates(version);
        reader.skip_forward(
            if g.v8_8 {
                59
            } else {
                68
            },
        )?;
        let name = read_debug_string(reader)?;
        let _repeatable = reader.read_i8()?;
        if g.v8_8 {
            let count = item_count(reader.read_i16()?);
            reader.skip_forward(count * 9)?;
        }
        Ok(Tech { name })
    }

    /// Reads one technology. Where the buffer ends before the technology
    /// does, nothing is read.
    pub fn read_from(reader: &mut Reader, version: &str) -> (res: Result<Tech, DecodeError>)
        ensures
            decoded(
                *old(reader),
                *final(reader),
                res,
                Tech::parse(old(reader).bytes(), old(reader).pos(), version@),
            ),
    {
        let start = reader.position();
        let res = Tech::read_fields(reader, version);
        if res.is_err() {
            reader.rewind(start);
        }
        res
    }
}

impl Record for Tech {
    open spec fn found(s: Seq<u8>, p: int, version: Seq<char>) -> Option<(TechView, int)> {
        Tech::parse(s, p, version)
    }

    fn read(reader: &mut Reader, version: &str) -> (res: Result<Tech, DecodeError>) {
        Tech::read_from(reader, version)
    }

    proof fn lemma_found_in_longer(short: Seq<u8>, long: Seq<u8>, p: int, version: Seq<char>) {
        lemma_name_in_longer(short, long, Tech::name_pos(p, version));
    }
}

/// The technology tree. The archive is not searched for it: this value only
/// says that a tree is there.
#[derive(Clone, Copy, Debug, PartialEq, Eq, Structural)]
pub struct TechTree {
    pub exists: bool,
}

impl TechTree {
    /// Gives the marker of a tree. Reads nothing.
    pub fn read_from(reader: &mut Reader) -> (res: Result<TechTree, DecodeError>)
        ensures
            res == Ok::<TechTree, DecodeError>(TechTree { exists: true }),
            final(reader).bytes() == old(reader).bytes(),
            final(reader).pos() == old(reader).pos(),
    {
        Ok(TechTree { exists: true })
    }
}

} // verus!
