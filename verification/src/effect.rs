//! Effects and their commands.

use crate::error::DecodeError;
use crate::layout::{
    array_at, count_of, item_count, lemma_array_in_longer, read_array, read_one, Fixed,
};
use crate::le;
use crate::le::F32;
use crate::reader::{decoded, took, Reader};
use crate::record::Record;
use crate::text::{lemma_name_in_longer, name_at, read_debug_string};
use vstd::prelude::*;

verus! {

/// One command of an effect: its kind, three short parameters and one number.
#[derive(Clone, Copy, Debug, PartialEq, Eq)]
pub struct EffectCommand {
    pub type_: i8,
    pub a: i16,
    pub b: i16,
    pub c: i16,
    pub d: F32,
}

impl Fixed for EffectCommand {
    open spec fn size() -> nat {
        11
    }

    open spec fn at(s: Seq<u8>, p: int) -> EffectCommand {
        EffectCommand {
            type_: le::i8_at(s, p),
            a: le::i16_at(s, p + 1),
            b: le::i16_at(s, p + 3),
            c: le::i16_at(s, p + 5),
            d: le::f32_at(s, p + 7),
        }
    }

    fn width() -> usize {
        11
    }

    fn peek(reader: &Reader, off: usize) -> EffectCommand {
        EffectCommand {
            type_: reader.i8_at(off),
            a: reader.i16_at(off + 1),
            b: reader.i16_at(off + 3),
            c: reader.i16_at(off + 5),
            d: reader.f32_at(off + 7),
        }
    }

    proof fn lemma_at_in_longer(short: Seq<u8>, long: Seq<u8>, p: int) {
    }
}

impl EffectCommand {
    /// Reads one record of 11 bytes.
    pub fn read_from(reader: &mut Reader) -> (res: Result<EffectCommand, DecodeError>)
        ensures
            took(
                *old(reader),
                *final(reader),
                res,
                EffectCommand::size() as int,
                EffectCommand::at(old(reader).bytes(), old(reader).pos()),
            ),
    {
        read_one(reader)
    }
}

/// A named list of commands.
#[derive(Clone, Debug, PartialEq, Eq)]
pub struct Effect {
    pub name: String,
    pub commands: Vec<EffectCommand>,
}

/// An effect as a mathematical value.
pub struct EffectView {
    pub name: Seq<char>,
    pub commands: Seq<EffectCommand>,
}

impl View for Effect {
    type V = EffectView;

    open spec fn view(&self) -> EffectView {
        EffectView {
            name: self.name@,
            commands: self.commands@,
        }
    }
}

impl Effect {
    /// The effect that stands at `p`, with the position after it, if the
    /// buffer reaches that far: a name, a count in two bytes and that many
    /// commands.
    pub open spec fn parse(s: Seq<u8>, p: int) -> Option<(EffectView, int)> {
        match name_at(s, p) {
            None => None,
            Some((name, q)) => {
                let n = count_of(le::i16_at(s, q));
                let end = q + 2 + n * EffectCommand::size();
                if end <= s.len() {
                    Some((EffectView { name, commands: array_at(s, q + 2, n) }, end))
                } else {
                    None
                }
            },
        }
    }

    /// Reads the parts in their order. On an underrun the position is
    /// wherever the last whole part ended.
    fn read_fields(reader: &mut Reader) -> (res: Result<Effect, DecodeError>)
        ensures
            final(reader).bytes() == old(reader).bytes(),
            final(reader).pos() >= old(reader).pos(),
            match res {
                Ok(v) => Effect::parse(old(reader).bytes(), old(reader).pos()) == Some(
                    (v@, final(reader).pos()),
                ),
                Err(e) => e == DecodeError::Underrun && Effect::parse(
                    old(reader).bytes(),
                    old(reader).pos(),
                ) is None,
            },
    {
        let name = read_debug_string(reader)?;
        let count = item_count(reader.read_i16()?);
        let commands = read_array::<EffectCommand>(reader, count)?;
        Ok(Effect { name, commands })
    }

    /// Reads one effect. Where the buffer ends before the effect does,
    /// nothing is read.
    pub fn read_from(reader: &mut Reader) -> (res: Result<Effect, DecodeError>)
        ensures
            decoded(
                *old(reader),
                *final(reader),
                res,
                Effect::parse(old(reader).bytes(), old(reader).pos()),
            ),
    {
        let start = reader.position();
        let res = Effect::read_fields(reader);
        if res.is_err() {
            reader.rewind(start);
        }
        res
    }
}

impl Record for Effect {
    open spec fn found(s: Seq<u8>, p: int, version: Seq<char>) -> Option<(EffectView, int)> {
        Effect::parse(s, p)
    }

    fn read(reader: &mut Reader, _version: &str) -> (res: Result<Effect, DecodeError>) {
        Effect::read_from(reader)
    }

    proof fn lemma_found_in_longer(short: Seq<u8>, long: Seq<u8>, p: int, version: Seq<char>) {
        lemma_name_in_longer(short, long, p);
        let q = name_at(short, p)->Some_0.1;
        lemma_array_in_longer::<EffectCommand>(short, long, q + 2, count_of(le::i16_at(short, q)));
    }
}

} // verus!
