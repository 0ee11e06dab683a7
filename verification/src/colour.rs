//! Player colours.

use crate::error::DecodeError;
use crate::layout::{fixed_at, lemma_fixed_in_longer, read_one, Fixed};
use crate::le;
use crate::reader::{took, Reader};
use crate::record::Record;
use vstd::prelude::*;

verus! {

/// A player colour: three of its descriptors. The record goes on for 24 bytes
/// that are passed over.
#[derive(Clone, Copy, Debug, PartialEq, Eq)]
pub struct PlayerColour {
    pub id: i32,
    pub base: i32,
    pub outline: i32,
}

impl Fixed for PlayerColour {
    open spec fn size() -> nat {
        36
    }

    open spec fn at(s: Seq<u8>, p: int) -> PlayerColour {
        PlayerColour {
            id: le::i32_at(s, p),
            base: le::i32_at(s, p + 4),
            outline: le::i32_at(s, p + 8),
        }
    }

    fn width() -> usize {
        36
    }

    fn peek(reader: &Reader, off: usize) -> PlayerColour {
        PlayerColour {
            id: reader.i32_at(off),
            base: reader.i32_at(off + 4),
            outline: reader.i32_at(off + 8),
        }
    }

    proof fn lemma_at_in_longer(short: Seq<u8>, long: Seq<u8>, p: int) {
    }
}

impl PlayerColour {
    /// Reads one record of 36 bytes, of which the first twelve are kept.
    pub fn read_from(reader: &mut Reader) -> (res: Result<PlayerColour, DecodeError>)
        ensures
            took(
                *old(reader),
                *final(reader),
                res,
                PlayerColour::size() as int,
                PlayerColour::at(old(reader).bytes(), old(reader).pos()),
            ),
    {
        read_one(reader)
    }
}

impl View for PlayerColour {
    type V = PlayerColour;

    open spec fn view(&self) -> PlayerColour {
        *self
    }
}

impl Record for PlayerColour {
    open spec fn found(s: Seq<u8>, p: int, version: Seq<char>) -> Option<(PlayerColour, int)> {
        fixed_at::<PlayerColour>(s, p)
    }

    fn read(reader: &mut Reader, _version: &str) -> (res: Result<PlayerColour, DecodeError>) {
        PlayerColour::read_from(reader)
    }

    proof fn lemma_found_in_longer(short: Seq<u8>, long: Seq<u8>, p: int, version: Seq<char>) {
        lemma_fixed_in_longer::<PlayerColour>(short, long, p);
    }
}

} // verus!
