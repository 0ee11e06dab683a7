//! Graphics, and the deltas and angle sounds that follow them.

use crate::error::DecodeError;
use crate::layout::{read_one, Fixed};
use crate::le;
use crate::reader::{decoded, took, Reader};
use crate::record::Record;
use crate::text::{lemma_name_in_longer, name_at, read_debug_string};
use vstd::prelude::*;

verus! {

/// A graphic drawn together with another, at an offset.
#[derive(Clone, Copy, Debug, PartialEq, Eq)]
pub struct GraphicDelta {
    pub graphic_id: i16,
    pub padding_1: i16,
    pub sprite_ptr: i32,
    pub offset_x: i16,
    pub offset_y: i16,
    pub display_angle: i16,
    pub padding_2: i16,
}

impl Fixed for GraphicDelta {
    open spec fn size() -> nat {
        16
    }

    open spec fn at(s: Seq<u8>, p: int) -> GraphicDelta {
        GraphicDelta {
            graphic_id: le::i16_at(s, p),
            padding_1: le::i16_at(s, p + 2),
            sprite_ptr: le::i32_at(s, p + 4),
            offset_x: le::i16_at(s, p + 8),
            offset_y: le::i16_at(s, p + 10),
            display_angle: le::i16_at(s, p + 12),
            padding_2: le::i16_at(s, p + 14),
        }
    }

    fn width() -> usize {
        16
    }

    fn peek(reader: &Reader, off: usize) -> GraphicDelta {
        GraphicDelta {
            graphic_id: reader.i16_at(off),
            padding_1: reader.i16_at(off + 2),
            sprite_ptr: reader.i32_at(off + 4),
            offset_x: reader.i16_at(off + 8),
            offset_y: reader.i16_at(off + 10),
            display_angle: reader.i16_at(off + 12),
            padding_2: reader.i16_at(off + 14),
        }
    }

    proof fn lemma_at_in_longer(short: Seq<u8>, long: Seq<u8>, p: int) {
    }
}

impl GraphicDelta {
    /// Reads one record of 16 bytes.
    pub fn read_from(reader: &mut Reader) -> (res: Result<GraphicDelta, DecodeError>)
        ensures
            took(
                *old(reader),
                *final(reader),
                res,
                GraphicDelta::size() as int,
                GraphicDelta::at(old(reader).bytes(), old(reader).pos()),
            ),
    {
        read_one(reader)
    }
}

/// The sounds of a graphic at one angle: up to three, each bound to a frame.
#[derive(Clone, Copy, Debug, PartialEq, Eq)]
pub struct GraphicAngleSound {
    pub frame_num: i16,
    pub sound_id: i16,
    pub wwise_sound_id: i32,
    pub frame_num_2: i16,
    pub sound_id_2: i16,
    pub wwise_sound_id_2: i32,
    pub frame_num_3: i16,
    pub sound_id_3: i16,
    pub wwise_sound_id_3: i32,
}

impl Fixed for GraphicAngleSound {
    open spec fn size() -> nat {
        24
    }

    open spec fn at(s: Seq<u8>, p: int) -> GraphicAngleSound {
        GraphicAngleSound {
            frame_num: le::i16_at(s, p),
            sound_id: le::i16_at(s, p + 2),
            wwise_sound_id: le::i32_at(s, p + 4),
            frame_num_2: le::i16_at(s, p + 8),
            sound_id_2: le::i16_at(s, p + 10),
            wwise_sound_id_2: le::i32_at(s, p + 12),
            frame_num_3: le::i16_at(s, p + 16),
            sound_id_3: le::i16_at(s, p + 18),
            wwise_sound_id_3: le::i32_at(s, p + 20),
        }
    }

    fn width() -> usize {
        24
    }

    fn peek(reader: &Reader, off: usize) -> GraphicAngleSound {
        GraphicAngleSound {
            frame_num: reader.i16_at(off),
            sound_id: reader.i16_at(off + 2),
            wwise_sound_id: reader.i32_at(off + 4),
            frame_num_2: reader.i16_at(off + 8),
            sound_id_2: reader.i16_at(off + 10),
            wwise_sound_id_2: reader.i32_at(off + 12),
            frame_num_3: reader.i16_at(off + 16),
            sound_id_3: reader.i16_at(off + 18),
            wwise_sound_id_3: reader.i32_at(off + 20),
        }
    }

    proof fn lemma_at_in_longer(short: Seq<u8>, long: Seq<u8>, p: int) {
    }
}

impl GraphicAngleSound {
    /// Reads one record of 24 bytes.
    pub fn read_from(reader: &mut Reader) -> (res: Result<GraphicAngleSound, DecodeError>)
        ensures
            took(
                *old(reader),
                *final(reader),
                res,
                GraphicAngleSound::size() as int,
                GraphicAngleSound::at(old(reader).bytes(), old(reader).pos()),
            ),
    {
        read_one(reader)
    }
}

/// A graphic. Only its name is kept.
#[derive(Clone, Debug, PartialEq, Eq)]
pub struct Graphic {
    pub name: String,
}

/// A graphic as a mathematical value.
pub struct GraphicView {
    pub name: Seq<char>,
}

impl View for Graphic {
    type V = GraphicView;

    open spec fn view(&self) -> GraphicView {
        GraphicView {
            name: self.name@,
        }
    }
}

impl Graphic {
    /// Where the graphic whose third name ends at `c` ends: after 48 bytes,
    /// which hold the count of the deltas at their 19th byte, a flag at
    /// their 27th and the count of the angles at their 30th; after that many
    /// deltas; and, where the flag is not zero, after that many angle
    /// sounds.
    pub open spec fn end_after_names(s: Seq<u8>, c: int) -> int {
        c + 48 + le::u16_at(s, c + 18) * GraphicDelta::size() + if le::u8_at(s, c + 26) != 0 {
            le::u16_at(s, c + 29) * GraphicAngleSound::size()
        } else {
            0
        }
    }

    /// The graphic that stands at `p`, with the position after it, if the
    /// buffer reaches that far: three names, of which the first is kept, and
    /// what `end_after_names` describes.
    pub open spec fn parse(s: Seq<u8>, p: int) -> Option<(GraphicView, int)> {
        match name_at(s, p) {
            None => None,
            Some((name, a)) => match name_at(s, a) {
                None => None,
                Some((file_name, b)) => match name_at(s, b) {
                    None => None,
                    Some((particle, c)) => if Graphic::end_after_names(s, c) <= s.len() {
                        Some((GraphicView { name }, Graphic::end_after_names(s, c)))
                    } else {
                        None
                    },
                },
            },
        }
    }

    /// Reads the parts in their order. On an underrun the position is
    /// wherever the last whole part ended.
    fn read_fields(reader: &mut Reader) -> (res: Result<Graphic, DecodeError>)
        ensures
            final(reader).bytes() == old(reader).bytes(),
            final(reader).pos() >= old(reader).pos(),
            match res {
                Ok(v) => Graphic::parse(old(reader).bytes(), old(reader).pos()) == Some(
                    (v@, final(reader).pos()),
                ),
                Err(e) => e == DecodeError::Underrun && Graphic::parse(
                    old(reader).bytes(),
                    old(reader).pos(),
                ) is None,
            },
    {
        let name = read_debug_string(reader)?;
        let _file_name = read_debug_string(reader)?;
        let _particle = read_debug_string(reader)?;
        reader.need(48)?;
        let deltas = reader.u16_at(18) as usize;
        let angle_sounds_used = reader.u8_at(26);
        let angles = reader.u16_at(29) as usize;
        reader.advance(48);
        reader.skip_forward(deltas * 16)?;
        if angle_sounds_used != 0 {
            reader.skip_forward(angles * 24)?;
        }
        Ok(Graphic { name })
    }

    /// Reads one graphic. Where the buffer ends before the graphic does,
    /// nothing is read.
    pub fn read_from(reader: &mut Reader, _version: &str) -> (res: Result<Graphic, DecodeError>)
        ensures
            decoded(
                *old(reader),
                *final(reader),
                res,
                Graphic::parse(old(reader).bytes(), old(reader).pos()),
            ),
    {
        let start = reader.position();
        let res = Graphic::read_fields(reader);
        if res.is_err() {
            reader.rewind(start);
        }
        res
    }
}

impl Record for Graphic {
    open spec fn found(s: Seq<u8>, p: int, version: Seq<char>) -> Option<(GraphicView, int)> {
        Graphic::parse(s, p)
    }

    fn read(reader: &mut Reader, version: &str) -> (res: Result<Graphic, DecodeError>) {
        Graphic::read_from(reader, version)
    }

    proof fn lemma_found_in_longer(short: Seq<u8>, long: Seq<u8>, p: int, version: Seq<char>) {
        lemma_name_in_longer(short, long, p);
        let a = name_at(short, p)->Some_0.1;
        lemma_name_in_longer(short, long, a);
        let b = name_at(short, a)->Some_0.1;
        lemma_name_in_longer(short, long, b);
    }
}

} // verus!
