//! Sounds and their files.

use crate::error::DecodeError;
use crate::layout::views_of;
use crate::le;
use crate::reader::{decoded, Reader};
use crate::record::{lemma_run_in_longer, list_of, read_list, Record};
use crate::text::{lemma_name_in_longer, name_at, read_debug_string};
use vstd::prelude::*;

verus! {

/// One file of a sound.
#[derive(Clone, Debug, PartialEq, Eq)]
pub struct SoundItem {
    pub filename: String,
    pub resource_id: i32,
}

/// A sound item as a mathematical value.
pub struct SoundItemView {
    pub filename: Seq<char>,
    pub resource_id: i32,
}

impl View for SoundItem {
    type V = SoundItemView;

    open spec fn view(&self) -> SoundItemView {
        SoundItemView {
            filename: self.filename@,
            resource_id: self.resource_id,
        }
    }
}

/// A sound: its files, one of which is played.
#[derive(Clone, Debug, PartialEq, Eq)]
pub struct Sound {
    pub id: i16,
    pub items: Vec<SoundItem>,
}

/// A sound as a mathematical value.
pub struct SoundView {
    pub id: i16,
    pub items: Seq<SoundItemView>,
}

impl View for Sound {
    type V = SoundView;

    open spec fn view(&self) -> SoundView {
        SoundView {
            id: self.id,
            items: views_of(self.items@),
        }
    }
}

impl SoundItem {
    /// The item that stands at `p`, with the position after it, if the
    /// buffer reaches that far: a name, a resource identifier in four bytes,
    /// and six bytes that are passed over.
    pub open spec fn parse(s: Seq<u8>, p: int) -> Option<(SoundItemView, int)> {
        match name_at(s, p) {
            Some((filename, q)) => if q + 10 <= s.len() {
                Some((SoundItemView { filename, resource_id: le::i32_at(s, q) }, q + 10))
            } else {
                None
            },
            None => None,
        }
    }

    /// Reads the parts in their order. On an underrun the position is
    /// wherever the last whole part ended.
    fn read_fields(reader: &mut Reader) -> (res: Result<SoundItem, DecodeError>)
        ensures
            final(reader).bytes() == old(reader).bytes(),
            final(reader).pos() >= old(reader).pos(),
            match res {
                Ok(v) => SoundItem::parse(old(reader).bytes(), old(reader).pos()) == Some(
                    (v@, final(reader).pos()),
                ),
                Err(e) => e == DecodeError::Underrun && SoundItem::parse(
                    old(reader).bytes(),
                    old(reader).pos(),
                ) is None,
            },
    {
        let filename = read_debug_string(reader)?;
        reader.need(10)?;
        let resource_id = reader.i32_at(0);
        reader.advance(10);
        Ok(SoundItem { filename, resource_id })
    }

    /// Reads one item. Where the buffer ends before the item does, nothing
    /// is read.
    pub fn read_from(reader: &mut Reader) -> (res: Result<SoundItem, DecodeError>)
        ensures
            decoded(
                *old(reader),
                *final(reader),
                res,
                SoundItem::parse(old(reader).bytes(), old(reader).pos()),
            ),
    {
        let start = reader.position();
        let res = SoundItem::read_fields(reader);
        if res.is_err() {
            reader.rewind(start);
        }
        res
    }
}

impl Record for SoundItem {
    open spec fn found(s: Seq<u8>, p: int, version: Seq<char>) -> Option<(SoundItemView, int)> {
        SoundItem::parse(s, p)
    }

    fn read(reader: &mut Reader, _version: &str) -> (res: Result<SoundItem, DecodeError>) {
        SoundItem::read_from(reader)
    }

    proof fn lemma_found_in_longer(short: Seq<u8>, long: Seq<u8>, p: int, version: Seq<char>) {
        lemma_name_in_longer(short, long, p);
    }
}

impl Sound {
    /// The sound that stands at `p`, with the position after it, if the
    /// buffer reaches that far: twelve bytes, which hold the identifier at
    /// their start and the count of the items in their fifth and sixth
    /// byte, and then the items.
    pub open spec fn parse(s: Seq<u8>, p: int) -> Option<(SoundView, int)> {
        if p + 12 <= s.len() {
            match list_of::<SoundItem>(s, p + 12, le::u16_at(s, p + 4) as nat, Seq::empty()) {
                Some((items, end)) => Some((SoundView { id: le::i16_at(s, p), items }, end)),
                None => None,
            }
        } else {
            None
        }
    }

    /// Reads the parts in their order. On an underrun the position is
    /// wherever the last whole part ended.
    fn read_fields(reader: &mut Reader) -> (res: Result<Sound, DecodeError>)
        ensures
            final(reader).bytes() == old(reader).bytes(),
            final(reader).pos() >= old(reader).pos(),
            match res {
                Ok(v) => Sound::parse(old(reader).bytes(), old(reader).pos()) == Some(
                    (v@, final(reader).pos()),
                ),
                Err(e) => e == DecodeError::Underrun && Sound::parse(
                    old(reader).bytes(),
                    old(reader).pos(),
                ) is None,
            },
    {
        reader.need(12)?;
        let id = reader.i16_at(0);
        let count = reader.u16_at(4) as usize;
        reader.advance(12);
        proof {
            reveal_strlit("");
            assert(""@ =~= Seq::<char>::empty());
        }
        let items = read_list::<SoundItem>(reader, count, "")?;
        Ok(Sound { id, items })
    }

    /// Reads one sound. Where the buffer ends before the sound does,
    /// nothing is read.
    pub fn read_from(reader: &mut Reader) -> (res: Result<Sound, DecodeError>)
        ensures
            decoded(
                *old(reader),
                *final(reader),
                res,
                Sound::parse(old(reader).bytes(), old(reader).pos()),
            ),
    {
        let start = reader.position();
        let res = Sound::read_fields(reader);
        if res.is_err() {
            reader.rewind(start);
        }
        res
    }
}

impl Record for Sound {
    open spec fn found(s: Seq<u8>, p: int, version: Seq<char>) -> Option<(SoundView, int)> {
        Sound::parse(s, p)
    }

    fn read(reader: &mut Reader, _version: &str) -> (res: Result<Sound, DecodeError>) {
        Sound::read_from(reader)
    }

    proof fn lemma_found_in_longer(short: Seq<u8>, long: Seq<u8>, p: int, version: Seq<char>) {
        lemma_run_in_longer::<SoundItem>(
            short,
            long,
            p + 12,
            le::u16_at(short, p + 4) as nat,
            Seq::empty(),
        );
    }
}

} // verus!
