//! The archive as a whole: its sections in their order, and the walk
//! through them that keeps what it has decoded when it cannot go on.

use crate::civ::{Civ, CivView};
use crate::colour::PlayerColour;
use crate::effect::{Effect, EffectView};
use crate::error::DecodeError;
use crate::graphic::{Graphic, GraphicView};
use crate::layout::{fixed_at, starts_with, views_of};
use crate::le;
use crate::reader::Reader;
use crate::record::{after_items, lemma_run_in_longer, lemma_run_len, read_run, run_of, Record, Run};
use crate::sound::{Sound, SoundView};
use crate::tech::{Tech, TechTree, TechView};
use crate::terrain::{lemma_terrain_block_in_longer, RandomMaps, TerrainBlock, TerrainRestriction};
use crate::text::{lemma_text_in_longer, read_text, text_at};
use crate::unit::UnitHeaders;
use vstd::prelude::*;

verus! {

/// A decoded archive. Where decoding stopped early, the sections that were
/// not reached are empty, and the section in which it stopped holds the
/// records before the one that could not be read.
#[derive(Clone, Debug, PartialEq, Eq)]
pub struct DatFile {
    pub version: String,
    pub terrain_restrictions: Vec<TerrainRestriction>,
    pub player_colours: Vec<PlayerColour>,
    pub sounds: Vec<Sound>,
    pub graphics: Vec<Graphic>,
    pub effects: Vec<Effect>,
    pub unit_headers: Vec<UnitHeaders>,
    pub civs: Vec<Civ>,
    pub techs: Vec<Tech>,
    /// Never filled.
    pub tech_tree: Option<TechTree>,
    pub time_slice: i32,
    /// Where decoding stopped: the end of the archive, or the start of what
    /// could not be read.
    pub debug_pos: u64,
}

/// An archive as a mathematical value.
pub struct DatFileView {
    pub version: Seq<char>,
    pub terrain_restrictions: Seq<TerrainRestriction>,
    pub player_colours: Seq<PlayerColour>,
    pub sounds: Seq<SoundView>,
    pub graphics: Seq<GraphicView>,
    pub effects: Seq<EffectView>,
    pub unit_headers: Seq<UnitHeaders>,
    pub civs: Seq<CivView>,
    pub techs: Seq<TechView>,
    pub tech_tree: Option<TechTree>,
    pub time_slice: i32,
    pub debug_pos: u64,
}

impl View for DatFile {
    type V = DatFileView;

    open spec fn view(&self) -> DatFileView {
        DatFileView {
            version: self.version@,
            terrain_restrictions: self.terrain_restrictions@,
            player_colours: views_of(self.player_colours@),
            sounds: views_of(self.sounds@),
            graphics: views_of(self.graphics@),
            effects: views_of(self.effects@),
            unit_headers: views_of(self.unit_headers@),
            civs: views_of(self.civs@),
            techs: views_of(self.techs@),
            tech_tree: self.tech_tree,
            time_slice: self.time_slice,
            debug_pos: self.debug_pos,
        }
    }
}

/// How far the walk through an archive has come: what has been decoded,
/// where the next section starts, and whether the walk still goes on. A
/// walk that has stopped stays as it is.
pub struct Walk {
    pub file: DatFileView,
    pub pos: int,
    pub live: bool,
}

/// The archive in which nothing has been decoded.
pub open spec fn nothing_decoded() -> DatFileView {
    DatFileView {
        version: Seq::empty(),
        terrain_restrictions: Seq::empty(),
        player_colours: Seq::empty(),
        sounds: Seq::empty(),
        graphics: Seq::empty(),
        effects: Seq::empty(),
        unit_headers: Seq::empty(),
        civs: Seq::empty(),
        techs: Seq::empty(),
        tech_tree: None,
        time_slice: 0,
        debug_pos: 0,
    }
}

/// The count of a section: an unsigned number of four bytes if `wide`, of
/// two bytes if not.
pub open spec fn section_count(s: Seq<u8>, p: int, wide: bool) -> nat {
    if wide {
        le::u32_at(s, p) as nat
    } else {
        le::u16_at(s, p) as nat
    }
}

/// Where the records of the section at `p` start: after the count and after
/// a table that holds `pointers` bytes for each record, which are passed
/// over.
pub open spec fn section_start(s: Seq<u8>, p: int, wide: bool, pointers: nat) -> int {
    p + (if wide {
        4int
    } else {
        2int
    }) + pointers * section_count(s, p, wide)
}

/// The section at `p`: as many of its records as the buffer holds whole.
/// Where the buffer ends before the records start, the section is not
/// entered.
pub open spec fn section<T: Record>(
    s: Seq<u8>,
    p: int,
    wide: bool,
    pointers: nat,
    version: Seq<char>,
) -> Run<T::V> {
    if section_start(s, p, wide, pointers) <= s.len() {
        run_of::<T>(s, section_start(s, p, wide, pointers), section_count(s, p, wide), version)
    } else {
        Run { items: Seq::empty(), next: p, complete: false }
    }
}

/// The run of up to `n` terrain restrictions, each for `used` terrains,
/// that starts at `p`.
pub open spec fn restrictions_run(s: Seq<u8>, p: int, n: nat, used: usize) -> Run<
    TerrainRestriction,
>
    decreases n,
{
    if n == 0 {
        Run { items: Seq::empty(), next: p, complete: true }
    } else {
        match TerrainRestriction::parse(s, p, used) {
            None => Run { items: Seq::empty(), next: p, complete: false },
            Some((v, q)) => after_items(seq![v], restrictions_run(s, q, (n - 1) as nat, used)),
        }
    }
}

/// The section of the terrain restrictions at `p`: the count of the
/// restrictions and the count of the terrains, in two bytes each; eight
/// bytes of addresses for each restriction, which are passed over; and the
/// restrictions.
pub open spec fn restrictions_section(s: Seq<u8>, p: int) -> Run<TerrainRestriction> {
    let n = le::u16_at(s, p) as nat;
    let start = p + 4 + 8 * n;
    if start <= s.len() {
        restrictions_run(s, start, n, le::u16_at(s, p + 2) as usize)
    } else {
        Run { items: Seq::empty(), next: p, complete: false }
    }
}

impl Walk {
    /// The walk before anything is read.
    pub open spec fn start(p: int) -> Walk {
        Walk { file: nothing_decoded(), pos: p, live: true }
    }

    /// The walk after a step that cannot be taken.
    pub open spec fn stopped(self) -> Walk {
        Walk { live: false, ..self }
    }

    /// The walk after a section of which `run` was read.
    pub open spec fn moved<V>(self, file: DatFileView, run: Run<V>) -> Walk {
        Walk { file, pos: run.next, live: run.complete }
    }

    /// The version tag: eight bytes of text.
    pub open spec fn version(self, s: Seq<u8>) -> Walk {
        if !self.live {
            self
        } else {
            match text_at(s, self.pos, 8) {
                Some((version, next)) => Walk {
                    file: DatFileView { version, ..self.file },
                    pos: next,
                    live: true,
                },
                None => self.stopped(),
            }
        }
    }

    /// The terrain restrictions.
    pub open spec fn terrain_restrictions(self, s: Seq<u8>) -> Walk {
        if !self.live {
            self
        } else {
            let run = restrictions_section(s, self.pos);
            self.moved(DatFileView { terrain_restrictions: run.items, ..self.file }, run)
        }
    }

    /// The player colours: a count in two bytes and the colours.
    pub open spec fn player_colours(self, s: Seq<u8>) -> Walk {
        if !self.live {
            self
        } else {
            let run = section::<PlayerColour>(s, self.pos, false, 0, self.file.version);
            self.moved(DatFileView { player_colours: run.items, ..self.file }, run)
        }
    }

    /// The sounds: a count in two bytes and the sounds.
    pub open spec fn sounds(self, s: Seq<u8>) -> Walk {
        if !self.live {
            self
        } else {
            let run = section::<Sound>(s, self.pos, false, 0, self.file.version);
            self.moved(DatFileView { sounds: run.items, ..self.file }, run)
        }
    }

    /// The graphics: a count in two bytes, four bytes of address for each
    /// graphic, which are passed over, and the graphics.
    pub open spec fn graphics(self, s: Seq<u8>) -> Walk {
        if !self.live {
            self
        } else {
            let run = section::<Graphic>(s, self.pos, false, 4, self.file.version);
            self.moved(DatFileView { graphics: run.items, ..self.file }, run)
        }
    }

    /// The terrain block, of which nothing is kept.
    pub open spec fn terrain_block(self, s: Seq<u8>) -> Walk {
        if !self.live {
            self
        } else {
            match TerrainBlock::parse(s, self.pos) {
                Some((block, next)) => Walk { pos: next, ..self },
                None => self.stopped(),
            }
        }
    }

    /// The random maps, of which nothing is kept or decoded.
    pub open spec fn random_maps(self, s: Seq<u8>) -> Walk {
        if !self.live {
            self
        } else {
            match RandomMaps::parse(s, self.pos) {
                Some((maps, next)) => Walk { pos: next, ..self },
                None => self.stopped(),
            }
        }
    }

    /// The effects: a count in four bytes and the effects.
    pub open spec fn effects(self, s: Seq<u8>) -> Walk {
        if !self.live {
            self
        } else {
            let run = section::<Effect>(s, self.pos, true, 0, self.file.version);
            self.moved(DatFileView { effects: run.items, ..self.file }, run)
        }
    }

    /// The unit headers: a count in four bytes and the headers.
    pub open spec fn unit_headers(self, s: Seq<u8>) -> Walk {
        if !self.live {
            self
        } else {
            let run = section::<UnitHeaders>(s, self.pos, true, 0, self.file.version);
            self.moved(DatFileView { unit_headers: run.items, ..self.file }, run)
        }
    }

    /// The civilisations: a count in two bytes and the civilisations.
    pub open spec fn civs(self, s: Seq<u8>) -> Walk {
        if !self.live {
            self
        } else {
            let run = section::<Civ>(s, self.pos, false, 0, self.file.version);
            self.moved(DatFileView { civs: run.items, ..self.file }, run)
        }
    }

    /// The technologies: a count in two bytes and the technologies.
    pub open spec fn techs(self, s: Seq<u8>) -> Walk {
        if !self.live {
            self
        } else {
            let run = section::<Tech>(s, self.pos, false, 0, self.file.version);
            self.moved(DatFileView { techs: run.items, ..self.file }, run)
        }
    }

    /// The time slice: a signed number of four bytes.
    pub open spec fn time_slice(self, s: Seq<u8>) -> Walk {
        if !self.live {
            self
        } else {
            match fixed_at::<i32>(s, self.pos) {
                Some((time_slice, next)) => Walk {
                    file: DatFileView { time_slice, ..self.file },
                    pos: next,
                    live: true,
                },
                None => self.stopped(),
            }
        }
    }

    /// The walk up to the civilisations: the sections before them in their
    /// order, up to the first step that cannot be taken.
    pub open spec fn before_civs(s: Seq<u8>, p: int) -> Walk {
        Walk::start(p).version(s).terrain_restrictions(s).player_colours(s).sounds(s).graphics(
            s,
        ).terrain_block(s).random_maps(s).effects(s).unit_headers(s)
    }

    /// The whole walk through the archive that starts at `p`.
    pub open spec fn through(s: Seq<u8>, p: int) -> Walk {
        Walk::before_civs(s, p).civs(s).techs(s).time_slice(s)
    }
}

/// Reads the count of a section and passes over its table of addresses.
/// Where the buffer ends before the records start, nothing is read.
fn enter_section(reader: &mut Reader, wide: bool, pointers: usize) -> (res: Result<
    usize,
    DecodeError,
>)
    requires
        pointers <= 8,
    ensures
        final(reader).bytes() == old(reader).bytes(),
        ({
            let s = old(reader).bytes();
            let p = old(reader).pos();
            let start = section_start(s, p, wide, pointers as nat);
            match res {
                Ok(n) => start <= s.len() && final(reader).pos() == start && n == section_count(
                    s,
                    p,
                    wide,
                ),
                Err(e) => start > s.len() && final(reader).pos() == p,
            }
        }),
{
    let width: usize = if wide {
        4
    } else {
        2
    };
    reader.need(width)?;
    let n: usize = if wide {
        reader.u32_at(0) as usize
    } else {
        reader.u16_at(0) as usize
    };
    assert(pointers * n == n * pointers && (pointers == 0 ==> pointers * n == 0))
        by (nonlinear_arith);
    let table = if pointers == 0 {
        0
    } else {
        let left = reader.bytes_left() - width;
        assert(n * pointers <= left <==> n <= left / pointers) by (nonlinear_arith)
            requires
                0 <= n,
                0 < pointers,
                0 <= left,
        ;
        if n > left / pointers {
            return Err(DecodeError::Underrun);
        }
        n * pointers
    };
    reader.advance(width + table);
    Ok(n)
}

/// Reads a section: as many of its records as the buffer holds whole. Says
/// whether all were read.
pub fn read_section<T: Record>(
    reader: &mut Reader,
    wide: bool,
    pointers: usize,
    version: &str,
) -> (res: (Vec<T>, bool))
    requires
        pointers <= 8,
    ensures
        final(reader).bytes() == old(reader).bytes(),
        ({
            let run = section::<T>(
                old(reader).bytes(),
                old(reader).pos(),
                wide,
                pointers as nat,
                version@,
            );
            &&& views_of(res.0@) == run.items
            &&& final(reader).pos() == run.next
            &&& res.1 == run.complete
        }),
{
    match enter_section(reader, wide, pointers) {
        Ok(n) => read_run(reader, n, version),
        Err(_) => {
            let none: Vec<T> = Vec::new();
            assert(views_of(none@) =~= Seq::<T::V>::empty());
            (none, false)
        },
    }
}

/// Reads the two counts at the head of the section of the terrain
/// restrictions, the count of the restrictions and the count of the
/// terrains, and passes over the addresses: eight bytes for each
/// restriction. Where the buffer ends before the restrictions start,
/// nothing is read.
pub fn enter_restrictions(reader: &mut Reader) -> (res: Result<(u16, u16), DecodeError>)
    ensures
        final(reader).bytes() == old(reader).bytes(),
        ({
            let s = old(reader).bytes();
            let p = old(reader).pos();
            let n = le::u16_at(s, p);
            match res {
                Ok(counts) => p + 4 + 8 * n <= s.len() && final(reader).pos() == p + 4 + 8 * n
                    && counts == (n, le::u16_at(s, p + 2)),
                Err(e) => e == DecodeError::Underrun && p + 4 + 8 * n > s.len()
                    && final(reader).pos() == p,
            }
        }),
{
    reader.need(4)?;
    let n = reader.u16_at(0);
    let used = reader.u16_at(2);
    reader.need(4 + 8 * (n as usize))?;
    reader.advance(4 + 8 * (n as usize));
    Ok((n, used))
}

/// Reads the section of the terrain restrictions: as many restrictions as
/// the buffer holds whole. Says whether all were read.
pub fn read_restrictions(reader: &mut Reader) -> (res: (Vec<TerrainRestriction>, bool))
    ensures
        final(reader).bytes() == old(reader).bytes(),
        ({
            let run = restrictions_section(old(reader).bytes(), old(reader).pos());
            &&& res.0@ == run.items
            &&& final(reader).pos() == run.next
            &&& res.1 == run.complete
        }),
{
    let ghost s = reader.bytes();
    let mut out: Vec<TerrainRestriction> = Vec::new();
    let (n, used) = match enter_restrictions(reader) {
        Ok((n, used)) => (n as usize, used as usize),
        Err(_) => {
            assert(out@ =~= Seq::<TerrainRestriction>::empty());
            return (out, false);
        },
    };
    let ghost start = reader.pos();
    let mut i: usize = 0;
    while i < n
        invariant
            i <= n,
            s == old(reader).bytes(),
            reader.bytes() == s,
            out@.len() == i,
            restrictions_section(s, old(reader).pos()) == restrictions_run(
                s,
                start,
                n as nat,
                used,
            ),
            restrictions_run(s, start, n as nat, used) == after_items(
                out@,
                restrictions_run(s, reader.pos(), (n - i) as nat, used),
            ),
        decreases n - i,
    {
        let ghost before = out@;
        match TerrainRestriction::read_from(reader, used) {
            Ok(v) => {
                out.push(v);
                proof {
                    let rest = restrictions_run(s, reader.pos(), (n - i - 1) as nat, used);
                    assert(before + (seq![v] + rest.items) =~= before.push(v) + rest.items);
                }
            },
            Err(_) => {
                proof {
                    assert(before + Seq::<TerrainRestriction>::empty() =~= before);
                }
                return (out, false);
            },
        }
        i = i + 1;
    }
    proof {
        assert(out@ + Seq::<TerrainRestriction>::empty() =~= out@);
    }
    (out, true)
}

/// A section that is read whole has as many records as its count says; one
/// that is entered and not read whole has fewer.
pub proof fn lemma_section_len<T: Record>(
    s: Seq<u8>,
    p: int,
    wide: bool,
    pointers: nat,
    version: Seq<char>,
)
    ensures
        ({
            let run = section::<T>(s, p, wide, pointers, version);
            let n = section_count(s, p, wide);
            &&& run.complete ==> run.items.len() == n
            &&& !run.complete && section_start(s, p, wide, pointers) <= s.len() ==> run.items.len()
                < n
        }),
{
    lemma_run_len::<T>(s, section_start(s, p, wide, pointers), section_count(s, p, wide), version);
}

/// Where the walk is still going on after the unit headers and cannot get
/// through the civilisations, the archive holds the sections before the
/// civilisations as the walk had them, the civilisations that could be
/// read, no technologies and no time slice; and the walk stops where the
/// first civilisation that could not be read starts.
pub proof fn lemma_stopped_in_the_civilisations(s: Seq<u8>, p: int)
    requires
        Walk::before_civs(s, p).live,
        !Walk::before_civs(s, p).civs(s).live,
    ensures
        ({
            let walk = Walk::before_civs(s, p);
            let run = section::<Civ>(s, walk.pos, false, 0, walk.file.version);
            &&& DatFile::decode(s, p) == (DatFileView {
                civs: run.items,
                debug_pos: run.next as u64,
                ..walk.file
            })
            &&& walk.file.techs == Seq::<TechView>::empty()
            &&& walk.file.time_slice == 0
            &&& walk.file.tech_tree is None
        }),
{
}

/// The run of terrain restrictions that a buffer holds is the start of the
/// run that every buffer holds which starts with that one, and is that run
/// where it is complete.
pub proof fn lemma_restrictions_in_longer(
    short: Seq<u8>,
    long: Seq<u8>,
    p: int,
    n: nat,
    used: usize,
)
    requires
        short.len() <= long.len(),
        0 <= p <= short.len(),
    ensures
        ({
            let cut = restrictions_run(short, p, n, used);
            let whole = restrictions_run(long, p, n, used);
            &&& p <= cut.next <= short.len()
            &&& cut.items.len() <= whole.items.len()
            &&& whole.items.subrange(0, cut.items.len() as int) == cut.items
            &&& cut.complete ==> whole == cut
        }),
    decreases n,
{
    let cut = restrictions_run(short, p, n, used);
    let whole = restrictions_run(long, p, n, used);
    if n > 0 {
        match TerrainRestriction::parse(short, p, used) {
            None => {},
            Some((v, q)) => {
                lemma_restrictions_in_longer(short, long, q, (n - 1) as nat, used);
                let cut_rest = restrictions_run(short, q, (n - 1) as nat, used);
                let whole_rest = restrictions_run(long, q, (n - 1) as nat, used);
                assert(whole.items.subrange(0, cut.items.len() as int) =~= seq![v]
                    + whole_rest.items.subrange(0, cut_rest.items.len() as int));
            },
        }
    }
    assert(whole.items.subrange(0, cut.items.len() as int) =~= cut.items);
}

/// The part of a section that a buffer holds is the start of what every
/// buffer holds of it which starts with that one, and is all of that where
/// the section is read whole.
pub proof fn lemma_section_in_longer<T: Record>(
    short: Seq<u8>,
    long: Seq<u8>,
    p: int,
    wide: bool,
    pointers: nat,
    version: Seq<char>,
)
    requires
        starts_with(long, short),
        0 <= p,
    ensures
        ({
            let cut = section::<T>(short, p, wide, pointers, version);
            let whole = section::<T>(long, p, wide, pointers, version);
            &&& p <= cut.next
            &&& p <= short.len() ==> cut.next <= short.len()
            &&& cut.items.len() <= whole.items.len()
            &&& whole.items.subrange(0, cut.items.len() as int) == cut.items
            &&& cut.complete ==> whole == cut
        }),
{
    let cut = section::<T>(short, p, wide, pointers, version);
    let whole = section::<T>(long, p, wide, pointers, version);
    let start = section_start(short, p, wide, pointers);
    assert(0 <= pointers * section_count(short, p, wide)) by (nonlinear_arith)
        requires
            0 <= pointers,
            0 <= section_count(short, p, wide),
    ;
    if start <= short.len() {
        lemma_run_in_longer::<T>(short, long, start, section_count(short, p, wide), version);
    }
    assert(whole.items.subrange(0, cut.items.len() as int) =~= cut.items);
}

impl DatFile {
    /// What decoding the archive that starts at `p` gives: what the walk
    /// through it has decoded, and where the walk stopped.
    pub open spec fn decode(s: Seq<u8>, p: int) -> DatFileView {
        let walk = Walk::through(s, p);
        DatFileView { debug_pos: walk.pos as u64, ..walk.file }
    }

    /// The walk that stands where `reader` stands, with what `self` holds.
    pub open spec fn walk(&self, reader: &Reader, live: bool) -> Walk {
        Walk { file: self@, pos: reader.pos(), live }
    }

    /// The archive in which nothing has been decoded.
    pub fn empty() -> (file: DatFile)
        ensures
            file@ == nothing_decoded(),
    {
        let file = DatFile {
            version: String::new(),
            terrain_restrictions: Vec::new(),
            player_colours: Vec::new(),
            sounds: Vec::new(),
            graphics: Vec::new(),
            effects: Vec::new(),
            unit_headers: Vec::new(),
            civs: Vec::new(),
            techs: Vec::new(),
            tech_tree: None,
            time_slice: 0,
            debug_pos: 0,
        };
        assert(file@.player_colours =~= Seq::<PlayerColour>::empty());
        assert(file@.sounds =~= Seq::<SoundView>::empty());
        assert(file@.graphics =~= Seq::<GraphicView>::empty());
        assert(file@.effects =~= Seq::<EffectView>::empty());
        assert(file@.unit_headers =~= Seq::<UnitHeaders>::empty());
        assert(file@.civs =~= Seq::<CivView>::empty());
        assert(file@.techs =~= Seq::<TechView>::empty());
        file
    }

    /// Reads the version tag. Says whether the walk goes on.
    fn read_version(&mut self, reader: &mut Reader) -> (live: bool)
        ensures
            final(reader).bytes() == old(reader).bytes(),
            ({
                let before = old(self).walk(old(reader), true);
                let after = final(self).walk(final(reader), live);
                after == before.version(old(reader).bytes())
            }),
    {
        match read_text(reader, 8) {
            Ok(version) => {
                self.version = version;
                true
            },
            Err(_) => false,
        }
    }

    /// Reads the terrain restrictions. Says whether the walk goes on.
    fn read_terrain_restrictions(&mut self, reader: &mut Reader) -> (live: bool)
        ensures
            final(reader).bytes() == old(reader).bytes(),
            ({
                let before = old(self).walk(old(reader), true);
                let after = final(self).walk(final(reader), live);
                after == before.terrain_restrictions(old(reader).bytes())
            }),
    {
        let (items, complete) = read_restrictions(reader);
        self.terrain_restrictions = items;
        complete
    }

    /// Reads the player colours. Says whether the walk goes on.
    fn read_player_colours(&mut self, reader: &mut Reader) -> (live: bool)
        ensures
            final(reader).bytes() == old(reader).bytes(),
            ({
                let before = old(self).walk(old(reader), true);
                let after = final(self).walk(final(reader), live);
                after == before.player_colours(old(reader).bytes())
            }),
    {
        let (items, complete) = read_section::<PlayerColour>(
            reader,
            false,
            0,
            self.version.as_str(),
        );
        self.player_colours = items;
        complete
    }

    /// Reads the sounds. Says whether the walk goes on.
    fn read_sounds(&mut self, reader: &mut Reader) -> (live: bool)
        ensures
            final(reader).bytes() == old(reader).bytes(),
            ({
                let before = old(self).walk(old(reader), true);
                let after = final(self).walk(final(reader), live);
                after == before.sounds(old(reader).bytes())
            }),
    {
        let (items, complete) = read_section::<Sound>(
            reader,
            false,
            0,
            self.version.as_str(),
        );
        self.sounds = items;
        complete
    }

    /// Reads the graphics. Says whether the walk goes on.
    fn read_graphics(&mut self, reader: &mut Reader) -> (live: bool)
        ensures
            final(reader).bytes() == old(reader).bytes(),
            ({
                let before = old(self).walk(old(reader), true);
                let after = final(self).walk(final(reader), live);
                after == before.graphics(old(reader).bytes())
            }),
    {
        let (items, complete) = read_section::<Graphic>(
            reader,
            false,
            4,
            self.version.as_str(),
        );
        self.graphics = items;
        complete
    }

    /// Passes over the terrain block. Says whether the walk goes on.
    fn read_terrain_block(&mut self, reader: &mut Reader) -> (live: bool)
        ensures
            final(reader).bytes() == old(reader).bytes(),
            ({
                let before = old(self).walk(old(reader), true);
                let after = final(self).walk(final(reader), live);
                after == before.terrain_block(old(reader).bytes())
            }),
    {
        TerrainBlock::read_from(reader).is_ok()
    }

    /// Passes over the random maps. Says whether the walk goes on.
    fn read_random_maps(&mut self, reader: &mut Reader) -> (live: bool)
        ensures
            final(reader).bytes() == old(reader).bytes(),
            ({
                let before = old(self).walk(old(reader), true);
                let after = final(self).walk(final(reader), live);
                after == before.random_maps(old(reader).bytes())
            }),
    {
        RandomMaps::read_from(reader).is_ok()
    }

    /// Reads the effects. Says whether the walk goes on.
    fn read_effects(&mut self, reader: &mut Reader) -> (live: bool)
        ensures
            final(reader).bytes() == old(reader).bytes(),
            ({
                let before = old(self).walk(old(reader), true);
                let after = final(self).walk(final(reader), live);
                after == before.effects(old(reader).bytes())
            }),
    {
        let (items, complete) = read_section::<Effect>(
            reader,
            true,
            0,
            self.version.as_str(),
        );
        self.effects = items;
        complete
    }

    /// Reads the unit headers. Says whether the walk goes on.
    fn read_unit_headers(&mut self, reader: &mut Reader) -> (live: bool)
        ensures
            final(reader).bytes() == old(reader).bytes(),
            ({
                let before = old(self).walk(old(reader), true);
                let after = final(self).walk(final(reader), live);
                after == before.unit_headers(old(reader).bytes())
            }),
    {
        let (items, complete) = read_section::<UnitHeaders>(
            reader,
            true,
            0,
            self.version.as_str(),
        );
        self.unit_headers = items;
        complete
    }

    /// Reads the civilisations. Says whether the walk goes on.
    fn read_civs(&mut self, reader: &mut Reader) -> (live: bool)
        ensures
            final(reader).bytes() == old(reader).bytes(),
            ({
                let before = old(self).walk(old(reader), true);
                let after = final(self).walk(final(reader), live);
                after == before.civs(old(reader).bytes())
            }),
    {
        let (items, complete) = read_section::<Civ>(
            reader,
            false,
            0,
            self.version.as_str(),
        );
        self.civs = items;
        complete
    }

    /// Reads the technologies. Says whether the walk goes on.
    fn read_techs(&mut self, reader: &mut Reader) -> (live: bool)
        ensures
            final(reader).bytes() == old(reader).bytes(),
            ({
                let before = old(self).walk(old(reader), true);
                let after = final(self).walk(final(reader), live);
                after == before.techs(old(reader).bytes())
            }),
    {
        let (items, complete) = read_section::<Tech>(
            reader,
            false,
            0,
            self.version.as_str(),
        );
        self.techs = items;
        complete
    }

    /// Reads the time slice. Says whether the walk goes on.
    fn read_time_slice(&mut self, reader: &mut Reader) -> (live: bool)
        ensures
            final(reader).bytes() == old(reader).bytes(),
            ({
                let before = old(self).walk(old(reader), true);
                let after = final(self).walk(final(reader), live);
                after == before.time_slice(old(reader).bytes())
            }),
    {
        match reader.read_i32() {
            Ok(time_slice) => {
                self.time_slice = time_slice;
                true
            },
            Err(_) => false,
        }
    }

    /// Reads an archive from where `reader` stands, as far as it goes. A
    /// step that cannot be taken ends the walk: what was decoded before it
    /// is kept, and `reader` is left where that step would have started.
    pub fn read_from_soft(reader: &mut Reader) -> (file: DatFile)
        ensures
            file@ == DatFile::decode(old(reader).bytes(), old(reader).pos()),
            final(reader).bytes() == old(reader).bytes(),
            final(reader).pos() == file.debug_pos,
            file.debug_pos <= old(reader).bytes().len(),
    {
        let ghost s = reader.bytes();
        let mut file = DatFile::empty();
        let ghost mut walk = Walk::start(reader.pos());
        let mut live = file.read_version(reader);
        proof {
            walk = walk.version(s);
        }
        if live {
            live = file.read_terrain_restrictions(reader);
        }
        proof {
            walk = walk.terrain_restrictions(s);
        }
        if live {
            live = file.read_player_colours(reader);
        }
        proof {
            walk = walk.player_colours(s);
        }
        if live {
            live = file.read_sounds(reader);
        }
        proof {
            walk = walk.sounds(s);
        }
        if live {
            live = file.read_graphics(reader);
        }
        proof {
            walk = walk.graphics(s);
        }
        if live {
            live = file.read_terrain_block(reader);
        }
        proof {
            walk = walk.terrain_block(s);
        }
        if live {
            live = file.read_random_maps(reader);
        }
        proof {
            walk = walk.random_maps(s);
        }
        if live {
            live = file.read_effects(reader);
        }
        proof {
            walk = walk.effects(s);
        }
        if live {
            live = file.read_unit_headers(reader);
        }
        proof {
            walk = walk.unit_headers(s);
        }
        if live {
            live = file.read_civs(reader);
        }
        proof {
            walk = walk.civs(s);
        }
        if live {
            live = file.read_techs(reader);
        }
        proof {
            walk = walk.techs(s);
        }
        if live {
            live = file.read_time_slice(reader);
        }
        proof {
            walk = walk.time_slice(s);
        }
        assert(file.walk(reader, live) == walk);
        file.debug_pos = reader.position() as u64;
        file
    }
}

/// A walk that comes through the unit headers of a buffer comes through
/// them in the same way in every buffer that starts with that one: it
/// decodes the same and stops at the same place.
pub proof fn lemma_walk_in_longer(short: Seq<u8>, long: Seq<u8>, p: int)
    requires
        starts_with(long, short),
        0 <= p,
        Walk::before_civs(short, p).live,
    ensures
        Walk::before_civs(long, p) == Walk::before_civs(short, p),
        0 <= Walk::before_civs(short, p).pos <= short.len(),
{
    let w0 = Walk::start(p);
    let w1 = w0.version(short);
    let w2 = w1.terrain_restrictions(short);
    let w3 = w2.player_colours(short);
    let w4 = w3.sounds(short);
    let w5 = w4.graphics(short);
    let w6 = w5.terrain_block(short);
    let w7 = w6.random_maps(short);
    let w8 = w7.effects(short);
    let w9 = w8.unit_headers(short);
    assert(w9.live);
    assert(w8.live);
    assert(w7.live);
    assert(w6.live);
    assert(w5.live);
    assert(w4.live);
    assert(w3.live);
    assert(w2.live);
    assert(w1.live);
    lemma_text_in_longer(short, long, p, 8);
    assert(w0.version(long) == w1 && p <= w1.pos <= short.len());
    let n = le::u16_at(short, w1.pos) as nat;
    if w1.pos + 4 + 8 * n <= short.len() {
        lemma_restrictions_in_longer(
            short,
            long,
            w1.pos + 4 + 8 * n,
            n,
            le::u16_at(short, w1.pos + 2) as usize,
        );
    }
    assert(w1.terrain_restrictions(long) == w2 && 0 <= w2.pos <= short.len());
    lemma_section_in_longer::<PlayerColour>(short, long, w2.pos, false, 0, w2.file.version);
    assert(w2.player_colours(long) == w3 && 0 <= w3.pos <= short.len());
    lemma_section_in_longer::<Sound>(short, long, w3.pos, false, 0, w3.file.version);
    assert(w3.sounds(long) == w4 && 0 <= w4.pos <= short.len());
    lemma_section_in_longer::<Graphic>(short, long, w4.pos, false, 4, w4.file.version);
    assert(w4.graphics(long) == w5 && 0 <= w5.pos <= short.len());
    lemma_terrain_block_in_longer(short, long, w5.pos);
    assert(w5.terrain_block(long) == w6 && 0 <= w6.pos <= short.len());
    assert(w6.random_maps(long) == w7 && 0 <= w7.pos <= short.len());
    lemma_section_in_longer::<Effect>(short, long, w7.pos, true, 0, w7.file.version);
    assert(w7.effects(long) == w8 && 0 <= w8.pos <= short.len());
    lemma_section_in_longer::<UnitHeaders>(short, long, w8.pos, true, 0, w8.file.version);
    assert(w8.unit_headers(long) == w9 && 0 <= w9.pos <= short.len());
}

/// What a buffer gives that holds an archive through its unit headers is
/// what every buffer gives that starts with that one: the sections before
/// the civilisations are the same, and the civilisations that the shorter
/// buffer gives are the first of those that the longer one gives, each the
/// same. A civilisation that the shorter buffer does not hold whole is not
/// among them.
pub proof fn lemma_a_cut_archive_keeps_what_it_held(short: Seq<u8>, long: Seq<u8>, p: int)
    requires
        starts_with(long, short),
        0 <= p,
        Walk::before_civs(short, p).live,
    ensures
        ({
            let cut = DatFile::decode(short, p);
            let whole = DatFile::decode(long, p);
            &&& cut.version == whole.version
            &&& cut.terrain_restrictions == whole.terrain_restrictions
            &&& cut.player_colours == whole.player_colours
            &&& cut.sounds == whole.sounds
            &&& cut.graphics == whole.graphics
            &&& cut.effects == whole.effects
            &&& cut.unit_headers == whole.unit_headers
            &&& cut.civs.len() <= whole.civs.len()
            &&& whole.civs.subrange(0, cut.civs.len() as int) == cut.civs
        }),
{
    lemma_walk_in_longer(short, long, p);
    let walk = Walk::before_civs(short, p);
    lemma_section_in_longer::<Civ>(short, long, walk.pos, false, 0, walk.file.version);
    assert(Walk::through(short, p).file.civs == walk.civs(short).file.civs);
    assert(Walk::through(long, p).file.civs == walk.civs(long).file.civs);
    assert(Walk::through(short, p).file.sounds == walk.file.sounds);
    assert(Walk::through(long, p).file.sounds == walk.file.sounds);
}

} // verus!
