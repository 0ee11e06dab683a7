//! Records of varying width, and runs of them.
//!
//! A run is a number of records that stand one after the other. A run that
//! is part of a record is read whole or not at all. A run that is a section
//! of the archive is read as far as it goes: the records before the first
//! one that the buffer is too short for are kept.

use crate::error::DecodeError;
use crate::layout::{starts_with, views_of};
use crate::reader::{decoded, Reader};
use vstd::prelude::*;

verus! {

/// A record whose width depends on what it holds, and perhaps on the version.
pub trait Record: View + Sized {
    /// The record that stands at `p` under `version`, with the position
    /// after it, if the buffer reaches that far.
    spec fn found(s: Seq<u8>, p: int, version: Seq<char>) -> Option<(Self::V, int)>;

    /// Reads one record. Where the buffer ends before the record does,
    /// nothing is read.
    fn read(reader: &mut Reader, version: &str) -> (res: Result<Self, DecodeError>)
        ensures
            decoded(
                *old(reader),
                *final(reader),
                res,
                Self::found(old(reader).bytes(), old(reader).pos(), version@),
            ),
    ;

    /// A record that is found in a buffer is found, the same, in every
    /// buffer that starts with that one; and it ends at or after its start
    /// and within the buffer.
    proof fn lemma_found_in_longer(short: Seq<u8>, long: Seq<u8>, p: int, version: Seq<char>)
        requires
            starts_with(long, short),
            0 <= p,
            Self::found(short, p, version) is Some,
        ensures
            Self::found(long, p, version) == Self::found(short, p, version),
            p <= Self::found(short, p, version)->Some_0.1 <= short.len(),
    ;
}

/// What reading a run gives: the records that were read, the position after
/// the last of them, and whether these are all.
pub struct Run<V> {
    pub items: Seq<V>,
    pub next: int,
    pub complete: bool,
}

/// The run of up to `n` records that starts at `p`. It stops before the
/// first record that the buffer is too short for.
pub open spec fn run_of<T: Record>(s: Seq<u8>, p: int, n: nat, version: Seq<char>) -> Run<T::V>
    decreases n,
{
    if n == 0 {
        Run { items: Seq::empty(), next: p, complete: true }
    } else {
        match T::found(s, p, version) {
            None => Run { items: Seq::empty(), next: p, complete: false },
            Some((v, q)) => {
                let rest = run_of::<T>(s, q, (n - 1) as nat, version);
                Run { items: seq![v] + rest.items, next: rest.next, complete: rest.complete }
            },
        }
    }
}

/// The `n` records that start at `p`, with the position after them, if the
/// buffer reaches that far.
pub open spec fn list_of<T: Record>(s: Seq<u8>, p: int, n: nat, version: Seq<char>) -> Option<
    (Seq<T::V>, int),
> {
    let run = run_of::<T>(s, p, n, version);
    if run.complete {
        Some((run.items, run.next))
    } else {
        None
    }
}

/// `run` with `items` before it.
pub open spec fn after_items<V>(items: Seq<V>, run: Run<V>) -> Run<V> {
    Run { items: items + run.items, next: run.next, complete: run.complete }
}

/// A run that is complete has as many records as were asked for, and one
/// that is not has fewer.
pub proof fn lemma_run_len<T: Record>(s: Seq<u8>, p: int, n: nat, version: Seq<char>)
    ensures
        run_of::<T>(s, p, n, version).complete ==> run_of::<T>(s, p, n, version).items.len() == n,
        !run_of::<T>(s, p, n, version).complete ==> run_of::<T>(s, p, n, version).items.len() < n,
    decreases n,
{
    if n > 0 {
        match T::found(s, p, version) {
            None => {},
            Some((v, q)) => {
                lemma_run_len::<T>(s, q, (n - 1) as nat, version);
            },
        }
    }
}

/// The run that a buffer holds is the start of the run that every buffer
/// holds which starts with that one, and is that run where it is complete.
pub proof fn lemma_run_in_longer<T: Record>(
    short: Seq<u8>,
    long: Seq<u8>,
    p: int,
    n: nat,
    version: Seq<char>,
)
    requires
        starts_with(long, short),
        0 <= p,
    ensures
        ({
            let cut = run_of::<T>(short, p, n, version);
            let whole = run_of::<T>(long, p, n, version);
            &&& p <= cut.next
            &&& p <= short.len() ==> cut.next <= short.len()
            &&& cut.items.len() <= whole.items.len()
            &&& whole.items.subrange(0, cut.items.len() as int) == cut.items
            &&& cut.complete ==> whole == cut
        }),
    decreases n,
{
    let cut = run_of::<T>(short, p, n, version);
    let whole = run_of::<T>(long, p, n, version);
    if n > 0 {
        match T::found(short, p, version) {
            None => {},
            Some((v, q)) => {
                T::lemma_found_in_longer(short, long, p, version);
                lemma_run_in_longer::<T>(short, long, q, (n - 1) as nat, version);
                let cut_rest = run_of::<T>(short, q, (n - 1) as nat, version);
                let whole_rest = run_of::<T>(long, q, (n - 1) as nat, version);
                assert(whole.items.subrange(0, cut.items.len() as int) =~= seq![v]
                    + whole_rest.items.subrange(0, cut_rest.items.len() as int));
            },
        }
    }
    assert(whole.items.subrange(0, cut.items.len() as int) =~= cut.items);
}

/// Reads up to `n` records, stopping before the first one that the buffer
/// is too short for. Says whether all were read.
pub fn read_run<T: Record>(reader: &mut Reader, n: usize, version: &str) -> (res: (Vec<T>, bool))
    ensures
        final(reader).bytes() == old(reader).bytes(),
        final(reader).pos() >= old(reader).pos(),
        ({
            let run = run_of::<T>(old(reader).bytes(), old(reader).pos(), n as nat, version@);
            &&& views_of(res.0@) == run.items
            &&& final(reader).pos() == run.next
            &&& res.1 == run.complete
        }),
{
    let ghost s = reader.bytes();
    let ghost start = reader.pos();
    let mut out: Vec<T> = Vec::new();
    let mut i: usize = 0;
    assert(views_of(out@) + run_of::<T>(s, start, n as nat, version@).items =~= run_of::<T>(
        s,
        start,
        n as nat,
        version@,
    ).items);
    while i < n
        invariant
            i <= n,
            s == old(reader).bytes(),
            start == old(reader).pos(),
            reader.bytes() == s,
            reader.pos() >= start,
            out@.len() == i,
            run_of::<T>(s, start, n as nat, version@) == after_items(
                views_of(out@),
                run_of::<T>(s, reader.pos(), (n - i) as nat, version@),
            ),
        decreases n - i,
    {
        let ghost before = views_of(out@);
        match T::read(reader, version) {
            Ok(v) => {
                out.push(v);
                proof {
                    let rest = run_of::<T>(s, reader.pos(), (n - i - 1) as nat, version@);
                    assert(views_of(out@) =~= before.push(v@));
                    assert(before + (seq![v@] + rest.items) =~= before.push(v@) + rest.items);
                }
            },
            Err(_) => {
                proof {
                    assert(before + Seq::<T::V>::empty() =~= before);
                }
                return (out, false);
            },
        }
        i = i + 1;
    }
    proof {
        assert(views_of(out@) + Seq::<T::V>::empty() =~= views_of(out@));
    }
    (out, true)
}

/// Reads `n` records. On an underrun the position is after the last record
/// that was read whole.
pub fn read_list<T: Record>(reader: &mut Reader, n: usize, version: &str) -> (res: Result<
    Vec<T>,
    DecodeError,
>)
    ensures
        final(reader).bytes() == old(reader).bytes(),
        final(reader).pos() >= old(reader).pos(),
        ({
            let list = list_of::<T>(old(reader).bytes(), old(reader).pos(), n as nat, version@);
            match res {
                Ok(v) => list == Some((views_of(v@), final(reader).pos())),
                Err(e) => e == DecodeError::Underrun && list is None,
            }
        }),
{
    let (out, complete) = read_run(reader, n, version);
    if complete {
        Ok(out)
    } else {
        Err(DecodeError::Underrun)
    }
}

} // verus!
