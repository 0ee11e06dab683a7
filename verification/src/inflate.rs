//! Inflating a headerless deflate stream, chunk by chunk.
//!
//! The codec is `flate2`. It is asked again and again to inflate what is
//! left of the input into one chunk of output, and says each time how it
//! went, how much input it took and how much output it made. What is done
//! with these answers is decided here: [`Inflation::absorb`] takes one
//! answer in, and [`decompress`] asks until an answer ends the work.
//!
//! What the codec answers is not spelled out here. It depends on the calls
//! that the codec has had and on what it is given, and on nothing else; so
//! its answer has a name, [`answer_to`], and what [`decompress`] gives is
//! stated over that name by [`inflated`].

use crate::error::DecodeError;
use flate2::{Decompress, DecompressError, FlushDecompress, Status};
use vstd::prelude::*;
use vstd::slice::slice_subrange;

verus! {

#[verifier::external_type_specification]
#[verifier::external_body]
pub struct ExDecompress(Decompress);

#[verifier::external_type_specification]
#[verifier::external_body]
pub struct ExDecompressError(DecompressError);

/// The size of the chunk into which the codec inflates.
pub const CHUNK: usize = 65536;

/// How one call of the codec went.
#[derive(Clone, Copy, Debug, PartialEq, Eq, Structural)]
pub enum Report {
    /// The codec may want more input, or has more output waiting.
    Going,
    /// The codec could do nothing with what it was given.
    BufError,
    /// The stream has ended.
    StreamEnd,
}

/// Why inflating stopped.
#[derive(Clone, Copy, Debug, PartialEq, Eq, Structural)]
pub enum Stop {
    /// The codec reported the end of the stream.
    StreamEnd,
    /// All of the input was taken.
    InputSpent,
    /// The codec took nothing and made nothing, though input was left.
    Stalled,
    /// The codec found the stream malformed.
    Failed,
    /// The output has no room for another chunk.
    Full,
}

/// The calls that a codec has had since it was made: for each, the input
/// that it was given and the room that it had for output.
pub uninterp spec fn calls_of(codec: Decompress) -> Seq<(Seq<u8>, nat)>;

/// What a codec that has had `calls` answers when it is given `input` and
/// `room` bytes for output: how the call went, or nothing where it found
/// the stream malformed; how many bytes of the input it took; and the bytes
/// that it made.
pub uninterp spec fn answer_to(calls: Seq<(Seq<u8>, nat)>, input: Seq<u8>, room: nat) -> (
    Option<Report>,
    nat,
    Seq<u8>,
);

/// The number of input bytes that a codec has taken since it was made.
pub uninterp spec fn taken_by(codec: Decompress) -> nat;

/// The number of output bytes that a codec has made since it was made.
pub uninterp spec fn made_by(codec: Decompress) -> nat;

/// Calls `flate2::Decompress::new` for a stream without a zlib header. The
/// codec that it gives has had no call, and has taken and made nothing.
#[verifier::external_body]
fn raw_inflater() -> (codec: Decompress)
    ensures
        calls_of(codec) == Seq::<(Seq<u8>, nat)>::empty(),
        taken_by(codec) == 0,
        made_by(codec) == 0,
{
    Decompress::new(false)
}

/// Calls `flate2::Decompress::total_in`, which gives the number of input
/// bytes that the codec has taken so far.
#[verifier::external_body]
fn total_in(codec: &Decompress) -> (n: u64)
    ensures
        n == taken_by(*codec),
{
    codec.total_in()
}

/// Calls `flate2::Decompress::total_out`, which gives the number of output
/// bytes that the codec has made so far.
#[verifier::external_body]
fn total_out(codec: &Decompress) -> (n: u64)
    ensures
        n == made_by(*codec),
{
    codec.total_out()
}

/// Calls `flate2::Decompress::decompress` without a flush request. The
/// call is one more that the codec has had. It takes no more bytes than the
/// input has and adds them to the count of the bytes taken; it writes what
/// it makes at the start of `output`, whose length stays what it was, and
/// adds it to the count of the bytes made. The two counts are kept in 64
/// bits, which the call must not exceed.
#[verifier::external_body]
fn inflate(codec: &mut Decompress, input: &[u8], output: &mut Vec<u8>) -> (res: Result<
    Report,
    DecompressError,
>)
    requires
        taken_by(*old(codec)) + input@.len() <= u64::MAX,
        made_by(*old(codec)) + old(output)@.len() <= u64::MAX,
    ensures
        final(output)@.len() == old(output)@.len(),
        calls_of(*final(codec)) == calls_of(*old(codec)).push(
            (input@, old(output)@.len() as nat),
        ),
        match res {
            Ok(report) => answer_to(calls_of(*old(codec)), input@, old(output)@.len() as nat).0
                == Some(report),
            Err(_) => answer_to(calls_of(*old(codec)), input@, old(output)@.len() as nat).0
                is None,
        },
        taken_by(*final(codec)) == taken_by(*old(codec)) + answer_to(
            calls_of(*old(codec)),
            input@,
            old(output)@.len() as nat,
        ).1,
        taken_by(*final(codec)) <= taken_by(*old(codec)) + input@.len(),
        made_by(*final(codec)) == made_by(*old(codec)) + answer_to(
            calls_of(*old(codec)),
            input@,
            old(output)@.len() as nat,
        ).2.len(),
        made_by(*final(codec)) <= made_by(*old(codec)) + final(output)@.len(),
        final(output)@.subrange(0, made_by(*final(codec)) - made_by(*old(codec))) == answer_to(
            calls_of(*old(codec)),
            input@,
            old(output)@.len() as nat,
        ).2,
{
    match codec.decompress(input, output.as_mut_slice(), FlushDecompress::None) {
        Ok(Status::Ok) => Ok(Report::Going),
        Ok(Status::BufError) => Ok(Report::BufError),
        Ok(Status::StreamEnd) => Ok(Report::StreamEnd),
        Err(e) => Err(e),
    }
}

/// How far inflating has come.
#[derive(Clone, Debug, PartialEq, Eq)]
pub struct Inflation {
    /// What has been inflated.
    pub output: Vec<u8>,
    /// How much of the input has been taken.
    pub consumed: usize,
    /// Why inflating stopped, once it has.
    pub stop: Option<Stop>,
}

/// The state of inflating as a mathematical value.
pub struct InflationView {
    pub output: Seq<u8>,
    pub consumed: nat,
    pub stop: Option<Stop>,
}

impl View for Inflation {
    type V = InflationView;

    open spec fn view(&self) -> InflationView {
        InflationView { output: self.output@, consumed: self.consumed as nat, stop: self.stop }
    }
}

/// Whether inflating an input of `input_len` bytes stops after a call that
/// went as `report` says, took `taken` bytes, which brought the bytes taken
/// to `consumed`, and made `made` bytes; and why. The end of the stream
/// stops it whatever is left of the input.
pub open spec fn stop_after(report: Report, input_len: nat, consumed: nat, taken: nat, made: nat)
    -> Option<Stop> {
    if report == Report::StreamEnd {
        Some(Stop::StreamEnd)
    } else if consumed >= input_len {
        Some(Stop::InputSpent)
    } else if taken == 0 && made == 0 {
        Some(Stop::Stalled)
    } else {
        None
    }
}

/// The state after one answer of the codec has been taken in. An answer
/// that is an error stops the work and adds nothing. Any other adds what
/// was made to the output and what was taken to the count.
pub open spec fn absorbed(
    before: InflationView,
    input_len: nat,
    outcome: Result<Report, DecodeError>,
    taken: nat,
    made: Seq<u8>,
) -> InflationView {
    match outcome {
        Err(_) => InflationView { stop: Some(Stop::Failed), ..before },
        Ok(report) => InflationView {
            output: before.output + made,
            consumed: before.consumed + taken,
            stop: stop_after(report, input_len, before.consumed + taken, taken, made.len()),
        },
    }
}

/// Once an answer reports the end of the stream, inflating stops with what
/// it has made, the bytes of that last call included, however much of the
/// input is left.
pub proof fn lemma_stream_end_leaves_the_rest(
    before: InflationView,
    input_len: nat,
    taken: nat,
    made: Seq<u8>,
)
    ensures
        absorbed(before, input_len, Ok(Report::StreamEnd), taken, made).stop == Some(
            Stop::StreamEnd,
        ),
        absorbed(before, input_len, Ok(Report::StreamEnd), taken, made).output == before.output
            + made,
{
}

/// Puts `more` at the end of `out`.
fn append(out: &mut Vec<u8>, more: &[u8])
    ensures
        final(out)@ == old(out)@ + more@,
{
    out.extend_from_slice(more);
    assert(out@ =~= old(out)@ + more@);
}

impl Inflation {
    /// The state before the first call.
    pub fn new() -> (state: Inflation)
        ensures
            state@ == (InflationView { output: Seq::empty(), consumed: 0, stop: None }),
    {
        Inflation { output: Vec::new(), consumed: 0, stop: None }
    }

    /// The error that stopped the work, if one did.
    pub fn error(&self) -> (e: Option<DecodeError>)
        ensures
            e == (if self.stop == Some(Stop::Failed) {
                Some(DecodeError::Codec)
            } else {
                None
            }),
    {
        match self.stop {
            Some(Stop::Failed) => Some(DecodeError::Codec),
            _ => None,
        }
    }

    /// Takes in one answer of the codec: how the call went, how many bytes
    /// of the input it took, and the bytes that it made.
    pub fn absorb(
        &mut self,
        input_len: usize,
        outcome: Result<Report, DecodeError>,
        taken: usize,
        made: &[u8],
    )
        requires
            old(self).consumed + taken <= usize::MAX,
        ensures
            final(self)@ == absorbed(old(self)@, input_len as nat, outcome, taken as nat, made@),
    {
        match outcome {
            Err(_) => {
                self.stop = Some(Stop::Failed);
            },
            Ok(report) => {
                append(&mut self.output, made);
                self.consumed = self.consumed + taken;
                self.stop = match report {
                    Report::StreamEnd => Some(Stop::StreamEnd),
                    _ => if self.consumed >= input_len {
                        Some(Stop::InputSpent)
                    } else if taken == 0 && made.len() == 0 {
                        Some(Stop::Stalled)
                    } else {
                        None
                    },
                };
            },
        }
    }
}

/// An answer of the codec, held against what the codec was given: one that
/// is no report, or that claims more bytes taken than the input has or
/// more bytes made than there was room for, is an error.
pub open spec fn checked(answer: (Option<Report>, nat, Seq<u8>), given: nat, room: nat) -> (
    Result<Report, DecodeError>,
    nat,
    Seq<u8>,
) {
    match answer.0 {
        Some(report) => if answer.1 <= given && answer.2.len() <= room {
            (Ok(report), answer.1, answer.2)
        } else {
            (Err(DecodeError::Codec), 0, Seq::empty())
        },
        None => (Err(DecodeError::Codec), 0, Seq::empty()),
    }
}

/// Where inflating `compressed` ends when it has come as far as `state`
/// with a codec that has had `calls`. While nothing has stopped the work,
/// the codec is given what is left of the input and one chunk of room, and
/// its answer is taken in. The work also stops where the output could not
/// take another chunk.
pub open spec fn inflating(
    calls: Seq<(Seq<u8>, nat)>,
    compressed: Seq<u8>,
    state: InflationView,
) -> InflationView
    decreases compressed.len() - state.consumed, usize::MAX - state.output.len(),
{
    if state.stop is Some || state.consumed > compressed.len() {
        state
    } else if state.output.len() + CHUNK > usize::MAX {
        InflationView { stop: Some(Stop::Full), ..state }
    } else {
        let input = compressed.subrange(state.consumed as int, compressed.len() as int);
        let answer = checked(answer_to(calls, input, CHUNK as nat), input.len(), CHUNK as nat);
        let next = absorbed(state, compressed.len(), answer.0, answer.1, answer.2);
        if next.stop is Some {
            next
        } else {
            inflating(calls.push((input, CHUNK as nat)), compressed, next)
        }
    }
}

/// What inflating `compressed` gives: where the work ends when it starts
/// with a codec that has had no call and with nothing inflated.
pub open spec fn inflated(compressed: Seq<u8>) -> InflationView {
    inflating(
        Seq::empty(),
        compressed,
        InflationView { output: Seq::empty(), consumed: 0, stop: None },
    )
}

/// Where the codec reports the end of the stream, the work ends there: what
/// was inflated before and what that call made is the output, however much
/// of the input is left.
pub proof fn lemma_the_end_of_the_stream_ends_the_work(
    calls: Seq<(Seq<u8>, nat)>,
    compressed: Seq<u8>,
    state: InflationView,
)
    requires
        state.stop is None,
        state.consumed <= compressed.len(),
        state.output.len() + CHUNK <= usize::MAX,
        answer_to(
            calls,
            compressed.subrange(state.consumed as int, compressed.len() as int),
            CHUNK as nat,
        ).0 == Some(Report::StreamEnd),
        answer_to(
            calls,
            compressed.subrange(state.consumed as int, compressed.len() as int),
            CHUNK as nat,
        ).1 <= compressed.len() - state.consumed,
        answer_to(
            calls,
            compressed.subrange(state.consumed as int, compressed.len() as int),
            CHUNK as nat,
        ).2.len() <= CHUNK,
    ensures
        ({
            let answer = answer_to(
                calls,
                compressed.subrange(state.consumed as int, compressed.len() as int),
                CHUNK as nat,
            );
            inflating(calls, compressed, state) == (InflationView {
                output: state.output + answer.2,
                consumed: state.consumed + answer.1,
                stop: Some(Stop::StreamEnd),
            })
        }),
{
}

/// Holds what the codec reported, and the counts of the bytes taken and
/// made before and after the call, against what the codec was given. A
/// report whose counts fit is handed on with the bytes taken and made; one
/// whose counts do not fit is an error, and so is an error.
fn checked_answer(
    outcome: Result<Report, DecompressError>,
    in_before: u64,
    in_after: u64,
    out_before: u64,
    out_after: u64,
    given: usize,
    room: usize,
) -> (res: (Result<Report, DecodeError>, usize, usize))
    ensures
        res == (match outcome {
            Ok(report) => if in_before <= in_after && in_after - in_before <= given && out_before
                <= out_after && out_after - out_before <= room {
                (
                    Ok::<Report, DecodeError>(report),
                    (in_after - in_before) as usize,
                    (out_after - out_before) as usize,
                )
            } else {
                (Err::<Report, DecodeError>(DecodeError::Codec), 0usize, 0usize)
            },
            Err(_) => (Err::<Report, DecodeError>(DecodeError::Codec), 0usize, 0usize),
        }),
{
    match outcome {
        Err(_) => (Err(DecodeError::Codec), 0, 0),
        Ok(report) => {
            let took_what_it_could = in_before <= in_after && in_after - in_before <= given as u64;
            let made_what_it_could = out_before <= out_after && out_after - out_before
                <= room as u64;
            if took_what_it_could && made_what_it_could {
                (Ok(report), (in_after - in_before) as usize, (out_after - out_before) as usize)
            } else {
                (Err(DecodeError::Codec), 0, 0)
            }
        },
    }
}

/// Inflates `compressed`, a deflate stream without a header, as far as it
/// goes. The work stops when the codec reports the end of the stream, when
/// all of the input is taken, when the codec finds the stream malformed,
/// when it takes and makes nothing, or when the output has no room for
/// another chunk; what was inflated up to there is kept in every case.
pub fn decompress(compressed: &[u8]) -> (done: Inflation)
    ensures
        done@ == inflated(compressed@),
        done.stop is Some,
        done.consumed <= compressed@.len(),
{
    let n = compressed.len();
    let mut codec = raw_inflater();
    let mut chunk: Vec<u8> = vec![0u8; CHUNK];
    let mut state = Inflation::new();
    loop
        invariant_except_break
            state.stop is None,
            taken_by(codec) == state.consumed,
            made_by(codec) == state.output@.len(),
            inflated(compressed@) == inflating(calls_of(codec), compressed@, state@),
        invariant
            n == compressed@.len(),
            chunk@.len() == CHUNK,
            state.consumed <= n,
        ensures
            state.stop is Some,
            inflated(compressed@) == state@,
        decreases n - state.consumed, usize::MAX - state.output@.len(),
    {
        if state.output.len() > usize::MAX - CHUNK {
            state.stop = Some(Stop::Full);
            break ;
        }
        let ghost calls = calls_of(codec);
        let ghost before = state@;
        let in_before = total_in(&codec);
        let out_before = total_out(&codec);
        let input = slice_subrange(compressed, state.consumed, n);
        let outcome = inflate(&mut codec, input, &mut chunk);
        let (outcome, taken, made) = checked_answer(
            outcome,
            in_before,
            total_in(&codec),
            out_before,
            total_out(&codec),
            n - state.consumed,
            CHUNK,
        );
        let bytes = slice_subrange(chunk.as_slice(), 0, made);
        proof {
            let room = CHUNK as nat;
            let answer = checked(answer_to(calls, input@, room), input@.len(), room);
            assert(bytes@ =~= answer.2);
            assert(answer == (outcome, taken as nat, bytes@));
        }
        state.absorb(n, outcome, taken, bytes);
        assert(state.output@.len() == state.output.len());
        if state.stop.is_some() {
            break ;
        }
    }
    state
}

} // verus!
