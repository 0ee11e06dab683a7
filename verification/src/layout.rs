//! Values of fixed width: one layout, one read, and arrays of them.

use crate::error::DecodeError;
use crate::le;
use crate::le::F32;
use crate::reader::{took, Reader};
use vstd::prelude::*;

verus! {

/// `long` starts with `short`.
pub open spec fn starts_with(long: Seq<u8>, short: Seq<u8>) -> bool {
    short.len() <= long.len() && forall|i: int| 0 <= i < short.len() ==> long[i] == short[i]
}

/// A value whose encoding has one width and reads the same wherever it stands.
pub trait Fixed: Sized {
    /// The width of the encoding in bytes.
    spec fn size() -> nat;

    /// The value whose encoding starts at `p`.
    spec fn at(s: Seq<u8>, p: int) -> Self;

    /// The width of the encoding in bytes.
    fn width() -> (n: usize)
        ensures
            n == Self::size(),
            0 < n <= 128,
    ;

    /// Decodes the value that stands `off` bytes past the position.
    fn peek(reader: &Reader, off: usize) -> (v: Self)
        requires
            off + Self::size() <= reader.remaining() <= usize::MAX,
        ensures
            v == Self::at(reader.bytes(), reader.pos() + off),
    ;

    /// A value that fits in a buffer is the same value in every buffer that
    /// starts with that one.
    proof fn lemma_at_in_longer(short: Seq<u8>, long: Seq<u8>, p: int)
        requires
            starts_with(long, short),
            0 <= p,
            p + Self::size() <= short.len(),
        ensures
            Self::at(long, p) == Self::at(short, p),
    ;
}

/// The value of fixed width that stands at `p`, with the position after it,
/// if the buffer reaches that far.
pub open spec fn fixed_at<T: Fixed>(s: Seq<u8>, p: int) -> Option<(T, int)> {
    if p + T::size() <= s.len() {
        Some((T::at(s, p), p + T::size()))
    } else {
        None
    }
}

/// The `n` values that stand one after the other from `p` on.
pub open spec fn array_at<T: Fixed>(s: Seq<u8>, p: int, n: nat) -> Seq<T> {
    Seq::new(n, |i: int| T::at(s, p + i * T::size()))
}

/// The view of what an option holds.
pub open spec fn view_of_option<T: View>(o: Option<T>) -> Option<T::V> {
    match o {
        Some(v) => Some(v@),
        None => None,
    }
}

/// The views of the items of a sequence.
pub open spec fn views_of<T: View>(items: Seq<T>) -> Seq<T::V> {
    Seq::new(items.len(), |i: int| items[i]@)
}

/// The views of the items of a sequence of options.
pub open spec fn views_of_options<T: View>(items: Seq<Option<T>>) -> Seq<Option<T::V>> {
    Seq::new(items.len(), |i: int| view_of_option(items[i]))
}

/// A count as the archive stores it in sixteen signed bits: a negative one
/// stands for no items.
pub open spec fn count_of(n: i16) -> nat {
    if n > 0 {
        n as nat
    } else {
        0
    }
}

/// The number of items that a signed count stands for.
pub fn item_count(n: i16) -> (c: usize)
    ensures
        c == count_of(n),
{
    if n > 0 {
        n as usize
    } else {
        0
    }
}

/// Reads one value of fixed width.
pub fn read_one<T: Fixed>(reader: &mut Reader) -> (res: Result<T, DecodeError>)
    ensures
        took(
            *old(reader),
            *final(reader),
            res,
            T::size() as int,
            T::at(old(reader).bytes(), old(reader).pos()),
        ),
{
    let w = T::width();
    reader.need(w)?;
    let v = T::peek(reader, 0);
    reader.advance(w);
    Ok(v)
}

/// `n` values of width `w` fit in `left` bytes exactly when `n` is at most
/// the whole quotient of `left` by `w`.
proof fn lemma_fits(n: int, w: int, left: int)
    requires
        0 <= n,
        0 < w,
        0 <= left,
    ensures
        n * w <= left <==> n <= left / w,
{
    assert(n * w <= left <==> n <= left / w) by (nonlinear_arith)
        requires
            0 <= n,
            0 < w,
            0 <= left,
    ;
}

/// Succeeds where `n` values of width `w` remain, and then gives their
/// total width. Reads nothing.
pub fn need_array(reader: &Reader, n: usize, w: usize) -> (res: Result<usize, DecodeError>)
    requires
        0 < w,
    ensures
        match res {
            Ok(total) => total == n * w && n * w <= reader.remaining(),
            Err(e) => e == DecodeError::Underrun && n * w > reader.remaining(),
        },
        0 <= reader.remaining() <= usize::MAX,
{
    let left = reader.bytes_left();
    proof {
        lemma_fits(n as int, w as int, left as int);
    }
    if n <= left / w {
        assert(n * w <= left);
        Ok(n * w)
    } else {
        Err(DecodeError::Underrun)
    }
}

/// Decodes the `n` values that stand one after the other from `off` bytes
/// past the position on.
pub fn peek_array<T: Fixed>(reader: &Reader, off: usize, n: usize) -> (out: Vec<T>)
    requires
        off + n * T::size() <= reader.remaining() <= usize::MAX,
    ensures
        out@ == array_at::<T>(reader.bytes(), reader.pos() + off, n as nat),
{
    let w = T::width();
    let mut out: Vec<T> = Vec::new();
    let mut i: usize = 0;
    while i < n
        invariant
            i <= n,
            w == T::size(),
            0 < w,
            off + n * w <= reader.remaining() <= usize::MAX,
            out@ == array_at::<T>(reader.bytes(), reader.pos() + off, i as nat),
        decreases n - i,
    {
        assert(0 <= i * w && i * w + w <= n * w) by (nonlinear_arith)
            requires
                0 <= i < n,
                0 < w,
        ;
        let v = T::peek(reader, off + i * w);
        out.push(v);
        assert(out@ =~= array_at::<T>(reader.bytes(), reader.pos() + off, (i + 1) as nat));
        i = i + 1;
    }
    out
}

/// Reads `n` values of fixed width that stand one after the other. Where
/// fewer remain, nothing is read.
pub fn read_array<T: Fixed>(reader: &mut Reader, n: usize) -> (res: Result<Vec<T>, DecodeError>)
    ensures
        final(reader).bytes() == old(reader).bytes(),
        match res {
            Ok(v) => n * T::size() <= old(reader).remaining() && v@ == array_at::<T>(
                old(reader).bytes(),
                old(reader).pos(),
                n as nat,
            ) && final(reader).pos() == old(reader).pos() + n * T::size(),
            Err(e) => e == DecodeError::Underrun && n * T::size() > old(reader).remaining()
                && final(reader).pos() == old(reader).pos(),
        },
{
    let total = need_array(reader, n, T::width())?;
    let out = peek_array::<T>(reader, 0, n);
    reader.advance(total);
    Ok(out)
}

/// A value whose encoding has a short and a full form, the full form
/// carrying fields at its end that the short one lacks.
pub trait Gated: Sized {
    /// The width in bytes of the full or of the short form.
    spec fn size(full: bool) -> nat;

    /// The value whose encoding, in the full or the short form, starts at
    /// `p`. What the short form lacks has its default.
    spec fn at(s: Seq<u8>, p: int, full: bool) -> Self;

    /// The width in bytes of the full or of the short form.
    fn width(full: bool) -> (n: usize)
        ensures
            n == Self::size(full),
            0 < n <= 128,
    ;

    /// Decodes the value that stands `off` bytes past the position.
    fn peek(reader: &Reader, off: usize, full: bool) -> (v: Self)
        requires
            off + Self::size(full) <= reader.remaining() <= usize::MAX,
        ensures
            v == Self::at(reader.bytes(), reader.pos() + off, full),
    ;

    /// A value that fits in a buffer is the same value in every buffer that
    /// starts with that one.
    proof fn lemma_at_in_longer(short: Seq<u8>, long: Seq<u8>, p: int, full: bool)
        requires
            starts_with(long, short),
            0 <= p,
            p + Self::size(full) <= short.len(),
        ensures
            Self::at(long, p, full) == Self::at(short, p, full),
    ;
}

/// The `n` values of one form that stand one after the other from `p` on.
pub open spec fn gated_array_at<T: Gated>(s: Seq<u8>, p: int, n: nat, full: bool) -> Seq<T> {
    Seq::new(n, |i: int| T::at(s, p + i * T::size(full), full))
}

/// Reads one value in the full or the short form.
pub fn read_gated<T: Gated>(reader: &mut Reader, full: bool) -> (res: Result<T, DecodeError>)
    ensures
        took(
            *old(reader),
            *final(reader),
            res,
            T::size(full) as int,
            T::at(old(reader).bytes(), old(reader).pos(), full),
        ),
{
    let w = T::width(full);
    reader.need(w)?;
    let v = T::peek(reader, 0, full);
    reader.advance(w);
    Ok(v)
}

/// Decodes the `n` values of one form that stand one after the other from
/// `off` bytes past the position on.
pub fn peek_gated_array<T: Gated>(reader: &Reader, off: usize, n: usize, full: bool) -> (out: Vec<
    T,
>)
    requires
        off + n * T::size(full) <= reader.remaining() <= usize::MAX,
    ensures
        out@ == gated_array_at::<T>(reader.bytes(), reader.pos() + off, n as nat, full),
{
    let w = T::width(full);
    let mut out: Vec<T> = Vec::new();
    let mut i: usize = 0;
    while i < n
        invariant
            i <= n,
            w == T::size(full),
            0 < w,
            off + n * w <= reader.remaining() <= usize::MAX,
            out@ == gated_array_at::<T>(reader.bytes(), reader.pos() + off, i as nat, full),
        decreases n - i,
    {
        assert(0 <= i * w && i * w + w <= n * w) by (nonlinear_arith)
            requires
                0 <= i < n,
                0 < w,
        ;
        let v = T::peek(reader, off + i * w, full);
        out.push(v);
        assert(out@ =~= gated_array_at::<T>(
            reader.bytes(),
            reader.pos() + off,
            (i + 1) as nat,
            full,
        ));
        i = i + 1;
    }
    out
}

/// Reads `n` values of one form that stand one after the other. Where fewer
/// remain, nothing is read.
pub fn read_gated_array<T: Gated>(reader: &mut Reader, n: usize, full: bool) -> (res: Result<
    Vec<T>,
    DecodeError,
>)
    ensures
        final(reader).bytes() == old(reader).bytes(),
        match res {
            Ok(v) => n * T::size(full) <= old(reader).remaining() && v@ == gated_array_at::<T>(
                old(reader).bytes(),
                old(reader).pos(),
                n as nat,
                full,
            ) && final(reader).pos() == old(reader).pos() + n * T::size(full),
            Err(e) => e == DecodeError::Underrun && n * T::size(full) > old(reader).remaining()
                && final(reader).pos() == old(reader).pos(),
        },
{
    let total = need_array(reader, n, T::width(full))?;
    let out = peek_gated_array::<T>(reader, 0, n, full);
    reader.advance(total);
    Ok(out)
}

/// Values that fit in a buffer one after the other are the same values in
/// every buffer that starts with that one.
pub proof fn lemma_array_in_longer<T: Fixed>(short: Seq<u8>, long: Seq<u8>, p: int, n: nat)
    requires
        starts_with(long, short),
        0 <= p,
        p + n * T::size() <= short.len(),
    ensures
        array_at::<T>(long, p, n) == array_at::<T>(short, p, n),
{
    assert forall|i: int| 0 <= i < n implies #[trigger] array_at::<T>(long, p, n)[i] == array_at::<
        T,
    >(short, p, n)[i] by {
        let w = T::size() as int;
        assert(0 <= i * w && i * w + w <= n * w) by (nonlinear_arith)
            requires
                0 <= i < n,
                0 <= w,
        ;
        T::lemma_at_in_longer(short, long, p + i * T::size());
    }
    assert(array_at::<T>(long, p, n) =~= array_at::<T>(short, p, n));
}

/// Values of one form that fit in a buffer one after the other are the same
/// values in every buffer that starts with that one.
pub proof fn lemma_gated_array_in_longer<T: Gated>(
    short: Seq<u8>,
    long: Seq<u8>,
    p: int,
    n: nat,
    full: bool,
)
    requires
        starts_with(long, short),
        0 <= p,
        p + n * T::size(full) <= short.len(),
    ensures
        gated_array_at::<T>(long, p, n, full) == gated_array_at::<T>(short, p, n, full),
{
    assert forall|i: int| 0 <= i < n implies #[trigger] gated_array_at::<T>(long, p, n, full)[i]
        == gated_array_at::<T>(short, p, n, full)[i] by {
        let w = T::size(full) as int;
        assert(0 <= i * w && i * w + w <= n * w) by (nonlinear_arith)
            requires
                0 <= i < n,
                0 <= w,
        ;
        T::lemma_at_in_longer(short, long, p + i * T::size(full), full);
    }
    assert(gated_array_at::<T>(long, p, n, full) =~= gated_array_at::<T>(short, p, n, full));
}

/// A value of fixed width that is found in a buffer is found, the same, in
/// every buffer that starts with that one.
pub proof fn lemma_fixed_in_longer<T: Fixed>(short: Seq<u8>, long: Seq<u8>, p: int)
    requires
        starts_with(long, short),
        0 <= p,
        fixed_at::<T>(short, p) is Some,
    ensures
        fixed_at::<T>(long, p) == fixed_at::<T>(short, p),
{
    T::lemma_at_in_longer(short, long, p);
}

impl Fixed for i8 {
    open spec fn size() -> nat {
        1
    }

    open spec fn at(s: Seq<u8>, p: int) -> i8 {
        le::i8_at(s, p)
    }

    fn width() -> usize {
        1
    }

    fn peek(reader: &Reader, off: usize) -> i8 {
        reader.i8_at(off)
    }

    proof fn lemma_at_in_longer(short: Seq<u8>, long: Seq<u8>, p: int) {
    }
}

impl Fixed for i16 {
    open spec fn size() -> nat {
        2
    }

    open spec fn at(s: Seq<u8>, p: int) -> i16 {
        le::i16_at(s, p)
    }

    fn width() -> usize {
        2
    }

    fn peek(reader: &Reader, off: usize) -> i16 {
        reader.i16_at(off)
    }

    proof fn lemma_at_in_longer(short: Seq<u8>, long: Seq<u8>, p: int) {
    }
}

impl Fixed for i32 {
    open spec fn size() -> nat {
        4
    }

    open spec fn at(s: Seq<u8>, p: int) -> i32 {
        le::i32_at(s, p)
    }

    fn width() -> usize {
        4
    }

    fn peek(reader: &Reader, off: usize) -> i32 {
        reader.i32_at(off)
    }

    proof fn lemma_at_in_longer(short: Seq<u8>, long: Seq<u8>, p: int) {
    }
}

impl Fixed for F32 {
    open spec fn size() -> nat {
        4
    }

    open spec fn at(s: Seq<u8>, p: int) -> F32 {
        le::f32_at(s, p)
    }

    fn width() -> usize {
        4
    }

    fn peek(reader: &Reader, off: usize) -> F32 {
        reader.f32_at(off)
    }

    proof fn lemma_at_in_longer(short: Seq<u8>, long: Seq<u8>, p: int) {
    }
}

} // verus!
