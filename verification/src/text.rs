//! Text fields: a run of bytes, padded with NUL bytes at its end, read as
//! UTF-8 in which every malformed sequence gives way to U+FFFD.

use crate::error::DecodeError;
use crate::layout::starts_with;
use crate::le;
use crate::reader::{decoded, Reader};
use vstd::prelude::*;
use vstd::slice::slice_subrange;

verus! {

/// The text that `bytes` give when read as UTF-8, each malformed sequence
/// replaced by U+FFFD.
pub uninterp spec fn lossy_text(bytes: Seq<u8>) -> Seq<char>;

/// Calls `String::from_utf8_lossy`, which reads the bytes as UTF-8 and puts
/// U+FFFD in place of every malformed sequence. What it gives depends on
/// the bytes alone and is called `lossy_text` here.
#[verifier::external_body]
fn from_utf8_lossy(bytes: &[u8]) -> (s: String)
    ensures
        s@ == lossy_text(bytes@),
{
    String::from_utf8_lossy(bytes).into_owned()
}

/// The length of `s` without the NUL bytes at its end.
pub open spec fn trimmed_len(s: Seq<u8>) -> nat
    decreases s.len(),
{
    if s.len() == 0 || s.last() != 0 {
        s.len()
    } else {
        trimmed_len(s.drop_last())
    }
}

/// `s` without the NUL bytes at its end.
pub open spec fn trim_nuls(s: Seq<u8>) -> Seq<u8> {
    s.subrange(0, trimmed_len(s) as int)
}

/// The text of a field: its bytes without the NUL bytes at the end, read as
/// lossy UTF-8.
pub open spec fn text_of(field: Seq<u8>) -> Seq<char> {
    lossy_text(trim_nuls(field))
}

/// The trimmed length never exceeds the length, nothing but NUL bytes is
/// cut off, and what is left does not end in a NUL byte.
pub proof fn lemma_trimmed_len(s: Seq<u8>)
    ensures
        trimmed_len(s) <= s.len(),
        forall|i: int| trimmed_len(s) <= i < s.len() ==> s[i] == 0,
        trimmed_len(s) > 0 ==> s[trimmed_len(s) - 1] != 0,
    decreases s.len(),
{
    if s.len() != 0 && s.last() == 0 {
        let t = s.drop_last();
        lemma_trimmed_len(t);
        assert forall|i: int| trimmed_len(s) <= i < s.len() implies s[i] == 0 by {
            if i < t.len() {
                assert(t[i] == s[i]);
            }
        }
        if trimmed_len(s) > 0 {
            assert(t[trimmed_len(s) - 1] == s[trimmed_len(s) - 1]);
        }
    }
}

/// A run of NUL bytes at the end of `s` does not count: the trimmed length
/// of `s` is that of its first `n` bytes.
proof fn lemma_trim_suffix(s: Seq<u8>, n: int)
    requires
        0 <= n <= s.len(),
        forall|i: int| n <= i < s.len() ==> s[i] == 0,
    ensures
        trimmed_len(s) == trimmed_len(s.subrange(0, n)),
    decreases s.len() - n,
{
    if n < s.len() {
        assert(s.last() == 0);
        assert(s.drop_last().subrange(0, n) =~= s.subrange(0, n));
        lemma_trim_suffix(s.drop_last(), n);
    } else {
        assert(s.subrange(0, n) =~= s);
    }
}

/// The length of `bytes` without the NUL bytes at its end.
pub fn trimmed_length(bytes: &[u8]) -> (n: usize)
    ensures
        n == trimmed_len(bytes@),
        n <= bytes@.len(),
{
    let mut n = bytes.len();
    while n > 0 && bytes[n - 1] == 0
        invariant
            n <= bytes@.len(),
            forall|i: int| n <= i < bytes@.len() ==> bytes@[i] == 0,
        decreases n,
    {
        n = n - 1;
    }
    proof {
        lemma_trim_suffix(bytes@, n as int);
    }
    n
}

/// The text of a field.
pub fn text_from(bytes: &[u8]) -> (s: String)
    ensures
        s@ == text_of(bytes@),
{
    let n = trimmed_length(bytes);
    from_utf8_lossy(slice_subrange(bytes, 0, n))
}

/// The text of the `n` bytes from `p` on, if that many are there.
pub open spec fn text_at(s: Seq<u8>, p: int, n: nat) -> Option<(Seq<char>, int)> {
    if p + n <= s.len() {
        Some((text_of(s.subrange(p, p + n)), p + n))
    } else {
        None
    }
}

/// The name that stands at `p`: two bytes of no meaning, the length of the
/// field in two bytes, then the field.
pub open spec fn name_at(s: Seq<u8>, p: int) -> Option<(Seq<char>, int)> {
    if p + 4 <= s.len() {
        text_at(s, p + 4, le::u16_at(s, p + 2) as nat)
    } else {
        None
    }
}

/// A text field that fits in a buffer is the same text in every buffer that
/// starts with that one.
pub proof fn lemma_text_in_longer(short: Seq<u8>, long: Seq<u8>, p: int, n: nat)
    requires
        starts_with(long, short),
        0 <= p,
        text_at(short, p, n) is Some,
    ensures
        text_at(long, p, n) == text_at(short, p, n),
{
    assert(long.subrange(p, p + n) =~= short.subrange(p, p + n));
}

/// A name that is found in a buffer is found, the same, in every buffer
/// that starts with that one; and it ends after its start and within the
/// buffer.
pub proof fn lemma_name_in_longer(short: Seq<u8>, long: Seq<u8>, p: int)
    requires
        starts_with(long, short),
        0 <= p,
        name_at(short, p) is Some,
    ensures
        name_at(long, p) == name_at(short, p),
        p + 4 <= name_at(short, p)->Some_0.1 <= short.len(),
{
    lemma_text_in_longer(short, long, p + 4, le::u16_at(short, p + 2) as nat);
}

/// Reads a text field of `n` bytes.
pub fn read_text(reader: &mut Reader, n: usize) -> (res: Result<String, DecodeError>)
    ensures
        decoded(
            *old(reader),
            *final(reader),
            res,
            text_at(old(reader).bytes(), old(reader).pos(), n as nat),
        ),
{
    reader.need(n)?;
    let s = text_from(reader.slice_at(0, n));
    reader.advance(n);
    Ok(s)
}

/// Reads a name: a tag of two bytes, which is passed over, a length of two
/// bytes, and a text field of that length.
pub fn read_debug_string(reader: &mut Reader) -> (res: Result<String, DecodeError>)
    ensures
        decoded(
            *old(reader),
            *final(reader),
            res,
            name_at(old(reader).bytes(), old(reader).pos()),
        ),
{
    reader.need(4)?;
    let n = reader.u16_at(2) as usize;
    if reader.bytes_left() - 4 < n {
        return Err(DecodeError::Underrun);
    }
    let s = text_from(reader.slice_at(4, n));
    reader.advance(4 + n);
    Ok(s)
}

} // verus!
