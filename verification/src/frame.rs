//! The frame of a publish request.
//!
//! A frame is the length of the metadata, the metadata, the length of the
//! crate file and the crate file. Both lengths are 32-bit and little-endian,
//! and nothing may follow the crate file:
//!
//! ```text
//! u32_le metadata_len | metadata_len bytes | u32_le crate_len | crate_len bytes
//! ```

use crate::error::{Error, ErrorView};
use vstd::prelude::*;
use vstd::slice::slice_subrange;

verus! {

/// The number that the four bytes `b` write, least significant byte first.
pub open spec fn le32(b: Seq<u8>) -> nat
    recommends
        b.len() == 4,
{
    (b[0] as nat) + (b[1] as nat) * 0x100 + (b[2] as nat) * 0x1_0000 + (b[3] as nat) * 0x100_0000
}

/// What reading a length from the front of `bytes` gives: the length and
/// the bytes behind it, or, where fewer than four bytes are left, the number
/// of bytes that are left.
pub open spec fn length_read(bytes: Seq<u8>) -> Result<(nat, Seq<u8>), usize> {
    if bytes.len() < 4 {
        Err(bytes.len() as usize)
    } else {
        Ok((le32(bytes.take(4)), bytes.skip(4)))
    }
}

/// What taking `n` bytes from the front of `bytes` gives: those bytes and
/// the bytes behind them, or, where fewer than `n` bytes are left, the
/// number of bytes that are left.
pub open spec fn bytes_taken(bytes: Seq<u8>, n: nat) -> Result<(Seq<u8>, Seq<u8>), usize> {
    if bytes.len() < n {
        Err(bytes.len() as usize)
    } else {
        Ok((bytes.take(n as int), bytes.skip(n as int)))
    }
}

/// The two parts of a frame, as plain values.
pub struct FrameView {
    pub metadata: Seq<u8>,
    pub tarball: Seq<u8>,
}

/// What `rest`, the part of a frame behind the metadata, holds: the crate
/// file, or the length that reports where it is cut short or how many bytes
/// follow it.
pub open spec fn tarball_of(rest: Seq<u8>) -> Result<Seq<u8>, usize> {
    match length_read(rest) {
        Err(n) => Err(n),
        Ok((crate_len, behind)) => match bytes_taken(behind, crate_len) {
            Err(n) => Err(n),
            Ok((tarball, trailing)) => if trailing.len() == 0 {
                Ok(tarball)
            } else {
                Err(trailing.len() as usize)
            },
        },
    }
}

/// What `body` holds as a frame: its two parts, or the length that reports
/// the first place at which it is not one. That is the number of bytes
/// left where a length or a part is cut short, and the number of bytes
/// that follow the crate file where any do.
pub open spec fn frame_of(body: Seq<u8>) -> Result<FrameView, usize> {
    match length_read(body) {
        Err(n) => Err(n),
        Ok((metadata_len, rest)) => match bytes_taken(rest, metadata_len) {
            Err(n) => Err(n),
            Ok((metadata, rest)) => match tarball_of(rest) {
                Err(n) => Err(n),
                Ok(tarball) => Ok(FrameView { metadata, tarball }),
            },
        },
    }
}

/// Reads a length from the front of `bytes`.
pub fn read_length(bytes: &[u8]) -> (r: Result<(usize, &[u8]), Error>)
    ensures
        match length_read(bytes@) {
            Ok((n, rest)) => r matches Ok((m, behind)) && m == n && behind@ == rest,
            Err(n) => r matches Err(e) && e@ == ErrorView::InvalidBodyLength(n),
        },
{
    if bytes.len() < 4 {
        return Err(Error::InvalidBodyLength(bytes.len()));
    }
    let b0: u32 = bytes[0] as u32;
    let b1: u32 = bytes[1] as u32;
    let b2: u32 = bytes[2] as u32;
    let b3: u32 = bytes[3] as u32;
    let n: u32 = b0 + b1 * 0x100 + b2 * 0x1_0000 + b3 * 0x100_0000;
    let rest = slice_subrange(bytes, 4, bytes.len());
    Ok((n as usize, rest))
}

/// Takes `n` bytes from the front of `bytes`.
pub fn take_bytes(bytes: &[u8], n: usize) -> (r: Result<(&[u8], &[u8]), Error>)
    ensures
        match bytes_taken(bytes@, n as nat) {
            Ok((taken, rest)) => r matches Ok((front, behind)) && front@ == taken && behind@ == rest,
            Err(n) => r matches Err(e) && e@ == ErrorView::InvalidBodyLength(n),
        },
{
    if bytes.len() < n {
        return Err(Error::InvalidBodyLength(bytes.len()));
    }
    let front = slice_subrange(bytes, 0, n);
    let behind = slice_subrange(bytes, n, bytes.len());
    Ok((front, behind))
}

/// The two parts of a frame.
#[derive(Debug)]
pub struct Frame<'a> {
    pub metadata: &'a [u8],
    pub tarball: &'a [u8],
}

impl<'a> View for Frame<'a> {
    type V = FrameView;

    open spec fn view(&self) -> FrameView {
        FrameView { metadata: self.metadata@, tarball: self.tarball@ }
    }
}

/// Takes the crate file from what follows the metadata in a frame: a
/// length, as many bytes, and nothing more.
pub fn read_tarball(rest: &[u8]) -> (r: Result<&[u8], Error>)
    ensures
        match tarball_of(rest@) {
            Ok(tarball) => r matches Ok(t) && t@ == tarball,
            Err(n) => r matches Err(e) && e@ == ErrorView::InvalidBodyLength(n),
        },
{
    let (crate_len, behind) = match read_length(rest) {
        Ok(read) => read,
        Err(e) => {
            return Err(e);
        },
    };
    let (tarball, trailing) = match take_bytes(behind, crate_len) {
        Ok(taken) => taken,
        Err(e) => {
            return Err(e);
        },
    };
    if trailing.len() == 0 {
        Ok(tarball)
    } else {
        Err(Error::InvalidBodyLength(trailing.len()))
    }
}

/// Splits the body of a publish request into the metadata and the crate
/// file.
pub fn parse_frame<'a>(body: &'a [u8]) -> (r: Result<Frame<'a>, Error>)
    ensures
        match frame_of(body@) {
            Ok(frame) => r matches Ok(f) && f@ == frame,
            Err(n) => r matches Err(e) && e@ == ErrorView::InvalidBodyLength(n),
        },
{
    let (metadata_len, rest) = match read_length(body) {
        Ok(read) => read,
        Err(e) => {
            return Err(e);
        },
    };
    let (metadata, rest) = match take_bytes(rest, metadata_len) {
        Ok(taken) => taken,
        Err(e) => {
            return Err(e);
        },
    };
    match read_tarball(rest) {
        Ok(tarball) => Ok(Frame { metadata, tarball }),
        Err(e) => Err(e),
    }
}

/// A body is a frame exactly when it is as long as the two lengths it
/// states and the parts they announce: eight bytes for the lengths, then
/// the metadata and the crate file, and not a byte more or less.
pub proof fn lemma_frame_length(body: Seq<u8>)
    ensures
        frame_of(body) is Ok ==> body.len() == 8 + frame_of(body)->Ok_0.metadata.len() + frame_of(
            body,
        )->Ok_0.tarball.len(),
        frame_of(body) is Ok <==> {
            &&& body.len() >= 4
            &&& body.len() >= 8 + le32(body.take(4))
            &&& body.len() == 8 + le32(body.take(4)) + le32(
                body.subrange(4 + le32(body.take(4)) as int, 8 + le32(body.take(4)) as int),
            )
        },
{
    if body.len() >= 4 {
        let m = le32(body.take(4)) as int;
        let rest = body.skip(4);
        if rest.len() >= m {
            let rest2 = rest.skip(m);
            if rest2.len() >= 4 {
                assert(rest2.take(4) =~= body.subrange(4 + m, 8 + m));
            }
        }
    }
}

/// The body made of the two lengths and the two parts is a frame, and it
/// holds the two parts.
pub proof fn lemma_frame_accepted(metadata: Seq<u8>, tarball: Seq<u8>, m: Seq<u8>, c: Seq<u8>)
    requires
        m.len() == 4,
        c.len() == 4,
        le32(m) == metadata.len(),
        le32(c) == tarball.len(),
    ensures
        frame_of(m + metadata + c + tarball) == Ok::<FrameView, usize>(FrameView { metadata, tarball }),
{
    let body = m + metadata + c + tarball;
    assert(body.take(4) =~= m);
    let rest = body.skip(4);
    assert(rest =~= metadata + c + tarball);
    assert(rest.take(metadata.len() as int) =~= metadata);
    let rest2 = rest.skip(metadata.len() as int);
    assert(rest2 =~= c + tarball);
    assert(rest2.take(4) =~= c);
    let rest3 = rest2.skip(4);
    assert(rest3 =~= tarball);
    assert(rest3.take(tarball.len() as int) =~= tarball);
    assert(rest3.skip(tarball.len() as int).len() == 0);
}

} // verus!
