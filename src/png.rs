use vstd::prelude::*;

use crate::model::FormatError;

verus! {

/// The eight bytes every PNG file begins with.
pub open spec fn png_signature() -> Seq<u8> {
    seq![0x89u8, 0x50u8, 0x4eu8, 0x47u8, 0x0du8, 0x0au8, 0x1au8, 0x0au8]
}

pub open spec fn has_signature(d: Seq<u8>) -> bool {
    d.len() >= 8 && d.subrange(0, 8) == png_signature()
}

/// The big-endian integer in the four bytes at `i`.
pub open spec fn be_u32_at(d: Seq<u8>, i: int) -> nat {
    d[i] as nat * 0x1000000 + d[i + 1] as nat * 0x10000 + d[i + 2] as nat * 0x100 + d[
        i + 3
    ] as nat
}

/// The chunk types the scanner tells apart.
#[derive(Clone, Copy, Debug, PartialEq, Eq, Structural)]
pub enum ChunkKind {
    /// `tEXt`: uncompressed text.
    Text,
    /// `zTXt`: compressed text.
    CompressedText,
    /// `IEND`: the last chunk.
    End,
    Other,
}

pub open spec fn kind_of(tag: Seq<u8>) -> ChunkKind {
    if tag == seq![0x74u8, 0x45u8, 0x58u8, 0x74u8] {
        ChunkKind::Text
    } else if tag == seq![0x7au8, 0x54u8, 0x58u8, 0x74u8] {
        ChunkKind::CompressedText
    } else if tag == seq![0x49u8, 0x45u8, 0x4eu8, 0x44u8] {
        ChunkKind::End
    } else {
        ChunkKind::Other
    }
}

/// Length, type, payload and CRC of the chunk at `pos` all lie within `d`.
pub open spec fn frame_fits(d: Seq<u8>, pos: int) -> bool {
    pos + 12 <= d.len() && be_u32_at(d, pos) <= d.len() - pos - 12
}

pub open spec fn tag_at(d: Seq<u8>, pos: int) -> Seq<u8> {
    d.subrange(pos + 4, pos + 8)
}

pub open spec fn payload_at(d: Seq<u8>, pos: int) -> Seq<u8> {
    d.subrange(pos + 8, pos + 8 + be_u32_at(d, pos))
}

/// Where the chunk at `pos` ends: its payload and twelve bytes of framing.
pub open spec fn chunk_end(d: Seq<u8>, pos: int) -> int {
    pos + 12 + be_u32_at(d, pos)
}

/// One chunk of a PNG stream. The CRC is skipped, not checked.
pub struct Chunk {
    pub kind: ChunkKind,
    pub payload: Vec<u8>,
    pub declared_length: u32,
    pub offset: usize,
}

/// Whether `d` begins with the PNG signature.
pub fn check_signature(d: &[u8]) -> (r: bool)
    ensures
        r == has_signature(d@),
{
    if d.len() < 8 {
        return false;
    }
    let r = d[0] == 0x89 && d[1] == 0x50 && d[2] == 0x4e && d[3] == 0x47 && d[4] == 0x0d && d[5]
        == 0x0a && d[6] == 0x1a && d[7] == 0x0a;
    proof {
        let s = d@.subrange(0, 8);
        if r {
            assert(s =~= png_signature());
        } else if s == png_signature() {
            assert(s[0] == 0x89u8 && s[1] == 0x50u8 && s[2] == 0x4eu8 && s[3] == 0x47u8);
            assert(s[4] == 0x0du8 && s[5] == 0x0au8 && s[6] == 0x1au8 && s[7] == 0x0au8);
        }
    }
    r
}

/// The big-endian `u32` in `d[i..i + 4]`.
pub fn read_be_u32(d: &[u8], i: usize) -> (r: u32)
    requires
        i + 4 <= d@.len(),
    ensures
        r == be_u32_at(d@, i as int),
{
    (d[i] as u32) * 0x1000000 + (d[i + 1] as u32) * 0x10000 + (d[i + 2] as u32) * 0x100 + (d[i
        + 3] as u32)
}

/// A copy of `d[lo..hi]`.
pub fn copy_range(d: &[u8], lo: usize, hi: usize) -> (r: Vec<u8>)
    requires
        lo <= hi <= d@.len(),
    ensures
        r@ == d@.subrange(lo as int, hi as int),
{
    let mut out: Vec<u8> = Vec::new();
    let mut k: usize = lo;
    while k < hi
        invariant
            lo <= k <= hi <= d@.len(),
            out@ == d@.subrange(lo as int, k as int),
        decreases hi - k,
    {
        out.push(d[k]);
        proof {
            assert(out@ =~= d@.subrange(lo as int, k + 1));
        }
        k = k + 1;
    }
    out
}

fn kind_at(d: &[u8], i: usize) -> (r: ChunkKind)
    requires
        i + 4 <= d@.len(),
    ensures
        r == kind_of(d@.subrange(i as int, i + 4)),
{
    let ghost tag = d@.subrange(i as int, i + 4);
    let (a, b, c, e) = (d[i], d[i + 1], d[i + 2], d[i + 3]);
    proof {
        assert(tag[0] == a && tag[1] == b && tag[2] == c && tag[3] == e);
        assert(tag =~= seq![a, b, c, e]);
    }
    if a == 0x74 && b == 0x45 && c == 0x58 && e == 0x74 {
        ChunkKind::Text
    } else if a == 0x7a && b == 0x54 && c == 0x58 && e == 0x74 {
        ChunkKind::CompressedText
    } else if a == 0x49 && b == 0x45 && c == 0x4e && e == 0x44 {
        ChunkKind::End
    } else {
        proof {
            assert(tag != seq![0x74u8, 0x45u8, 0x58u8, 0x74u8] ==> kind_of(tag) != ChunkKind::Text);
            if tag == seq![0x74u8, 0x45u8, 0x58u8, 0x74u8] {
                assert(tag[0] == 0x74u8 && tag[1] == 0x45u8 && tag[2] == 0x58u8 && tag[3] == 0x74u8);
            }
            if tag == seq![0x7au8, 0x54u8, 0x58u8, 0x74u8] {
                assert(tag[0] == 0x7au8 && tag[1] == 0x54u8 && tag[2] == 0x58u8 && tag[3] == 0x74u8);
            }
            if tag == seq![0x49u8, 0x45u8, 0x4eu8, 0x44u8] {
                assert(tag[0] == 0x49u8 && tag[1] == 0x45u8 && tag[2] == 0x4eu8 && tag[3] == 0x44u8);
            }
        }
        ChunkKind::Other
    }
}

/// Reads the chunk that starts at `pos`, or fails with `Truncated` when its frame runs
/// past the end of `d`.
pub fn read_chunk(d: &[u8], pos: usize) -> (r: Result<Chunk, FormatError>)
    ensures
        r is Ok <==> frame_fits(d@, pos as int),
        r is Err ==> r == Err::<Chunk, FormatError>(FormatError::Truncated),
        r is Ok ==> {
            let c = r->Ok_0;
            &&& c.kind == kind_of(tag_at(d@, pos as int))
            &&& c.payload@ == payload_at(d@, pos as int)
            &&& c.declared_length == be_u32_at(d@, pos as int)
            &&& c.offset == pos
        },
{
    if pos > d.len() || d.len() - pos < 12 {
        return Err(FormatError::Truncated);
    }
    let length = read_be_u32(d, pos);
    if length as usize > d.len() - pos - 12 {
        return Err(FormatError::Truncated);
    }
    let kind = kind_at(d, pos + 4);
    let start = pos + 8;
    let payload = copy_range(d, start, start + length as usize);
    Ok(Chunk { kind, payload, declared_length: length, offset: pos })
}

} // verus!
