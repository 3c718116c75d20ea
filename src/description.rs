use vstd::prelude::*;
use vstd::utf8::{decode_utf8, valid_utf8};

use crate::grammar::{metadata_of, parse_metadata};
use crate::model::{file_result_view, FormatError, IconFile, IconFileView};
use crate::outside::{inflate_zlib, utf8_string, zlib_inflated, InflateFailure};
use crate::png::{Chunk, ChunkKind};

verus! {

/// The most bytes a compressed description may inflate to.
pub const DESCRIPTION_LIMIT: usize = 64 * 1024 * 1024;

/// The keyword that marks the description chunk: `Description`.
pub open spec fn description_keyword() -> Seq<u8> {
    seq![0x44u8, 0x65u8, 0x73u8, 0x63u8, 0x72u8, 0x69u8, 0x70u8, 0x74u8, 0x69u8, 0x6fu8, 0x6eu8]
}

/// Where the description text of a text chunk comes from.
pub enum DescriptionSource {
    Raw(Vec<u8>),
    Compressed { keyword: Vec<u8>, method: u8, data: Vec<u8> },
}

pub ghost enum SourceModel {
    Raw(Seq<u8>),
    Compressed { keyword: Seq<u8>, method: u8, data: Seq<u8> },
}

impl View for DescriptionSource {
    type V = SourceModel;

    open spec fn view(&self) -> SourceModel {
        match self {
            DescriptionSource::Raw(b) => SourceModel::Raw(b@),
            DescriptionSource::Compressed { keyword, method, data } => SourceModel::Compressed {
                keyword: keyword@,
                method: *method,
                data: data@,
            },
        }
    }
}

/// The length of the keyword window: a keyword and its terminator fit in 79 bytes.
pub open spec fn keyword_window(p: Seq<u8>) -> int {
    if p.len() < 79 {
        p.len() as int
    } else {
        79
    }
}

/// First index in `[i, hi)` that holds a zero byte, or `hi`.
pub open spec fn find_zero(p: Seq<u8>, i: int, hi: int) -> int
    decreases hi - i,
{
    if i >= hi {
        hi
    } else if p[i] == 0 {
        i
    } else {
        find_zero(p, i + 1, hi)
    }
}

/// What a chunk of kind `kind` with payload `p` contributes: nothing, unless it is a
/// text chunk whose keyword is `Description`.
pub open spec fn source_of(kind: ChunkKind, p: Seq<u8>) -> Result<Option<SourceModel>, FormatError> {
    let w = keyword_window(p);
    let k = find_zero(p, 0, w);
    if kind != ChunkKind::Text && kind != ChunkKind::CompressedText {
        Ok(None)
    } else if k == w {
        Err(FormatError::MissingKeywordTerminator)
    } else if p.subrange(0, k) != description_keyword() {
        Ok(None)
    } else if kind == ChunkKind::Text {
        Ok(Some(SourceModel::Raw(p.subrange(k + 1, p.len() as int))))
    } else if k + 1 >= p.len() {
        Err(FormatError::Truncated)
    } else if p[k + 1] != 0 {
        Err(FormatError::UnsupportedCompression)
    } else {
        Ok(
            Some(
                SourceModel::Compressed {
                    keyword: p.subrange(0, k),
                    method: 0,
                    data: p.subrange(k + 2, p.len() as int),
                },
            ),
        )
    }
}

/// The bytes of the description that `s` holds.
pub open spec fn source_bytes(s: SourceModel) -> Result<Seq<u8>, FormatError> {
    match s {
        SourceModel::Raw(b) => Ok(b),
        SourceModel::Compressed { data, .. } => match zlib_inflated(
            data,
            DESCRIPTION_LIMIT as nat,
        ) {
            Ok(v) => Ok(v),
            Err(true) => Err(FormatError::DescriptionTooLarge),
            Err(false) => Err(FormatError::DecompressionFailed),
        },
    }
}

/// What the description bytes `b` describe, once read as UTF-8.
pub open spec fn description_of(b: Seq<u8>) -> Result<IconFileView, FormatError> {
    if valid_utf8(b) {
        metadata_of(decode_utf8(b))
    } else {
        Err(FormatError::InvalidText)
    }
}

pub open spec fn source_result_view(r: Result<Option<DescriptionSource>, FormatError>) -> Result<
    Option<SourceModel>,
    FormatError,
> {
    match r {
        Ok(Some(s)) => Ok(Some(s@)),
        Ok(None) => Ok(None),
        Err(e) => Err(e),
    }
}

proof fn lemma_find_zero(p: Seq<u8>, i: int, hi: int)
    requires
        0 <= i <= hi <= p.len(),
    ensures
        i <= find_zero(p, i, hi) <= hi,
        find_zero(p, i, hi) < hi ==> p[find_zero(p, i, hi)] == 0,
    decreases hi - i,
{
    if i < hi && p[i] != 0 {
        lemma_find_zero(p, i + 1, hi);
    }
}

fn find_zero_exec(p: &[u8], hi: usize) -> (r: usize)
    requires
        hi <= p@.len(),
    ensures
        r == find_zero(p@, 0, hi as int),
        r <= hi,
{
    let mut k: usize = 0;
    while k < hi && p[k] != 0
        invariant
            k <= hi <= p@.len(),
            find_zero(p@, k as int, hi as int) == find_zero(p@, 0, hi as int),
        decreases hi - k,
    {
        k = k + 1;
    }
    k
}

fn is_description_keyword(p: &[u8], k: usize) -> (r: bool)
    requires
        k <= p@.len(),
    ensures
        r == (p@.subrange(0, k as int) == description_keyword()),
{
    let word: [u8; 11] = [0x44, 0x65, 0x73, 0x63, 0x72, 0x69, 0x70, 0x74, 0x69, 0x6f, 0x6e];
    proof {
        assert(word@ =~= description_keyword());
    }
    if k != 11 {
        proof {
            assert(p@.subrange(0, k as int).len() != description_keyword().len());
        }
        return false;
    }
    let mut i: usize = 0;
    while i < 11
        invariant
            k == 11 <= p@.len(),
            i <= 11,
            word@ == description_keyword(),
            forall|j: int| 0 <= j < i ==> p@[j] == word@[j],
        decreases 11 - i,
    {
        if p[i] != word[i] {
            proof {
                assert(p@.subrange(0, k as int)[i as int] != description_keyword()[i as int]);
            }
            return false;
        }
        i = i + 1;
    }
    proof {
        assert(p@.subrange(0, k as int) =~= description_keyword());
    }
    true
}

/// Finds the description source in a chunk: `None` for any chunk that is not a text
/// chunk keyed `Description`.
pub fn description_source(chunk: &Chunk) -> (r: Result<Option<DescriptionSource>, FormatError>)
    ensures
        source_result_view(r) == source_of(chunk.kind, chunk.payload@),
{
    let kind = chunk.kind;
    if kind != ChunkKind::Text && kind != ChunkKind::CompressedText {
        return Ok(None);
    }
    let p = chunk.payload.as_slice();
    let w: usize = if p.len() < 79 {
        p.len()
    } else {
        79
    };
    let k = find_zero_exec(p, w);
    if k == w {
        return Err(FormatError::MissingKeywordTerminator);
    }
    proof {
        lemma_find_zero(p@, 0, w as int);
    }
    if !is_description_keyword(p, k) {
        return Ok(None);
    }
    let len = p.len();
    if kind == ChunkKind::Text {
        let text = crate::png::copy_range(p, k + 1, len);
        return Ok(Some(DescriptionSource::Raw(text)));
    }
    if k + 1 >= len {
        return Err(FormatError::Truncated);
    }
    let method = p[k + 1];
    if method != 0 {
        return Err(FormatError::UnsupportedCompression);
    }
    let keyword = crate::png::copy_range(p, 0, k);
    let data = crate::png::copy_range(p, k + 2, len);
    Ok(Some(DescriptionSource::Compressed { keyword, method, data }))
}

/// The description bytes a source holds, inflated where it is compressed.
pub fn source_text_bytes(s: DescriptionSource) -> (r: Result<Vec<u8>, FormatError>)
    ensures
        match r {
            Ok(v) => source_bytes(s@) == Ok::<Seq<u8>, FormatError>(v@),
            Err(e) => source_bytes(s@) == Err::<Seq<u8>, FormatError>(e),
        },
{
    match s {
        DescriptionSource::Raw(b) => Ok(b),
        DescriptionSource::Compressed { data, .. } => {
            match inflate_zlib(data.as_slice(), DESCRIPTION_LIMIT) {
                Ok(v) => Ok(v),
                Err(InflateFailure::LimitReached) => Err(FormatError::DescriptionTooLarge),
                Err(InflateFailure::Corrupt) => Err(FormatError::DecompressionFailed),
            }
        },
    }
}

/// Reads description bytes as UTF-8 text and parses what they describe.
pub fn parse_description(b: Vec<u8>) -> (r: Result<IconFile, FormatError>)
    ensures
        file_result_view(r) == description_of(b@),
{
    match utf8_string(b) {
        Some(text) => parse_metadata(text.as_str()),
        None => Err(FormatError::InvalidText),
    }
}

} // verus!
