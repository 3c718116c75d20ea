use vstd::prelude::*;

use crate::description::{
    description_of, description_source, parse_description, source_bytes, source_of,
    source_text_bytes, DescriptionSource, SourceModel,
};
use crate::model::{file_result_view, FormatError, IconFile, IconFileView};
use crate::png::{
    chunk_end, check_signature, frame_fits, has_signature, kind_of, payload_at, read_chunk, tag_at,
    ChunkKind,
};

verus! {

/// The description source of the first relevant chunk at or after `pos`. Scanning stops
/// at the end of the data or at the `IEND` chunk.
pub open spec fn scan(d: Seq<u8>, pos: int) -> Result<SourceModel, FormatError>
    decreases d.len() - pos,
{
    if pos < 0 || pos >= d.len() {
        Err(FormatError::NoDescriptionChunk)
    } else if !frame_fits(d, pos) {
        Err(FormatError::Truncated)
    } else if kind_of(tag_at(d, pos)) == ChunkKind::End {
        Err(FormatError::NoDescriptionChunk)
    } else {
        match source_of(kind_of(tag_at(d, pos)), payload_at(d, pos)) {
            Err(e) => Err(e),
            Ok(Some(s)) => Ok(s),
            Ok(None) => scan(d, chunk_end(d, pos)),
        }
    }
}

/// What the icon file `d` describes.
pub open spec fn icon_of(d: Seq<u8>) -> Result<IconFileView, FormatError> {
    if !has_signature(d) {
        Err(FormatError::BadSignature)
    } else {
        match scan(d, 8) {
            Err(e) => Err(e),
            Ok(s) => match source_bytes(s) {
                Err(e) => Err(e),
                Ok(b) => description_of(b),
            },
        }
    }
}

/// Walks the chunks from `pos` on, one at a time, to the first description chunk.
pub fn find_description(d: &[u8], pos: usize) -> (r: Result<DescriptionSource, FormatError>)
    ensures
        match r {
            Ok(s) => scan(d@, pos as int) == Ok::<SourceModel, FormatError>(s@),
            Err(e) => scan(d@, pos as int) == Err::<SourceModel, FormatError>(e),
        },
{
    let mut p: usize = pos;
    loop
        invariant
            scan(d@, p as int) == scan(d@, pos as int),
        decreases d@.len() - p,
    {
        if p >= d.len() {
            return Err(FormatError::NoDescriptionChunk);
        }
        let chunk = match read_chunk(d, p) {
            Ok(c) => c,
            Err(e) => return Err(e),
        };
        if chunk.kind == ChunkKind::End {
            return Err(FormatError::NoDescriptionChunk);
        }
        match description_source(&chunk) {
            Err(e) => return Err(e),
            Ok(Some(s)) => return Ok(s),
            Ok(None) => {},
        }
        p = p + 12 + chunk.declared_length as usize;
    }
}

/// Reads the animation metadata of an icon file: checks the PNG signature, finds the
/// description chunk, inflates it when compressed, and parses its text.
pub fn parse(d: &[u8]) -> (r: Result<IconFile, FormatError>)
    ensures
        file_result_view(r) == icon_of(d@),
{
    if !check_signature(d) {
        return Err(FormatError::BadSignature);
    }
    let source = match find_description(d, 8) {
        Ok(s) => s,
        Err(e) => return Err(e),
    };
    let bytes = match source_text_bytes(source) {
        Ok(b) => b,
        Err(e) => return Err(e),
    };
    parse_description(bytes)
}

impl IconFile {
    /// Reads the icon file held in `data`.
    pub fn new(data: Vec<u8>) -> (r: Result<IconFile, FormatError>)
        ensures
            file_result_view(r) == icon_of(data@),
    {
        parse(data.as_slice())
    }
}

} // verus!
