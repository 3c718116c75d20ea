use vstd::prelude::*;

use crate::description::{
    description_keyword, find_zero, keyword_window, SourceModel,
};
use crate::grammar::{apply_field, default_state, run, step, Key, MetaModel};
use crate::text::{find_char, lemma_find_char};
use crate::icon::{icon_of, scan};
use crate::model::FormatError;
use crate::png::{chunk_end, frame_fits, has_signature, kind_of, payload_at, tag_at, ChunkKind};

verus! {

/// A text chunk with payload `p` carries a keyword terminator within the keyword window,
/// and its keyword is not `Description`.
pub open spec fn keyed_otherwise(p: Seq<u8>) -> bool {
    let k = find_zero(p, 0, keyword_window(p));
    k < keyword_window(p) && p.subrange(0, k) != description_keyword()
}

/// From `pos` on, every chunk up to the end of the data or the `IEND` chunk is whole,
/// and every text chunk among them is keyed otherwise than `Description`.
pub open spec fn chunks_without_description(d: Seq<u8>, pos: int) -> bool
    decreases d.len() - pos,
{
    if pos < 0 || pos >= d.len() {
        true
    } else {
        let kind = kind_of(tag_at(d, pos));
        &&& frame_fits(d, pos)
        &&& (kind != ChunkKind::End ==> {
            &&& (kind == ChunkKind::Text || kind == ChunkKind::CompressedText ==> keyed_otherwise(
                payload_at(d, pos),
            ))
            &&& chunks_without_description(d, chunk_end(d, pos))
        })
    }
}

proof fn lemma_scan_without_description(d: Seq<u8>, pos: int)
    requires
        chunks_without_description(d, pos),
    ensures
        scan(d, pos) == Err::<SourceModel, FormatError>(
            FormatError::NoDescriptionChunk,
        ),
    decreases d.len() - pos,
{
    if 0 <= pos < d.len() && kind_of(tag_at(d, pos)) != ChunkKind::End {
        lemma_scan_without_description(d, chunk_end(d, pos));
    }
}

/// A PNG file whose chunks are whole and hold no text chunk keyed `Description` is
/// refused with `NoDescriptionChunk`.
pub proof fn lemma_no_description_chunk(d: Seq<u8>)
    requires
        has_signature(d),
        chunks_without_description(d, 8),
    ensures
        icon_of(d) == Err::<crate::model::IconFileView, FormatError>(
            FormatError::NoDescriptionChunk,
        ),
{
    lemma_scan_without_description(d, 8);
}

/// Data that does not begin with the PNG signature is refused with `BadSignature`,
/// whatever follows.
pub proof fn lemma_bad_signature(d: Seq<u8>)
    requires
        !has_signature(d),
    ensures
        icon_of(d) == Err::<crate::model::IconFileView, FormatError>(FormatError::BadSignature),
{
}

/// A whole text chunk keyed otherwise than `Description` is passed over: scanning goes on
/// at the chunk after it.
pub proof fn lemma_other_keyword_skipped(d: Seq<u8>, pos: int)
    requires
        0 <= pos < d.len(),
        frame_fits(d, pos),
        kind_of(tag_at(d, pos)) == ChunkKind::Text || kind_of(tag_at(d, pos))
            == ChunkKind::CompressedText,
        keyed_otherwise(payload_at(d, pos)),
    ensures
        scan(d, pos) == scan(d, chunk_end(d, pos)),
{
}

/// A `state` line begins a new record with default fields even when the record being
/// read has the same name: that record is kept, after those before it.
pub proof fn lemma_state_line_keeps_namesakes(
    st: MetaModel,
    t: Seq<char>,
    va: int,
    vb: int,
    n: usize,
)
    requires
        0 <= va,
        va + 2 <= vb <= t.len(),
        t[va] == '"',
        t[vb - 1] == '"',
        st.current is Some,
        st.current->Some_0.name == t.subrange(va + 1, vb - 1),
    ensures
        apply_field(st, Key::State, t, va, vb, n) is Ok,
        ({
            let after = apply_field(st, Key::State, t, va, vb, n)->Ok_0;
            &&& after.done == st.done.push(st.current->Some_0)
            &&& after.current == Some(default_state(t.subrange(va + 1, vb - 1)))
            &&& after.done.last().name == after.current->Some_0.name
        }),
{
    assert(st.done + seq![st.current->Some_0] =~= st.done.push(st.current->Some_0));
}

proof fn lemma_step_keeps_finished(st: MetaModel, t: Seq<char>, lo: int, hi: int, n: usize)
    ensures
        step(st, t, lo, hi, n) is Ok ==> st.done.is_prefix_of(step(st, t, lo, hi, n)->Ok_0.done),
{
    if step(st, t, lo, hi, n) is Ok {
        let after = step(st, t, lo, hi, n)->Ok_0;
        assert(after.done.subrange(0, st.done.len() as int) =~= st.done);
    }
}

/// Reading lines only appends finished records: every record finished before is kept,
/// at its place, whatever names the records after it carry.
pub proof fn lemma_lines_keep_finished_records(st: MetaModel, t: Seq<char>, pos: int, n: nat)
    ensures
        run(st, t, pos, n) is Ok ==> st.done.is_prefix_of(run(st, t, pos, n)->Ok_0.done),
    decreases t.len() - pos,
{
    if 0 <= pos < t.len() {
        let e = find_char(t, pos, t.len() as int, '\n');
        lemma_find_char(t, pos, t.len() as int, '\n');
        lemma_step_keeps_finished(st, t, pos, e, (n + 1) as usize);
        if step(st, t, pos, e, (n + 1) as usize) is Ok {
            let s2 = step(st, t, pos, e, (n + 1) as usize)->Ok_0;
            let next = if e < t.len() {
                e + 1
            } else {
                t.len() as int
            };
            lemma_lines_keep_finished_records(s2, t, next, n + 1);
            if run(s2, t, next, n + 1) is Ok {
                let fin = run(s2, t, next, n + 1)->Ok_0;
                assert(fin.done.subrange(0, st.done.len() as int) =~= s2.done.subrange(
                    0,
                    st.done.len() as int,
                ));
            }
        }
    }
}

} // verus!
