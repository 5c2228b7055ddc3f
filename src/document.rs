//! The whole output document for a sequence of walked entries.
use vstd::prelude::*;
use crate::entry::{classify, component_views, verdict_of, Verdict};
use crate::render::{append_bytes, header, header_spec, text_body, text_copy};
use crate::sniff::{is_binary, looks_binary};

verus! {

/// One entry of the walk, with what the document needs of it.
pub struct FileEntry {
    /// Whether the entry is a regular file.
    pub is_file: bool,
    /// The components of the entry's path relative to the root.
    pub components: Vec<Vec<u8>>,
    /// The path as shown in the separator header.
    pub display: Vec<u8>,
    /// The file's contents.
    pub content: Vec<u8>,
}

/// The verdict on an entry.
pub open spec fn entry_verdict(e: FileEntry) -> Verdict {
    verdict_of(e.is_file, component_views(e.components@))
}

/// Whether an entry contributes a block to the document: it is included,
/// and either binary files are wanted or its leading bytes are text.
pub open spec fn contributes(e: FileEntry, include_binary: bool) -> bool {
    entry_verdict(e) == Verdict::Include && (include_binary || !is_binary(e.content@))
}

/// The block of a contributing entry, and whether it was written whole:
/// the header, then the raw contents, or their text copy.
pub open spec fn block_spec(e: FileEntry, include_binary: bool) -> (Seq<u8>, bool) {
    if include_binary {
        (header_spec(e.display@) + e.content@, true)
    } else {
        let t = text_copy(e.content@);
        (header_spec(e.display@) + t.0, t.1)
    }
}

/// The document for `entries`, in their order, and whether the run
/// completed. A block that is cut short ends the run: nothing follows it.
pub open spec fn document_spec(entries: Seq<FileEntry>, include_binary: bool) -> (Seq<u8>, bool)
    decreases entries.len(),
{
    if entries.len() == 0 {
        (Seq::empty(), true)
    } else {
        let prev = document_spec(entries.drop_last(), include_binary);
        if !prev.1 || !contributes(entries.last(), include_binary) {
            prev
        } else {
            let b = block_spec(entries.last(), include_binary);
            (prev.0 + b.0, b.1)
        }
    }
}

/// Appends the block of one contributing entry to `out`; `false` when its
/// text copy was cut short.
fn append_block(out: &mut Vec<u8>, e: &FileEntry, include_binary: bool) -> (ok: bool)
    ensures
        (final(out)@, ok) == (old(out)@ + block_spec(*e, include_binary).0, block_spec(
            *e,
            include_binary,
        ).1),
{
    let h = header(e.display.as_slice());
    append_bytes(out, h.as_slice());
    if include_binary {
        append_bytes(out, e.content.as_slice());
        assert(final(out)@ =~= old(out)@ + block_spec(*e, include_binary).0);
        true
    } else {
        let ghost mid = out@;
        match text_body(e.content.as_slice()) {
            Ok(t) => {
                append_bytes(out, t.as_slice());
                assert(out@ =~= old(out)@ + block_spec(*e, include_binary).0);
                true
            },
            Err(t) => {
                append_bytes(out, t.as_slice());
                assert(out@ =~= old(out)@ + block_spec(*e, include_binary).0);
                false
            },
        }
    }
}

/// Flattens a sequence of walked entries into one document. `Err` carries
/// what was written before the run stopped at a file whose text could not
/// be decoded.
pub fn flatten(entries: &Vec<FileEntry>, include_binary: bool) -> (r: Result<Vec<u8>, Vec<u8>>)
    ensures
        match r {
            Ok(v) => document_spec(entries@, include_binary) == (v@, true),
            Err(v) => document_spec(entries@, include_binary) == (v@, false),
        },
{
    let mut out: Vec<u8> = Vec::new();
    let mut i: usize = 0;
    while i < entries.len()
        invariant
            0 <= i <= entries@.len(),
            document_spec(entries@.take(i as int), include_binary) == (out@, true),
        decreases entries@.len() - i,
    {
        let e = &entries[i];
        assert(entries@.take(i + 1).drop_last() =~= entries@.take(i as int));
        assert(entries@.take(i + 1).last() == *e);
        let verdict = classify(e.is_file, &e.components);
        if verdict == Verdict::Include && (include_binary || !looks_binary(e.content.as_slice())) {
            let ok = append_block(&mut out, e, include_binary);
            if !ok {
                proof {
                    lemma_stopped_run_stays(entries@, include_binary, i as int + 1);
                }
                assert(entries@.take(entries@.len() as int) =~= entries@);
                return Err(out);
            }
        }
        i = i + 1;
    }
    assert(entries@.take(i as int) =~= entries@);
    Ok(out)
}

/// Once a run has stopped, later entries change nothing.
pub proof fn lemma_stopped_run_stays(entries: Seq<FileEntry>, include_binary: bool, k: int)
    requires
        0 <= k <= entries.len(),
        !document_spec(entries.take(k), include_binary).1,
    ensures
        document_spec(entries, include_binary) == document_spec(entries.take(k), include_binary),
    decreases entries.len() - k,
{
    if k < entries.len() {
        assert(entries.take(k + 1).drop_last() =~= entries.take(k));
        lemma_stopped_run_stays(entries, include_binary, k + 1);
    } else {
        assert(entries.take(k) =~= entries);
    }
}

} // verus!
