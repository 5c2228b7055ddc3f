//! Properties of the document that hold for every sequence of entries.
use vstd::prelude::*;
use crate::document::{block_spec, contributes, document_spec, entry_verdict, FileEntry};
use crate::entry::{component_views, in_vcs_dir, names_ignore_file, Verdict};
use crate::render::header_spec;
use crate::sniff::is_binary;

verus! {

/// The regular files among `entries` that pass the sniff when binary files
/// are not wanted, in their order.
pub open spec fn sniffed_files(entries: Seq<FileEntry>, include_binary: bool) -> Seq<FileEntry> {
    entries.filter(|e: FileEntry| e.is_file && (include_binary || !is_binary(e.content@)))
}

/// The blocks of `files`, one after another.
pub open spec fn blocks_of(files: Seq<FileEntry>, include_binary: bool) -> Seq<u8>
    decreases files.len(),
{
    if files.len() == 0 {
        Seq::empty()
    } else {
        blocks_of(files.drop_last(), include_binary) + block_spec(files.last(), include_binary).0
    }
}

/// Two entries that no reading of the document can tell apart.
pub open spec fn same_entry(a: FileEntry, b: FileEntry) -> bool {
    &&& a.is_file == b.is_file
    &&& component_views(a.components@) == component_views(b.components@)
    &&& a.display@ == b.display@
    &&& a.content@ == b.content@
}

/// An entry that contributes no block can be dropped from the walk without
/// changing the document.
pub proof fn lemma_drop_silent_entry(entries: Seq<FileEntry>, include_binary: bool, i: int)
    requires
        0 <= i < entries.len(),
        !contributes(entries[i], include_binary),
    ensures
        document_spec(entries, include_binary) == document_spec(entries.remove(i), include_binary),
    decreases entries.len(),
{
    if i == entries.len() - 1 {
        assert(entries.remove(i) =~= entries.drop_last());
    } else {
        lemma_drop_silent_entry(entries.drop_last(), include_binary, i);
        assert(entries.remove(i).drop_last() =~= entries.drop_last().remove(i));
        assert(entries.remove(i).last() == entries.last());
    }
}

/// When no entry lies in a version-control metadata directory or is an
/// ignore-pattern file, and every text copy runs to the end, the document
/// holds exactly one block for each regular file that passes the sniff, in
/// the order of the walk, and nothing else.
pub proof fn law_every_file_once(entries: Seq<FileEntry>, include_binary: bool)
    requires
        forall|i: int|
            0 <= i < entries.len() ==> !in_vcs_dir(
                component_views(#[trigger] entries[i].components@),
            ),
        forall|i: int|
            0 <= i < entries.len() ==> !names_ignore_file(
                component_views(#[trigger] entries[i].components@),
            ),
        forall|i: int|
            0 <= i < entries.len() && contributes(#[trigger] entries[i], include_binary)
                ==> block_spec(entries[i], include_binary).1,
    ensures
        document_spec(entries, include_binary) == (
            blocks_of(sniffed_files(entries, include_binary), include_binary),
            true,
        ),
    decreases entries.len(),
{
    reveal(Seq::filter);
    if entries.len() > 0 {
        let prefix = entries.drop_last();
        assert forall|i: int| 0 <= i < prefix.len() implies prefix[i] == entries[i] by {}
        law_every_file_once(prefix, include_binary);
        let last = entries.last();
        assert(entries[entries.len() - 1] == last);
        let files = sniffed_files(entries, include_binary);
        if last.is_file && (include_binary || !is_binary(last.content@)) {
            assert(files.drop_last() == sniffed_files(prefix, include_binary));
            assert(files.last() == last);
        }
    }
}

/// An ignore-pattern file never contributes a block, whatever it holds.
pub proof fn law_ignore_file_never_shown(entries: Seq<FileEntry>, include_binary: bool, i: int)
    requires
        0 <= i < entries.len(),
        names_ignore_file(component_views(entries[i].components@)),
    ensures
        document_spec(entries, include_binary) == document_spec(entries.remove(i), include_binary),
{
    lemma_drop_silent_entry(entries, include_binary, i);
}

/// An entry with a path component naming the version-control metadata
/// directory never contributes a block, whatever the ignore-pattern files say.
pub proof fn law_vcs_dir_never_shown(entries: Seq<FileEntry>, include_binary: bool, i: int)
    requires
        0 <= i < entries.len(),
        in_vcs_dir(component_views(entries[i].components@)),
    ensures
        document_spec(entries, include_binary) == document_spec(entries.remove(i), include_binary),
{
    lemma_drop_silent_entry(entries, include_binary, i);
}

/// Without binary inclusion, a file whose leading bytes are not text
/// contributes no block.
pub proof fn law_binary_file_skipped(entries: Seq<FileEntry>, i: int)
    requires
        0 <= i < entries.len(),
        is_binary(entries[i].content@),
    ensures
        document_spec(entries, false) == document_spec(entries.remove(i), false),
{
    lemma_drop_silent_entry(entries, false, i);
}

/// With binary inclusion, an included file's block is its header followed by
/// its bytes exactly as they are.
pub proof fn law_binary_mode_copies_raw(e: FileEntry)
    requires
        entry_verdict(e) == Verdict::Include,
    ensures
        document_spec(seq![e], true) == (header_spec(e.display@) + e.content@, true),
{
    assert(seq![e].drop_last() =~= Seq::<FileEntry>::empty());
    assert(document_spec(seq![e].drop_last(), true) == (Seq::<u8>::empty(), true));
    assert(seq![e].last() == e);
    assert(Seq::<u8>::empty() + (header_spec(e.display@) + e.content@) =~= header_spec(e.display@)
        + e.content@);
}

/// Entries that agree in everything the document reads give the same
/// document: a run is determined by its inputs.
pub proof fn law_same_entries_same_document(
    a: Seq<FileEntry>,
    b: Seq<FileEntry>,
    include_binary: bool,
)
    requires
        a.len() == b.len(),
        forall|i: int| 0 <= i < a.len() ==> same_entry(#[trigger] a[i], b[i]),
    ensures
        document_spec(a, include_binary) == document_spec(b, include_binary),
    decreases a.len(),
{
    if a.len() > 0 {
        let (pa, pb) = (a.drop_last(), b.drop_last());
        assert forall|i: int| 0 <= i < pa.len() implies same_entry(#[trigger] pa[i], pb[i]) by {
            assert(same_entry(a[i], b[i]));
        }
        law_same_entries_same_document(pa, pb, include_binary);
        assert(same_entry(a[a.len() - 1], b[b.len() - 1]));
    }
}

} // verus!
