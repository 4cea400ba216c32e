//! Removing content for good: which files go with a digest, and what the
//! content records count afterwards.

use vstd::prelude::*;
use crate::blob::BlobView;
use crate::store::count_refs;
use crate::store::entry_wf;
use crate::store::files_distinct;
use crate::store::has_blob;
use crate::store::store_wf;
use crate::store::total_refs;
use crate::store::EntryView;
use crate::store::StoreState;

verus! {

/// Whether some revision of the file points to the digest.
pub open spec fn points_to(entry: EntryView, hash: Seq<u8>) -> bool {
    count_refs(entry.revisions, hash) > 0
}

/// The files of which no revision points to the digest, in their order.
pub open spec fn files_without(files: Seq<EntryView>, hash: Seq<u8>) -> Seq<EntryView>
    decreases files.len(),
{
    if files.len() == 0 {
        Seq::empty()
    } else if points_to(files.last(), hash) {
        files_without(files.drop_last(), hash)
    } else {
        files_without(files.drop_last(), hash).push(files.last())
    }
}

/// The identifiers of the files of which some revision points to the
/// digest, in the files' order.
pub open spec fn ids_with(files: Seq<EntryView>, hash: Seq<u8>) -> Seq<Seq<char>>
    decreases files.len(),
{
    if files.len() == 0 {
        Seq::empty()
    } else if points_to(files.last(), hash) {
        ids_with(files.drop_last(), hash).push(files.last().file.file_id)
    } else {
        ids_with(files.drop_last(), hash)
    }
}

/// The content records counted anew against `files`: each record counts
/// the revisions of `files` that point to its digest, and a record that no
/// revision points to is left out.
pub open spec fn recounted(blobs: Seq<BlobView>, files: Seq<EntryView>) -> Seq<BlobView>
    decreases blobs.len(),
{
    if blobs.len() == 0 {
        Seq::empty()
    } else if total_refs(files, blobs.last().hash) == 0 {
        recounted(blobs.drop_last(), files)
    } else {
        recounted(blobs.drop_last(), files).push(
            BlobView { references: total_refs(files, blobs.last().hash), ..blobs.last() },
        )
    }
}

/// The digests of the content records that no revision of `files` points
/// to, in the records' order.
pub open spec fn unreferenced(blobs: Seq<BlobView>, files: Seq<EntryView>) -> Seq<Seq<u8>>
    decreases blobs.len(),
{
    if blobs.len() == 0 {
        Seq::empty()
    } else if total_refs(files, blobs.last().hash) == 0 {
        unreferenced(blobs.drop_last(), files).push(blobs.last().hash)
    } else {
        unreferenced(blobs.drop_last(), files)
    }
}

/// The store after every file that points to the digest is removed with
/// its chain, and the content records are counted anew.
pub open spec fn purged(s: StoreState, hash: Seq<u8>) -> StoreState {
    StoreState {
        files: files_without(s.files, hash),
        blobs: recounted(s.blobs, files_without(s.files, hash)),
    }
}

/// Every file that stays was there before, and none that stays points to
/// the digest.
pub proof fn lemma_files_without_members(files: Seq<EntryView>, hash: Seq<u8>, i: int)
    requires
        0 <= i < files_without(files, hash).len(),
    ensures
        files.contains(files_without(files, hash)[i]),
        !points_to(files_without(files, hash)[i], hash),
    decreases files.len(),
{
    let kept = files_without(files, hash);
    if files.len() > 0 {
        let rest = files_without(files.drop_last(), hash);
        if i < rest.len() {
            lemma_files_without_members(files.drop_last(), hash, i);
            let j = choose|j: int|
                0 <= j < files.drop_last().len() && files.drop_last()[j] == rest[i];
            assert(files[j] == kept[i]);
        } else {
            assert(kept[i] == files[files.len() - 1]);
        }
    }
}

/// A file that does not point to the digest stays.
pub proof fn lemma_files_without_keeps(files: Seq<EntryView>, hash: Seq<u8>, j: int)
    requires
        0 <= j < files.len(),
        !points_to(files[j], hash),
    ensures
        files_without(files, hash).contains(files[j]),
    decreases files.len(),
{
    let kept = files_without(files, hash);
    let rest = files_without(files.drop_last(), hash);
    if j < files.len() - 1 {
        lemma_files_without_keeps(files.drop_last(), hash, j);
        let i = choose|i: int| 0 <= i < rest.len() && rest[i] == files.drop_last()[j];
        assert(kept[i] == files[j]);
    } else {
        assert(kept[rest.len() as int] == files[j]);
    }
}

/// Removing files leaves files that differ in their identifiers, and the
/// live ones of one container in their names, as they did before.
pub proof fn lemma_files_without_distinct(files: Seq<EntryView>, hash: Seq<u8>)
    requires
        files_distinct(files),
    ensures
        files_distinct(files_without(files, hash)),
    decreases files.len(),
{
    let kept = files_without(files, hash);
    if files.len() > 0 {
        let shorter = files.drop_last();
        let rest = files_without(shorter, hash);
        assert(files_distinct(shorter)) by {
            assert forall|i: int| 0 <= i < shorter.len() implies #[trigger] shorter[i] == files[i] by {}
        }
        lemma_files_without_distinct(shorter, hash);
        if !points_to(files.last(), hash) {
            let last = files.len() - 1;
            assert forall|i: int| 0 <= i < rest.len() implies (#[trigger] rest[i]).file.file_id
                != files[last].file.file_id && !(crate::store::is_live(rest[i])
                && crate::store::is_live(files[last]) && rest[i].file.page_id
                == files[last].file.page_id && rest[i].file.name == files[last].file.name) by {
                lemma_files_without_members(shorter, hash, i);
                let j = choose|j: int| 0 <= j < shorter.len() && shorter[j] == rest[i];
                assert(files[j] == rest[i]);
            }
            assert forall|i: int| 0 <= i < rest.len() implies #[trigger] kept[i] == rest[i] by {}
        }
    }
}

/// Removing files raises no total, and brings that of the digest to zero.
pub proof fn lemma_files_without_totals(files: Seq<EntryView>, hash: Seq<u8>, other: Seq<u8>)
    ensures
        total_refs(files_without(files, hash), other) <= total_refs(files, other),
        total_refs(files_without(files, hash), hash) == 0,
    decreases files.len(),
{
    if files.len() > 0 {
        lemma_files_without_totals(files.drop_last(), hash, other);
        if !points_to(files.last(), hash) {
            let rest = files_without(files.drop_last(), hash);
            assert(rest.push(files.last()).drop_last() =~= rest);
        }
    }
}

/// Every record that stays was there before with the same digest, and
/// counts what `files` hold for it, which is not zero.
pub proof fn lemma_recounted_members(blobs: Seq<BlobView>, files: Seq<EntryView>, k: int)
    requires
        0 <= k < recounted(blobs, files).len(),
    ensures
        has_blob(blobs, recounted(blobs, files)[k].hash),
        recounted(blobs, files)[k].references == total_refs(files, recounted(blobs, files)[k].hash),
        recounted(blobs, files)[k].references >= 1,
    decreases blobs.len(),
{
    let after = recounted(blobs, files);
    if blobs.len() > 0 {
        let rest = recounted(blobs.drop_last(), files);
        if k < rest.len() {
            lemma_recounted_members(blobs.drop_last(), files, k);
            let l = choose|l: int|
                0 <= l < blobs.drop_last().len() && (#[trigger] blobs.drop_last()[l]).hash
                    == rest[k].hash;
            assert(blobs[l].hash == after[k].hash);
        } else {
            assert(blobs[blobs.len() - 1].hash == after[k].hash);
        }
    }
}

/// A record whose digest `files` still point to stays.
pub proof fn lemma_recounted_keeps(blobs: Seq<BlobView>, files: Seq<EntryView>, l: int)
    requires
        0 <= l < blobs.len(),
        total_refs(files, blobs[l].hash) > 0,
    ensures
        has_blob(recounted(blobs, files), blobs[l].hash),
    decreases blobs.len(),
{
    let after = recounted(blobs, files);
    let rest = recounted(blobs.drop_last(), files);
    if l < blobs.len() - 1 {
        lemma_recounted_keeps(blobs.drop_last(), files, l);
        let k = choose|k: int| 0 <= k < rest.len() && (#[trigger] rest[k]).hash == blobs[l].hash;
        if total_refs(files, blobs.last().hash) == 0 {
            assert(after[k].hash == blobs[l].hash);
        } else {
            assert(after[k] == rest[k]);
        }
    } else {
        assert(after[rest.len() as int].hash == blobs[l].hash);
    }
}

/// Records with different digests keep different digests.
pub proof fn lemma_recounted_distinct(blobs: Seq<BlobView>, files: Seq<EntryView>)
    requires
        forall|k: int, l: int|
            0 <= k < blobs.len() && 0 <= l < blobs.len() && k != l ==> (#[trigger] blobs[k]).hash != (
            #[trigger] blobs[l]).hash,
    ensures
        forall|k: int, l: int|
            0 <= k < recounted(blobs, files).len() && 0 <= l < recounted(blobs, files).len() && k
                != l ==> (#[trigger] recounted(blobs, files)[k]).hash != (#[trigger] recounted(
                blobs,
                files,
            )[l]).hash,
    decreases blobs.len(),
{
    let after = recounted(blobs, files);
    if blobs.len() > 0 {
        let shorter = blobs.drop_last();
        let rest = recounted(shorter, files);
        assert forall|k: int| 0 <= k < shorter.len() implies #[trigger] shorter[k] == blobs[k] by {}
        lemma_recounted_distinct(shorter, files);
        if total_refs(files, blobs.last().hash) > 0 {
            let last = blobs.len() - 1;
            assert forall|k: int| 0 <= k < rest.len() implies (#[trigger] rest[k]).hash
                != blobs[last].hash by {
                lemma_recounted_members(shorter, files, k);
                let l = choose|l: int|
                    0 <= l < shorter.len() && (#[trigger] shorter[l]).hash == rest[k].hash;
                assert(blobs[l].hash == rest[k].hash);
            }
            assert forall|k: int| 0 <= k < rest.len() implies #[trigger] after[k] == rest[k] by {}
        }
    }
}

/// Removing every file that points to a digest, and counting the content
/// records anew, keeps the store valid.
pub proof fn lemma_purged_wf(s: StoreState, hash: Seq<u8>)
    requires
        store_wf(s),
    ensures
        store_wf(purged(s, hash)),
{
    let after = purged(s, hash);
    assert forall|i: int| 0 <= i < after.files.len() implies entry_wf(#[trigger] after.files[i]) by {
        lemma_files_without_members(s.files, hash, i);
        let j = choose|j: int| 0 <= j < s.files.len() && s.files[j] == after.files[i];
        assert(entry_wf(s.files[j]));
    }
    lemma_files_without_distinct(s.files, hash);
    lemma_recounted_distinct(s.blobs, after.files);
    assert forall|k: int| 0 <= k < after.blobs.len() implies (#[trigger] after.blobs[k]).references
        == total_refs(after.files, after.blobs[k].hash) && after.blobs[k].references >= 1 by {
        lemma_recounted_members(s.blobs, after.files, k);
    }
    assert forall|other: Seq<u8>| total_refs(after.files, other) > 0 implies #[trigger] has_blob(
        after.blobs,
        other,
    ) by {
        lemma_files_without_totals(s.files, hash, other);
        assert(has_blob(s.blobs, other));
        let l = crate::store::blob_index(s.blobs, other);
        lemma_recounted_keeps(s.blobs, after.files, l);
    }
}

/// A digest that is reported as unreferenced is one that no revision of
/// `files` points to, and that had a record.
pub proof fn lemma_unreferenced_members(blobs: Seq<BlobView>, files: Seq<EntryView>, k: int)
    requires
        0 <= k < unreferenced(blobs, files).len(),
    ensures
        total_refs(files, unreferenced(blobs, files)[k]) == 0,
        has_blob(blobs, unreferenced(blobs, files)[k]),
    decreases blobs.len(),
{
    let listed = unreferenced(blobs, files);
    if blobs.len() > 0 {
        let rest = unreferenced(blobs.drop_last(), files);
        if k < rest.len() {
            lemma_unreferenced_members(blobs.drop_last(), files, k);
            let l = choose|l: int|
                0 <= l < blobs.drop_last().len() && (#[trigger] blobs.drop_last()[l]).hash
                    == rest[k];
            assert(blobs[l].hash == listed[k]);
        } else {
            assert(blobs[blobs.len() - 1].hash == listed[k]);
        }
    }
}

} // verus!
