//! The store: every file with its chain of revisions, and the content
//! records with their reference counts.

use vstd::prelude::*;
use crate::blob::BlobModel;
use crate::blob::BlobView;
use crate::blob::same_bytes;
use crate::file::FileModel;
use crate::purge::files_without;
use crate::purge::ids_with;
use crate::purge::lemma_files_without_totals;
use crate::purge::lemma_purged_wf;
use crate::purge::points_to;
use crate::purge::purged;
use crate::purge::recounted;
use crate::purge::unreferenced;
use crate::file::FileView;
use crate::revision::chain_wf;
use crate::revision::follows;
use crate::revision::lemma_chain_push;
use crate::revision::FileRevision;
use crate::revision::RevisionKind;
use crate::revision::RevisionView;
use crate::text::same_text;

verus! {

/// A file with its history, oldest revision first.
pub struct EntryView {
    pub file: FileView,
    pub revisions: Seq<RevisionView>,
}

/// Mathematical value of a [`FileStore`].
pub struct StoreState {
    pub files: Seq<EntryView>,
    pub blobs: Seq<BlobView>,
}

/// Whether the file is not deleted.
pub open spec fn is_live(entry: EntryView) -> bool {
    entry.file.deleted_at is None
}

/// Whether some file has the identifier.
pub open spec fn has_file(files: Seq<EntryView>, file_id: Seq<char>) -> bool {
    exists|i: int| 0 <= i < files.len() && (#[trigger] files[i]).file.file_id == file_id
}

/// The position of the file with the identifier, where there is one.
pub open spec fn file_index(files: Seq<EntryView>, file_id: Seq<char>) -> int {
    choose|i: int| 0 <= i < files.len() && (#[trigger] files[i]).file.file_id == file_id
}

/// Whether a live file of the container has the name.
pub open spec fn name_taken(files: Seq<EntryView>, page_id: i64, name: Seq<char>) -> bool {
    exists|i: int|
        0 <= i < files.len() && is_live(#[trigger] files[i]) && files[i].file.page_id == page_id
            && files[i].file.name == name
}

/// Whether a content record has the digest.
pub open spec fn has_blob(blobs: Seq<BlobView>, hash: Seq<u8>) -> bool {
    exists|k: int| 0 <= k < blobs.len() && (#[trigger] blobs[k]).hash == hash
}

/// The position of the content record with the digest, where there is one.
pub open spec fn blob_index(blobs: Seq<BlobView>, hash: Seq<u8>) -> int {
    choose|k: int| 0 <= k < blobs.len() && (#[trigger] blobs[k]).hash == hash
}

/// How many revisions of a chain point to the digest.
pub open spec fn count_refs(chain: Seq<RevisionView>, hash: Seq<u8>) -> nat
    decreases chain.len(),
{
    if chain.len() == 0 {
        0
    } else {
        count_refs(chain.drop_last(), hash) + if chain.last().s3_hash == hash {
            1nat
        } else {
            0nat
        }
    }
}

/// How many revisions of all files point to the digest.
pub open spec fn total_refs(files: Seq<EntryView>, hash: Seq<u8>) -> nat
    decreases files.len(),
{
    if files.len() == 0 {
        0
    } else {
        total_refs(files.drop_last(), hash) + count_refs(files.last().revisions, hash)
    }
}

/// Whether a file and its chain agree: the chain has the shape of a history
/// of this file, the file's name and container are those of its latest
/// revision, and the file is marked deleted exactly when that revision is
/// a tombstone.
pub open spec fn entry_wf(entry: EntryView) -> bool {
    &&& chain_wf(entry.revisions)
    &&& entry.revisions[0].file_id == entry.file.file_id
    &&& entry.file.name == entry.revisions.last().name
    &&& entry.file.page_id == entry.revisions.last().page_id
    &&& (entry.file.deleted_at is Some <==> entry.revisions.last().kind == RevisionKind::Tombstone)
}

/// Whether no two files share an identifier, and no two live files of one
/// container share a name.
pub open spec fn files_distinct(files: Seq<EntryView>) -> bool {
    &&& forall|i: int, j: int|
        0 <= i < files.len() && 0 <= j < files.len() && i != j ==> (#[trigger] files[i]).file.file_id
            != (#[trigger] files[j]).file.file_id
    &&& forall|i: int, j: int|
        0 <= i < files.len() && 0 <= j < files.len() && i != j && is_live(#[trigger] files[i])
            && is_live(#[trigger] files[j]) && files[i].file.page_id == files[j].file.page_id
            ==> files[i].file.name != files[j].file.name
}

/// Whether the content records account for the revisions: one record per
/// digest, each counting the revisions that point to its digest, none with
/// a count of zero, and a record for every digest that a revision points to.
pub open spec fn blobs_wf(files: Seq<EntryView>, blobs: Seq<BlobView>) -> bool {
    &&& forall|k: int, l: int|
        0 <= k < blobs.len() && 0 <= l < blobs.len() && k != l ==> (#[trigger] blobs[k]).hash != (
        #[trigger] blobs[l]).hash
    &&& forall|k: int|
        0 <= k < blobs.len() ==> (#[trigger] blobs[k]).references == total_refs(files, blobs[k].hash)
            && blobs[k].references >= 1
    &&& forall|hash: Seq<u8>| total_refs(files, hash) > 0 ==> #[trigger] has_blob(blobs, hash)
}

/// The invariant of the store.
pub open spec fn store_wf(s: StoreState) -> bool {
    &&& forall|i: int| 0 <= i < s.files.len() ==> entry_wf(#[trigger] s.files[i])
    &&& files_distinct(s.files)
    &&& blobs_wf(s.files, s.blobs)
}

/// The content records after one more revision points to `hash`: the
/// record of that digest counts one more, or, where there was none, a new
/// record with a count of one is added.
pub open spec fn add_reference(
    blobs: Seq<BlobView>,
    hash: Seq<u8>,
    mime: Seq<char>,
    size: i64,
    now: i64,
) -> Seq<BlobView> {
    if has_blob(blobs, hash) {
        let k = blob_index(blobs, hash);
        blobs.update(k, BlobView { references: blobs[k].references + 1, ..blobs[k] })
    } else {
        blobs.push(BlobView { hash, mime, size, created_at: now, references: 1 })
    }
}

/// The store after a new file with its first revision is added.
pub open spec fn inserted(s: StoreState, file: FileView, first: RevisionView) -> StoreState {
    StoreState {
        files: s.files.push(EntryView { file, revisions: seq![first] }),
        blobs: add_reference(s.blobs, first.s3_hash, first.mime_hint, first.size_hint, first.created_at),
    }
}

/// The store after the file at position `k` takes the state `file` and the
/// revision `next` at the end of its chain.
pub open spec fn appended(s: StoreState, k: int, file: FileView, next: RevisionView) -> StoreState {
    StoreState {
        files: s.files.update(
            k,
            EntryView { file, revisions: s.files[k].revisions.push(next) },
        ),
        blobs: add_reference(s.blobs, next.s3_hash, next.mime_hint, next.size_hint, next.created_at),
    }
}

/// Whether no further revision can be counted for the digest.
pub open spec fn count_exhausted(blobs: Seq<BlobView>, hash: Seq<u8>) -> bool {
    has_blob(blobs, hash) && blobs[blob_index(blobs, hash)].references >= u64::MAX
}

/// Appending a revision raises the count of its digest by one and leaves
/// the counts of the other digests.
pub proof fn lemma_count_push(chain: Seq<RevisionView>, next: RevisionView, hash: Seq<u8>)
    ensures
        count_refs(chain.push(next), hash) == count_refs(chain, hash) + if next.s3_hash == hash {
            1nat
        } else {
            0nat
        },
{
    assert(chain.push(next).drop_last() =~= chain);
}

/// A new file adds the counts of its chain to the totals.
pub proof fn lemma_total_push(files: Seq<EntryView>, entry: EntryView, hash: Seq<u8>)
    ensures
        total_refs(files.push(entry), hash) == total_refs(files, hash) + count_refs(
            entry.revisions,
            hash,
        ),
{
    assert(files.push(entry).drop_last() =~= files);
}

/// Replacing one file's chain changes the totals by the difference of the
/// two chains' counts.
pub proof fn lemma_total_update(files: Seq<EntryView>, k: int, entry: EntryView, hash: Seq<u8>)
    requires
        0 <= k < files.len(),
    ensures
        total_refs(files.update(k, entry), hash) + count_refs(files[k].revisions, hash)
            == total_refs(files, hash) + count_refs(entry.revisions, hash),
    decreases files.len(),
{
    let changed = files.update(k, entry);
    if k == files.len() - 1 {
        assert(changed.drop_last() =~= files.drop_last());
    } else {
        lemma_total_update(files.drop_last(), k, entry, hash);
        assert(changed.drop_last() =~= files.drop_last().update(k, entry));
    }
}

/// A chain's count for a digest is part of the total.
pub proof fn lemma_total_bounds(files: Seq<EntryView>, k: int, hash: Seq<u8>)
    requires
        0 <= k < files.len(),
    ensures
        count_refs(files[k].revisions, hash) <= total_refs(files, hash),
    decreases files.len(),
{
    if k < files.len() - 1 {
        lemma_total_bounds(files.drop_last(), k, hash);
    }
}

/// A digest that a revision of a chain points to is counted at least once.
pub proof fn lemma_count_positive(chain: Seq<RevisionView>, j: int)
    requires
        0 <= j < chain.len(),
    ensures
        count_refs(chain, chain[j].s3_hash) >= 1,
    decreases chain.len(),
{
    if j < chain.len() - 1 {
        lemma_count_positive(chain.drop_last(), j);
    }
}

/// Counting one more revision for `hash` keeps the content records in
/// step with files whose totals rose by that one revision.
pub proof fn lemma_add_reference(
    files: Seq<EntryView>,
    grown: Seq<EntryView>,
    blobs: Seq<BlobView>,
    hash: Seq<u8>,
    mime: Seq<char>,
    size: i64,
    now: i64,
)
    requires
        blobs_wf(files, blobs),
        forall|h: Seq<u8>|
            #[trigger] total_refs(grown, h) == total_refs(files, h) + if h == hash {
                1nat
            } else {
                0nat
            },
    ensures
        blobs_wf(grown, add_reference(blobs, hash, mime, size, now)),
{
    let after = add_reference(blobs, hash, mime, size, now);
    if has_blob(blobs, hash) {
        let k = blob_index(blobs, hash);
        assert forall|h: Seq<u8>| total_refs(grown, h) > 0 implies #[trigger] has_blob(after, h) by {
            if h == hash {
                assert(after[k].hash == h);
            } else {
                assert(total_refs(files, h) > 0);
                assert(has_blob(blobs, h));
                let l = blob_index(blobs, h);
                assert(after[l].hash == h);
            }
        }
    } else {
        assert(total_refs(files, hash) == 0);
        let last = blobs.len() as int;
        assert forall|k: int, l: int|
            0 <= k < after.len() && 0 <= l < after.len() && k != l implies (#[trigger] after[k]).hash
            != (#[trigger] after[l]).hash by {
            if k < last {
                assert(after[k] == blobs[k]);
            }
            if l < last {
                assert(after[l] == blobs[l]);
            }
        }
        assert forall|k: int| 0 <= k < after.len() implies (#[trigger] after[k]).references
            == total_refs(grown, after[k].hash) && after[k].references >= 1 by {
            if k < last {
                assert(after[k] == blobs[k]);
            }
        }
        assert forall|h: Seq<u8>| total_refs(grown, h) > 0 implies #[trigger] has_blob(after, h) by {
            if h == hash {
                assert(after[last].hash == h);
            } else {
                assert(total_refs(files, h) > 0);
                assert(has_blob(blobs, h));
                let l = blob_index(blobs, h);
                assert(after[l] == blobs[l]);
            }
        }
    }
}

/// Whether the file at position `k` may take the state `file` without a
/// clash of names: the state is a deleted one, or no live file has its name
/// in its container, or the file itself is live there under that name.
pub open spec fn name_free_for(files: Seq<EntryView>, k: int, file: FileView) -> bool {
    ||| file.deleted_at is Some
    ||| !name_taken(files, file.page_id, file.name)
    ||| (is_live(files[k]) && files[k].file.page_id == file.page_id && files[k].file.name
        == file.name)
}

/// Adding a file whose identifier is new, with a first revision that
/// agrees with it and a name that no live file of its container has, keeps
/// the store valid.
pub proof fn lemma_inserted_wf(s: StoreState, file: FileView, first: RevisionView)
    requires
        store_wf(s),
        !has_file(s.files, file.file_id),
        !name_taken(s.files, file.page_id, file.name),
        entry_wf(EntryView { file, revisions: seq![first] }),
    ensures
        store_wf(inserted(s, file, first)),
{
    let entry = EntryView { file, revisions: seq![first] };
    let after = inserted(s, file, first);
    let last = s.files.len() as int;
    assert forall|i: int| 0 <= i < after.files.len() implies entry_wf(#[trigger] after.files[i]) by {
        if i < last {
            assert(after.files[i] == s.files[i]);
        }
    }
    assert(files_distinct(after.files)) by {
        assert forall|i: int| 0 <= i < last implies (#[trigger] s.files[i]).file.file_id
            != file.file_id by {}
        assert forall|i: int|
            0 <= i < last && is_live(#[trigger] s.files[i]) && s.files[i].file.page_id
                == file.page_id implies s.files[i].file.name != file.name by {}
        assert forall|i: int| 0 <= i < last implies #[trigger] after.files[i] == s.files[i] by {}
    }
    assert forall|h: Seq<u8>|
        #[trigger] total_refs(after.files, h) == total_refs(s.files, h) + if h == first.s3_hash {
            1nat
        } else {
            0nat
        } by {
        lemma_total_push(s.files, entry, h);
        lemma_count_push(Seq::<RevisionView>::empty(), first, h);
        assert(seq![first] =~= Seq::<RevisionView>::empty().push(first));
    }
    lemma_add_reference(
        s.files,
        after.files,
        s.blobs,
        first.s3_hash,
        first.mime_hint,
        first.size_hint,
        first.created_at,
    );
}

/// Appending a revision that may follow the latest one, together with a
/// file state that agrees with it and clashes with no other live file's
/// name, keeps the store valid.
pub proof fn lemma_appended_wf(s: StoreState, k: int, file: FileView, next: RevisionView)
    requires
        store_wf(s),
        0 <= k < s.files.len(),
        follows(s.files[k].revisions.last(), next),
        file.file_id == s.files[k].file.file_id,
        file.name == next.name,
        file.page_id == next.page_id,
        file.deleted_at is Some <==> next.kind == RevisionKind::Tombstone,
        name_free_for(s.files, k, file),
    ensures
        store_wf(appended(s, k, file, next)),
{
    let before = s.files[k];
    let entry = EntryView { file, revisions: before.revisions.push(next) };
    let after = appended(s, k, file, next);
    assert(entry_wf(before));
    lemma_chain_push(before.revisions, next);
    assert(entry.revisions[0] == before.revisions[0]);
    assert forall|i: int| 0 <= i < after.files.len() implies entry_wf(#[trigger] after.files[i]) by {
        if i != k {
            assert(after.files[i] == s.files[i]);
        }
    }
    assert(files_distinct(after.files)) by {
        assert forall|i: int| 0 <= i < s.files.len() && i != k implies #[trigger] after.files[i]
            == s.files[i] by {}
        assert forall|i: int|
            0 <= i < s.files.len() && i != k && is_live(#[trigger] s.files[i]) && is_live(entry)
                && s.files[i].file.page_id == file.page_id implies s.files[i].file.name
            != file.name by {}
    }
    assert forall|h: Seq<u8>|
        #[trigger] total_refs(after.files, h) == total_refs(s.files, h) + if h == next.s3_hash {
            1nat
        } else {
            0nat
        } by {
        lemma_total_update(s.files, k, entry, h);
        lemma_count_push(before.revisions, next, h);
    }
    lemma_add_reference(
        s.files,
        after.files,
        s.blobs,
        next.s3_hash,
        next.mime_hint,
        next.size_hint,
        next.created_at,
    );
}

/// A file and its chain, as the store keeps them.
pub struct FileEntry {
    file: FileModel,
    revisions: Vec<FileRevision>,
}

impl View for FileEntry {
    type V = EntryView;

    closed spec fn view(&self) -> EntryView {
        EntryView {
            file: self.file@,
            revisions: Seq::new(self.revisions.len() as nat, |j: int| self.revisions[j]@),
        }
    }
}

/// The files, each with its chain of revisions, and the content records.
pub struct FileStore {
    files: Vec<FileEntry>,
    blobs: Vec<BlobModel>,
}

impl View for FileStore {
    type V = StoreState;

    closed spec fn view(&self) -> StoreState {
        StoreState {
            files: Seq::new(self.files.len() as nat, |i: int| self.files[i]@),
            blobs: Seq::new(self.blobs.len() as nat, |k: int| self.blobs[k]@),
        }
    }
}

impl FileStore {
    /// Whether the store's invariant holds.
    pub open spec fn wf(&self) -> bool {
        store_wf(self@)
    }

    /// A store without files and without content records.
    pub fn new() -> (r: FileStore)
        ensures
            r@.files == Seq::<EntryView>::empty(),
            r@.blobs == Seq::<BlobView>::empty(),
            r.wf(),
    {
        let r = FileStore { files: Vec::new(), blobs: Vec::new() };
        assert(r@.files =~= Seq::<EntryView>::empty());
        assert(r@.blobs =~= Seq::<BlobView>::empty());
        r
    }

    /// How many files the store holds, deleted ones included.
    pub fn file_count(&self) -> (r: usize)
        ensures
            r == self@.files.len(),
    {
        self.files.len()
    }

    /// How many content records the store holds.
    pub fn blob_count(&self) -> (r: usize)
        ensures
            r == self@.blobs.len(),
    {
        self.blobs.len()
    }

    /// The position of the file with the identifier, if the store has it.
    pub fn find(&self, file_id: &str) -> (r: Option<usize>)
        requires
            self.wf(),
        ensures
            match r {
                Some(k) => has_file(self@.files, file_id@) && k == file_index(self@.files, file_id@),
                None => !has_file(self@.files, file_id@),
            },
    {
        let mut i: usize = 0;
        while i < self.files.len()
            invariant
                self.wf(),
                i <= self.files.len(),
                forall|j: int| 0 <= j < i ==> (#[trigger] self@.files[j]).file.file_id != file_id@,
            decreases self.files.len() - i,
        {
            if same_text(self.files[i].file.file_id.as_str(), file_id) {
                proof {
                    assert(self@.files[i as int].file.file_id == file_id@);
                    let j = file_index(self@.files, file_id@);
                    assert(self@.files[j].file.file_id == file_id@);
                }
                return Some(i);
            }
            i += 1;
        }
        None
    }

    /// Whether a live file of the container has the name.
    pub fn name_in_use(&self, page_id: i64, name: &str) -> (r: bool)
        ensures
            r == name_taken(self@.files, page_id, name@),
    {
        let mut i: usize = 0;
        while i < self.files.len()
            invariant
                i <= self.files.len(),
                forall|j: int|
                    0 <= j < i ==> !(is_live(#[trigger] self@.files[j]) && self@.files[j].file.page_id
                        == page_id && self@.files[j].file.name == name@),
            decreases self.files.len() - i,
        {
            let file = &self.files[i].file;
            if file.deleted_at.is_none() && file.page_id == page_id && same_text(
                file.name.as_str(),
                name,
            ) {
                assert(is_live(self@.files[i as int]));
                return true;
            }
            i += 1;
        }
        false
    }

    /// The current state of the file at a position.
    pub fn file_at(&self, k: usize) -> (r: &FileModel)
        requires
            k < self@.files.len(),
        ensures
            r@ == self@.files[k as int].file,
    {
        &self.files[k].file
    }

    /// How many revisions the file at a position has.
    pub fn chain_len(&self, k: usize) -> (r: usize)
        requires
            k < self@.files.len(),
        ensures
            r == self@.files[k as int].revisions.len(),
    {
        self.files[k].revisions.len()
    }

    /// A revision of the file at a position, counted from 0.
    pub fn revision_at(&self, k: usize, j: usize) -> (r: &FileRevision)
        requires
            k < self@.files.len(),
            j < self@.files[k as int].revisions.len(),
        ensures
            r@ == self@.files[k as int].revisions[j as int],
    {
        &self.files[k].revisions[j]
    }

    /// The position of the content record with the digest, if there is one.
    pub fn find_blob(&self, hash: &Vec<u8>) -> (r: Option<usize>)
        requires
            self.wf(),
        ensures
            match r {
                Some(k) => has_blob(self@.blobs, hash@) && k == blob_index(self@.blobs, hash@),
                None => !has_blob(self@.blobs, hash@),
            },
    {
        let mut k: usize = 0;
        while k < self.blobs.len()
            invariant
                self.wf(),
                k <= self.blobs.len(),
                forall|l: int| 0 <= l < k ==> (#[trigger] self@.blobs[l]).hash != hash@,
            decreases self.blobs.len() - k,
        {
            if same_bytes(&self.blobs[k].hash, hash) {
                proof {
                    assert(self@.blobs[k as int].hash == hash@);
                    let l = blob_index(self@.blobs, hash@);
                    assert(self@.blobs[l].hash == hash@);
                }
                return Some(k);
            }
            k += 1;
        }
        None
    }

    /// The content record at a position.
    pub fn blob_at(&self, k: usize) -> (r: &BlobModel)
        requires
            k < self@.blobs.len(),
        ensures
            r@ == self@.blobs[k as int],
    {
        &self.blobs[k]
    }

    /// Whether one more revision can be counted for the digest.
    pub fn can_count(&self, hash: &Vec<u8>) -> (r: bool)
        requires
            self.wf(),
        ensures
            r == !count_exhausted(self@.blobs, hash@),
    {
        match self.find_blob(hash) {
            Some(k) => self.blobs[k].references < u64::MAX,
            None => true,
        }
    }

    /// Counts one more revision for the digest of `revision`.
    fn count_reference(&mut self, revision: &FileRevision)
        requires
            forall|k: int, l: int|
                0 <= k < old(self)@.blobs.len() && 0 <= l < old(self)@.blobs.len() && k != l ==> (
                #[trigger] old(self)@.blobs[k]).hash != (#[trigger] old(self)@.blobs[l]).hash,
            !count_exhausted(old(self)@.blobs, revision@.s3_hash),
        ensures
            final(self)@.files == old(self)@.files,
            final(self)@.blobs == add_reference(
                old(self)@.blobs,
                revision@.s3_hash,
                revision@.mime_hint,
                revision@.size_hint,
                revision@.created_at,
            ),
    {
        let mut k: usize = 0;
        let mut found: Option<usize> = None;
        while k < self.blobs.len() && found.is_none()
            invariant
                k <= self.blobs.len(),
                self == old(self),
                match found {
                    Some(p) => p < self.blobs.len() && self@.blobs[p as int].hash
                        == revision@.s3_hash,
                    None => forall|l: int|
                        0 <= l < k ==> (#[trigger] self@.blobs[l]).hash != revision@.s3_hash,
                },
            decreases self.blobs.len() - k + if found is None { 1nat } else { 0nat },
        {
            if same_bytes(&self.blobs[k].hash, &revision.s3_hash) {
                found = Some(k);
            } else {
                k += 1;
            }
        }
        match found {
            Some(p) => {
                assert(has_blob(old(self)@.blobs, revision@.s3_hash));
                assert(old(self)@.blobs[blob_index(old(self)@.blobs, revision@.s3_hash)].hash
                    == revision@.s3_hash);
                assert(p == blob_index(old(self)@.blobs, revision@.s3_hash));
                self.blobs[p].references += 1;
                assert(self@.blobs =~= add_reference(
                    old(self)@.blobs,
                    revision@.s3_hash,
                    revision@.mime_hint,
                    revision@.size_hint,
                    revision@.created_at,
                ));
            },
            None => {
                assert(!has_blob(old(self)@.blobs, revision@.s3_hash));
                self.blobs.push(
                    BlobModel {
                        hash: crate::blob::copy_bytes(&revision.s3_hash),
                        mime: revision.mime_hint.clone(),
                        size: revision.size_hint,
                        created_at: revision.created_at,
                        references: 1,
                    },
                );
                assert(self@.blobs =~= add_reference(
                    old(self)@.blobs,
                    revision@.s3_hash,
                    revision@.mime_hint,
                    revision@.size_hint,
                    revision@.created_at,
                ));
            },
        }
        assert(self@.files =~= old(self)@.files);
    }

    /// Adds a file with its first revision, and counts the revision for
    /// its digest.
    pub(crate) fn insert(&mut self, file: FileModel, first: FileRevision)
        requires
            old(self).wf(),
            !has_file(old(self)@.files, file@.file_id),
            !name_taken(old(self)@.files, file@.page_id, file@.name),
            entry_wf(EntryView { file: file@, revisions: seq![first@] }),
            !count_exhausted(old(self)@.blobs, first@.s3_hash),
        ensures
            final(self)@ == inserted(old(self)@, file@, first@),
            final(self).wf(),
    {
        proof {
            lemma_inserted_wf(self@, file@, first@);
        }
        self.count_reference(&first);
        let ghost entry = EntryView { file: file@, revisions: seq![first@] };
        let mut revisions: Vec<FileRevision> = Vec::new();
        revisions.push(first);
        let added = FileEntry { file, revisions };
        assert(added@.revisions =~= entry.revisions);
        self.files.push(added);
        assert(self@.files =~= old(self)@.files.push(entry));
    }

    /// Gives the file at position `k` the state `file` and the revision
    /// `next` at the end of its chain, and counts the revision for its
    /// digest.
    pub(crate) fn append(&mut self, k: usize, file: FileModel, next: FileRevision)
        requires
            old(self).wf(),
            k < old(self)@.files.len(),
            follows(old(self)@.files[k as int].revisions.last(), next@),
            file@.file_id == old(self)@.files[k as int].file.file_id,
            file@.name == next@.name,
            file@.page_id == next@.page_id,
            file@.deleted_at is Some <==> next@.kind == RevisionKind::Tombstone,
            name_free_for(old(self)@.files, k as int, file@),
            !count_exhausted(old(self)@.blobs, next@.s3_hash),
        ensures
            final(self)@ == appended(old(self)@, k as int, file@, next@),
            final(self).wf(),
    {
        proof {
            lemma_appended_wf(self@, k as int, file@, next@);
        }
        self.count_reference(&next);
        let ghost entry = EntryView {
            file: file@,
            revisions: old(self)@.files[k as int].revisions.push(next@),
        };
        self.files[k].file = file;
        self.files[k].revisions.push(next);
        assert(self.files[k as int]@.revisions =~= entry.revisions);
        assert(self@.files =~= old(self)@.files.update(k as int, entry));
    }
}

/// The contents of a list of texts.
pub open spec fn texts_of(list: Seq<String>) -> Seq<Seq<char>> {
    Seq::new(list.len(), |i: int| list[i]@)
}

/// The contents of a list of byte strings.
pub open spec fn bytes_of(list: Seq<Vec<u8>>) -> Seq<Seq<u8>> {
    Seq::new(list.len(), |i: int| list[i]@)
}

/// A chain counts no more revisions for a digest than any chain it starts.
pub proof fn lemma_count_take(chain: Seq<RevisionView>, j: int, hash: Seq<u8>)
    requires
        0 <= j <= chain.len(),
    ensures
        count_refs(chain.take(j), hash) <= count_refs(chain, hash),
    decreases chain.len() - j,
{
    if j == chain.len() {
        assert(chain.take(j) =~= chain);
    } else {
        lemma_count_take(chain, j + 1, hash);
        assert(chain.take(j + 1).drop_last() =~= chain.take(j));
    }
}

/// The first files of a store, with the first revisions of the next one,
/// hold no more revisions for a digest than all files do.
pub proof fn lemma_total_take(files: Seq<EntryView>, i: int, hash: Seq<u8>)
    requires
        0 <= i < files.len(),
    ensures
        total_refs(files.take(i), hash) + count_refs(files[i].revisions, hash) <= total_refs(
            files,
            hash,
        ),
        total_refs(files.take(i), hash) + count_refs(files[i].revisions, hash) == total_refs(
            files.take(i + 1),
            hash,
        ),
    decreases files.len() - i,
{
    assert(files.take(i + 1).drop_last() =~= files.take(i));
    assert(files.take(i + 1).last() == files[i]);
    if i + 1 == files.len() {
        assert(files.take(i + 1) =~= files);
    } else {
        lemma_total_take(files, i + 1, hash);
    }
}

impl FileStore {
    /// Whether some revision of the file at a position points to the
    /// digest.
    pub fn file_points_to(&self, k: usize, hash: &Vec<u8>) -> (r: bool)
        requires
            k < self@.files.len(),
        ensures
            r == points_to(self@.files[k as int], hash@),
    {
        let ghost chain = self@.files[k as int].revisions;
        let mut j: usize = 0;
        while j < self.files[k].revisions.len()
            invariant
                k < self.files.len(),
                chain == self@.files[k as int].revisions,
                j <= chain.len(),
                chain.len() == self.files[k as int].revisions.len(),
                count_refs(chain.take(j as int), hash@) == 0,
            decreases chain.len() - j,
        {
            if same_bytes(&self.files[k].revisions[j].s3_hash, hash) {
                proof {
                    assert(chain[j as int].s3_hash == hash@);
                    lemma_count_positive(chain, j as int);
                }
                return true;
            }
            proof {
                assert(chain.take(j + 1).drop_last() =~= chain.take(j as int));
                assert(chain.take(j + 1).last() == chain[j as int]);
            }
            j += 1;
        }
        assert(chain.take(j as int) =~= chain);
        false
    }

    /// How many revisions of all files point to the digest.
    pub(crate) fn count_references(&self, hash: &Vec<u8>) -> (r: u64)
        requires
            total_refs(self@.files, hash@) <= u64::MAX,
        ensures
            r == total_refs(self@.files, hash@),
    {
        let ghost files = self@.files;
        let mut count: u64 = 0;
        let mut i: usize = 0;
        while i < self.files.len()
            invariant
                files == self@.files,
                i <= self.files.len(),
                total_refs(files, hash@) <= u64::MAX,
                count == total_refs(files.take(i as int), hash@),
            decreases self.files.len() - i,
        {
            let ghost chain = files[i as int].revisions;
            let ghost before = count;
            let mut j: usize = 0;
            while j < self.files[i].revisions.len()
                invariant
                    files == self@.files,
                    i < self.files.len(),
                    chain == files[i as int].revisions,
                    chain.len() == self.files[i as int].revisions.len(),
                    j <= chain.len(),
                    total_refs(files, hash@) <= u64::MAX,
                    before == total_refs(files.take(i as int), hash@),
                    count == before + count_refs(chain.take(j as int), hash@),
                decreases chain.len() - j,
            {
                proof {
                    assert(chain.take(j + 1).drop_last() =~= chain.take(j as int));
                    assert(chain.take(j + 1).last() == chain[j as int]);
                    lemma_count_take(chain, j + 1, hash@);
                    lemma_total_take(files, i as int, hash@);
                }
                if same_bytes(&self.files[i].revisions[j].s3_hash, hash) {
                    count += 1;
                }
                j += 1;
            }
            proof {
                assert(chain.take(j as int) =~= chain);
                lemma_total_take(files, i as int, hash@);
            }
            i += 1;
        }
        assert(files.take(i as int) =~= files);
        count
    }

    /// Removes every file of which some revision points to the digest,
    /// each with its whole chain, and counts the content records anew: a
    /// record that no remaining revision points to is removed too. Returns
    /// the identifiers of the files removed and the digests of the records
    /// removed, each in the order in which the store held them.
    pub(crate) fn purge(&mut self, hash: &Vec<u8>) -> (r: (Vec<String>, Vec<Vec<u8>>))
        requires
            old(self).wf(),
        ensures
            final(self).wf(),
            final(self)@ == purged(old(self)@, hash@),
            texts_of(r.0@) == ids_with(old(self)@.files, hash@),
            bytes_of(r.1@) == unreferenced(old(self)@.blobs, final(self)@.files),
    {
        let ghost files = self@.files;
        let ghost blobs = self@.blobs;
        let mut removed_files: Vec<String> = Vec::new();
        let mut i: usize = 0;
        let ghost mut seen: int = 0;
        proof {
            assert(files.take(0) =~= Seq::<EntryView>::empty());
            assert(files.skip(0) =~= files);
            assert(self@.files =~= files_without(files.take(0), hash@) + files.skip(0));
            assert(texts_of(removed_files@) =~= ids_with(files.take(0), hash@));
        }
        while i < self.files.len()
            invariant
                0 <= seen <= files.len(),
                i == files_without(files.take(seen), hash@).len(),
                self@.files =~= files_without(files.take(seen), hash@) + files.skip(seen),
                self@.blobs == blobs,
                texts_of(removed_files@) == ids_with(files.take(seen), hash@),
            decreases files.len() - seen,
        {
            proof {
                assert(self@.files[i as int] == files.skip(seen)[0]);
                assert(files.take(seen + 1).drop_last() =~= files.take(seen));
                assert(files.take(seen + 1).last() == files[seen]);
            }
            let ghost kept = files_without(files.take(seen), hash@);
            let ghost held = self@.files;
            if self.file_points_to(i, hash) {
                let entry = self.files.remove(i);
                let ghost listed = removed_files@;
                removed_files.push(entry.file.file_id);
                proof {
                    assert(entry@ == files[seen]);
                    assert(self@.files.len() == held.len() - 1);
                    assert forall|j: int| 0 <= j < self@.files.len() implies self@.files[j] == (if j
                        < i {
                        held[j]
                    } else {
                        held[j + 1]
                    }) by {}
                    assert(self@.files =~= kept + files.skip(seen + 1));
                    assert(texts_of(removed_files@) =~= texts_of(listed).push(
                        files[seen].file.file_id,
                    ));
                }
            } else {
                proof {
                    assert(self@.files =~= kept.push(files[seen]) + files.skip(seen + 1));
                }
                i += 1;
            }
            proof {
                seen = seen + 1;
            }
        }
        proof {
            assert(seen == files.len()) by {
                assert(self@.files.len() == i + files.skip(seen).len());
            }
            assert(files.take(seen) =~= files);
            assert(files.skip(seen) =~= Seq::<EntryView>::empty());
            assert(self@.files =~= files_without(files, hash@));
        }
        let ghost kept = self@.files;
        let mut removed_blobs: Vec<Vec<u8>> = Vec::new();
        let mut k: usize = 0;
        let ghost mut done: int = 0;
        proof {
            assert(blobs.take(0) =~= Seq::<BlobView>::empty());
            assert(blobs.skip(0) =~= blobs);
            assert(self@.blobs =~= recounted(blobs.take(0), kept) + blobs.skip(0));
            assert(bytes_of(removed_blobs@) =~= unreferenced(blobs.take(0), kept));
        }
        while k < self.blobs.len()
            invariant
                store_wf(StoreState { files, blobs }),
                kept == files_without(files, hash@),
                self@.files == kept,
                0 <= done <= blobs.len(),
                k == recounted(blobs.take(done), kept).len(),
                self@.blobs =~= recounted(blobs.take(done), kept) + blobs.skip(done),
                bytes_of(removed_blobs@) == unreferenced(blobs.take(done), kept),
            decreases blobs.len() - done,
        {
            let ghost digest = blobs[done].hash;
            proof {
                assert(self@.blobs[k as int] == blobs.skip(done)[0]);
                assert(blobs.take(done + 1).drop_last() =~= blobs.take(done));
                assert(blobs.take(done + 1).last() == blobs[done]);
                lemma_files_without_totals(files, hash@, digest);
                assert(blobs[done].references == total_refs(files, digest));
            }
            let ghost counted = recounted(blobs.take(done), kept);
            let ghost held = self@.blobs;
            let count = self.count_references(&self.blobs[k].hash);
            if count == 0 {
                let record = self.blobs.remove(k);
                let ghost listed = removed_blobs@;
                removed_blobs.push(record.hash);
                proof {
                    assert(self@.blobs.len() == held.len() - 1);
                    assert forall|l: int| 0 <= l < self@.blobs.len() implies self@.blobs[l] == (if l
                        < k {
                        held[l]
                    } else {
                        held[l + 1]
                    }) by {}
                    assert(self@.blobs =~= counted + blobs.skip(done + 1));
                    assert(bytes_of(removed_blobs@) =~= bytes_of(listed).push(digest));
                }
            } else {
                self.blobs[k].references = count;
                proof {
                    assert(self@.blobs.len() == held.len());
                    assert forall|l: int| 0 <= l < self@.blobs.len() && l != k implies self@.blobs[l]
                        == held[l] by {}
                    assert(self@.blobs[k as int] == BlobView {
                        references: count as nat,
                        ..blobs[done]
                    });
                    let renewed = counted.push(
                        BlobView { references: count as nat, ..blobs[done] },
                    ) + blobs.skip(done + 1);
                    assert(renewed.len() == held.len());
                    assert forall|l: int| 0 <= l < renewed.len() implies renewed[l]
                        == self@.blobs[l] by {
                        if l < k {
                            assert(renewed[l] == counted[l]);
                            assert(held[l] == counted[l]);
                        } else if l > k {
                            assert(renewed[l] == blobs.skip(done + 1)[l - k - 1]);
                            assert(held[l] == blobs.skip(done)[l - k]);
                        }
                    }
                    assert(self@.blobs =~= renewed);
                }
                k += 1;
            }
            proof {
                done = done + 1;
            }
            assert(self@.files =~= kept);
        }
        proof {
            assert(done == blobs.len()) by {
                assert(self@.blobs.len() == k + blobs.skip(done).len());
            }
            assert(blobs.take(done) =~= blobs);
            assert(blobs.skip(done) =~= Seq::<BlobView>::empty());
            assert(self@.blobs =~= recounted(blobs, kept));
            lemma_purged_wf(old(self)@, hash@);
        }
        (removed_files, removed_blobs)
    }
}

} // verus!
