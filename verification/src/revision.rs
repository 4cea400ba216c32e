//! Revisions: the immutable entries of a file's history, and the rules by
//! which one follows another.

use vstd::prelude::*;
use crate::blob::copy_bytes;
use crate::blob::CreateBlobOutput;
use crate::error::Error;
use crate::store::file_index;
use crate::store::has_file;
use crate::store::FileStore;
use crate::store::StoreState;
use crate::value::ProvidedValue;

verus! {

/// What a revision records.
#[derive(Debug, Clone, Copy, PartialEq, Eq, Structural, Hash)]
pub enum RevisionKind {
    /// The file was created. Always the first entry of a chain.
    First,
    /// Name, content or licensing changed.
    Update,
    /// The file went to another container, possibly under another name.
    Move,
    /// The file was deleted; its content and name stay on record.
    Tombstone,
    /// A deletion was reversed.
    Restore,
}

/// Mathematical value of a [`FileRevision`].
pub struct RevisionView {
    pub revision_number: nat,
    pub file_id: Seq<char>,
    pub page_id: i64,
    pub site_id: i64,
    pub user_id: i64,
    pub kind: RevisionKind,
    pub name: Seq<char>,
    pub s3_hash: Seq<u8>,
    pub mime_hint: Seq<char>,
    pub size_hint: i64,
    pub licensing: Seq<char>,
    pub comments: Seq<char>,
    pub created_at: i64,
}

/// One entry of a file's history.
#[derive(Debug, Clone, PartialEq, Eq)]
pub struct FileRevision {
    pub revision_number: u64,
    pub file_id: String,
    pub page_id: i64,
    pub site_id: i64,
    pub user_id: i64,
    pub kind: RevisionKind,
    pub name: String,
    pub s3_hash: Vec<u8>,
    pub mime_hint: String,
    pub size_hint: i64,
    pub licensing: String,
    pub comments: String,
    pub created_at: i64,
}

impl View for FileRevision {
    type V = RevisionView;

    open spec fn view(&self) -> RevisionView {
        RevisionView {
            revision_number: self.revision_number as nat,
            file_id: self.file_id@,
            page_id: self.page_id,
            site_id: self.site_id,
            user_id: self.user_id,
            kind: self.kind,
            name: self.name@,
            s3_hash: self.s3_hash@,
            mime_hint: self.mime_hint@,
            size_hint: self.size_hint,
            licensing: self.licensing@,
            comments: self.comments@,
            created_at: self.created_at,
        }
    }
}

impl FileRevision {
    /// A copy of the revision.
    pub fn duplicate(&self) -> (r: FileRevision)
        ensures
            r@ == self@,
    {
        FileRevision {
            revision_number: self.revision_number,
            file_id: self.file_id.clone(),
            page_id: self.page_id,
            site_id: self.site_id,
            user_id: self.user_id,
            kind: self.kind,
            name: self.name.clone(),
            s3_hash: copy_bytes(&self.s3_hash),
            mime_hint: self.mime_hint.clone(),
            size_hint: self.size_hint,
            licensing: self.licensing.clone(),
            comments: self.comments.clone(),
            created_at: self.created_at,
        }
    }
}

/// Who writes a revision, for which site, why and when.
#[derive(Debug, Clone, PartialEq, Eq)]
pub struct RevisionMeta {
    pub site_id: i64,
    pub user_id: i64,
    pub comments: String,
    pub created_at: i64,
}

/// The fields an update may change, each present or absent.
#[derive(Debug, Clone, PartialEq, Eq)]
pub struct FileChanges {
    pub name: ProvidedValue<String>,
    pub blob: ProvidedValue<CreateBlobOutput>,
    pub licensing: ProvidedValue<String>,
}

/// The name a revision has after `changes`: the new one if given, else the
/// one before.
pub open spec fn merged_name(previous: Seq<char>, change: ProvidedValue<String>) -> Seq<char> {
    match change {
        ProvidedValue::Provided(name) => name@,
        ProvidedValue::Unset => previous,
    }
}

/// The digest a revision has after a change of content.
pub open spec fn merged_hash(previous: Seq<u8>, change: ProvidedValue<CreateBlobOutput>) -> Seq<u8> {
    match change {
        ProvidedValue::Provided(blob) => blob.hash@,
        ProvidedValue::Unset => previous,
    }
}

/// The media type a revision has after a change of content.
pub open spec fn merged_mime(previous: Seq<char>, change: ProvidedValue<CreateBlobOutput>) -> Seq<char> {
    match change {
        ProvidedValue::Provided(blob) => blob.mime@,
        ProvidedValue::Unset => previous,
    }
}

/// The size a revision has after a change of content.
pub open spec fn merged_size(previous: i64, change: ProvidedValue<CreateBlobOutput>) -> i64 {
    match change {
        ProvidedValue::Provided(blob) => blob.size,
        ProvidedValue::Unset => previous,
    }
}

/// The first revision of a file.
pub open spec fn first_of(
    meta: RevisionMeta,
    file_id: Seq<char>,
    page_id: i64,
    name: Seq<char>,
    blob: CreateBlobOutput,
    licensing: Seq<char>,
) -> RevisionView {
    RevisionView {
        revision_number: 1,
        file_id,
        page_id,
        site_id: meta.site_id,
        user_id: meta.user_id,
        kind: RevisionKind::First,
        name,
        s3_hash: blob.hash@,
        mime_hint: blob.mime@,
        size_hint: blob.size,
        licensing,
        comments: meta.comments@,
        created_at: meta.created_at,
    }
}

/// The revision that follows `previous` with nothing changed but its kind,
/// its number and who wrote it.
pub open spec fn successor_of(previous: RevisionView, kind: RevisionKind, meta: RevisionMeta) -> RevisionView {
    RevisionView {
        revision_number: previous.revision_number + 1,
        site_id: meta.site_id,
        user_id: meta.user_id,
        kind,
        comments: meta.comments@,
        created_at: meta.created_at,
        ..previous
    }
}

/// The `Update` revision that follows `previous`: a field that `changes`
/// leaves out keeps its value, one that it sets takes the new value.
pub open spec fn update_of(previous: RevisionView, meta: RevisionMeta, changes: FileChanges) -> RevisionView {
    RevisionView {
        name: merged_name(previous.name, changes.name),
        s3_hash: merged_hash(previous.s3_hash, changes.blob),
        mime_hint: merged_mime(previous.mime_hint, changes.blob),
        size_hint: merged_size(previous.size_hint, changes.blob),
        licensing: merged_name(previous.licensing, changes.licensing),
        ..successor_of(previous, RevisionKind::Update, meta)
    }
}

/// The `Move` revision that follows `previous`: it records the destination
/// as its container and the name the file has there.
pub open spec fn move_of(previous: RevisionView, meta: RevisionMeta, destination: i64, name: Seq<char>) -> RevisionView {
    RevisionView { page_id: destination, name, ..successor_of(previous, RevisionKind::Move, meta) }
}

/// The `Tombstone` revision that follows `previous`.
pub open spec fn tombstone_of(previous: RevisionView, meta: RevisionMeta) -> RevisionView {
    successor_of(previous, RevisionKind::Tombstone, meta)
}

/// The `Restore` revision that follows `previous`.
pub open spec fn restore_of(previous: RevisionView, meta: RevisionMeta) -> RevisionView {
    successor_of(previous, RevisionKind::Restore, meta)
}

/// Whether a chain has the shape of a file's history: numbered from 1
/// without a gap, all of one file, `First` at the start and nowhere else,
/// and a `Tombstone` followed by a `Restore` or by nothing, a `Restore`
/// only ever after a `Tombstone`.
pub open spec fn chain_wf(chain: Seq<RevisionView>) -> bool {
    &&& chain.len() >= 1
    &&& forall|i: int| 0 <= i < chain.len() ==> (#[trigger] chain[i]).revision_number == i + 1
    &&& forall|i: int| 0 <= i < chain.len() ==> (#[trigger] chain[i]).file_id == chain[0].file_id
    &&& forall|i: int|
        0 <= i < chain.len() ==> ((#[trigger] chain[i]).kind == RevisionKind::First <==> i == 0)
    &&& forall|i: int, j: int|
        0 <= i && j == i + 1 && j < chain.len() ==> ((#[trigger] chain[i]).kind
            == RevisionKind::Tombstone <==> (#[trigger] chain[j]).kind == RevisionKind::Restore)
}

/// Whether `next` may follow `previous` in a chain.
pub open spec fn follows(previous: RevisionView, next: RevisionView) -> bool {
    &&& next.revision_number == previous.revision_number + 1
    &&& next.file_id == previous.file_id
    &&& next.kind != RevisionKind::First
    &&& (previous.kind == RevisionKind::Tombstone <==> next.kind == RevisionKind::Restore)
}

/// A chain of the right shape keeps it when a revision that may follow its
/// last entry is appended.
pub proof fn lemma_chain_push(chain: Seq<RevisionView>, next: RevisionView)
    requires
        chain_wf(chain),
        follows(chain.last(), next),
    ensures
        chain_wf(chain.push(next)),
{
    let grown = chain.push(next);
    assert forall|i: int| 0 <= i < grown.len() implies (#[trigger] grown[i]).revision_number == i
        + 1 by {
        if i < chain.len() {
            assert(grown[i] == chain[i]);
        }
    }
    assert forall|i: int| 0 <= i < grown.len() implies (#[trigger] grown[i]).file_id
        == grown[0].file_id by {
        assert(grown[0] == chain[0]);
        assert(chain[chain.len() - 1].file_id == chain[0].file_id);
        if i < chain.len() {
            assert(grown[i] == chain[i]);
        }
    }
    assert forall|i: int| 0 <= i < grown.len() implies ((#[trigger] grown[i]).kind
        == RevisionKind::First <==> i == 0) by {
        if i < chain.len() {
            assert(grown[i] == chain[i]);
        }
    }
    assert forall|i: int, j: int| 0 <= i && j == i + 1 && j < grown.len() implies ((
    #[trigger] grown[i]).kind == RevisionKind::Tombstone <==> (#[trigger] grown[j]).kind
        == RevisionKind::Restore) by {
        assert(grown[i] == chain[i]);
        if j < chain.len() {
            assert(grown[j] == chain[j]);
        }
    }
}

/// The latest revision of a chain that was written while the file was in
/// the container, if there is one.
pub open spec fn latest_in(chain: Seq<RevisionView>, page_id: i64) -> Option<RevisionView>
    decreases chain.len(),
{
    if chain.len() == 0 {
        None
    } else if chain.last().page_id == page_id {
        Some(chain.last())
    } else {
        latest_in(chain.drop_last(), page_id)
    }
}

/// The revision that `get_latest` finds: the latest one that the file with
/// the identifier has in the container.
pub open spec fn latest_revision(s: StoreState, page_id: i64, file_id: Seq<char>) -> Option<
    RevisionView,
> {
    if has_file(s.files, file_id) {
        latest_in(s.files[file_index(s.files, file_id)].revisions, page_id)
    } else {
        None
    }
}

/// The constructors of revisions, and the lookup of the latest one.
#[derive(Debug)]
pub struct FileRevisionService;

impl FileRevisionService {
    /// Writes the first revision of a file: number 1, kind `First`, with the
    /// content the file starts with.
    pub fn create_first(
        meta: RevisionMeta,
        file_id: String,
        page_id: i64,
        name: String,
        blob: CreateBlobOutput,
        licensing: String,
    ) -> (r: FileRevision)
        ensures
            r@ == first_of(meta, file_id@, page_id, name@, blob, licensing@),
    {
        FileRevision {
            revision_number: 1,
            file_id,
            page_id,
            site_id: meta.site_id,
            user_id: meta.user_id,
            kind: RevisionKind::First,
            name,
            s3_hash: blob.hash,
            mime_hint: blob.mime,
            size_hint: blob.size,
            licensing,
            comments: meta.comments,
            created_at: meta.created_at,
        }
    }

    /// Writes the `Update` revision that follows `previous`. A deleted file
    /// takes no update, and a chain whose numbers are used up takes no
    /// revision.
    pub fn create_update(previous: &FileRevision, meta: RevisionMeta, changes: FileChanges) -> (r:
        Result<FileRevision, Error>)
        ensures
            match r {
                Ok(revision) => {
                    &&& previous.kind != RevisionKind::Tombstone
                    &&& previous.revision_number < u64::MAX
                    &&& revision@ == update_of(previous@, meta, changes)
                },
                Err(e) => if previous.kind == RevisionKind::Tombstone {
                    e == Error::NotFound
                } else {
                    e == Error::StorageFailure && previous.revision_number == u64::MAX
                },
            },
    {
        if previous.kind == RevisionKind::Tombstone {
            return Err(Error::NotFound);
        }
        if previous.revision_number == u64::MAX {
            return Err(Error::StorageFailure);
        }
        let name = match changes.name {
            ProvidedValue::Provided(name) => name,
            ProvidedValue::Unset => previous.name.clone(),
        };
        let licensing = match changes.licensing {
            ProvidedValue::Provided(licensing) => licensing,
            ProvidedValue::Unset => previous.licensing.clone(),
        };
        let blob = match changes.blob {
            ProvidedValue::Provided(blob) => blob,
            ProvidedValue::Unset => CreateBlobOutput {
                hash: copy_bytes(&previous.s3_hash),
                mime: previous.mime_hint.clone(),
                size: previous.size_hint,
            },
        };
        Ok(
            FileRevision {
                revision_number: previous.revision_number + 1,
                file_id: previous.file_id.clone(),
                page_id: previous.page_id,
                site_id: meta.site_id,
                user_id: meta.user_id,
                kind: RevisionKind::Update,
                name,
                s3_hash: blob.hash,
                mime_hint: blob.mime,
                size_hint: blob.size,
                licensing,
                comments: meta.comments,
                created_at: meta.created_at,
            },
        )
    }
    /// Writes the `Move` revision that follows `previous`, for the file's
    /// arrival in `destination` under `name`. A deleted file does not move.
    pub fn create_move(previous: &FileRevision, meta: RevisionMeta, destination: i64, name: String) -> (r:
        Result<FileRevision, Error>)
        ensures
            match r {
                Ok(revision) => {
                    &&& previous.kind != RevisionKind::Tombstone
                    &&& previous.revision_number < u64::MAX
                    &&& revision@ == move_of(previous@, meta, destination, name@)
                },
                Err(e) => if previous.kind == RevisionKind::Tombstone {
                    e == Error::NotFound
                } else {
                    e == Error::StorageFailure && previous.revision_number == u64::MAX
                },
            },
    {
        if previous.kind == RevisionKind::Tombstone {
            return Err(Error::NotFound);
        }
        if previous.revision_number == u64::MAX {
            return Err(Error::StorageFailure);
        }
        let mut revision = Self::successor(previous, RevisionKind::Move, meta);
        revision.page_id = destination;
        revision.name = name;
        Ok(revision)
    }

    /// Writes the `Tombstone` revision that follows `previous`. Name and
    /// content are carried over unchanged. A file that is already deleted is
    /// not deleted again.
    pub fn create_tombstone(previous: &FileRevision, meta: RevisionMeta) -> (r: Result<
        FileRevision,
        Error,
    >)
        ensures
            match r {
                Ok(revision) => {
                    &&& previous.kind != RevisionKind::Tombstone
                    &&& previous.revision_number < u64::MAX
                    &&& revision@ == tombstone_of(previous@, meta)
                },
                Err(e) => if previous.kind == RevisionKind::Tombstone {
                    e == Error::NotFound
                } else {
                    e == Error::StorageFailure && previous.revision_number == u64::MAX
                },
            },
    {
        if previous.kind == RevisionKind::Tombstone {
            return Err(Error::NotFound);
        }
        if previous.revision_number == u64::MAX {
            return Err(Error::StorageFailure);
        }
        Ok(Self::successor(previous, RevisionKind::Tombstone, meta))
    }

    /// Writes the `Restore` revision that follows the tombstone `previous`.
    /// Only a deleted file is restored.
    pub fn create_restore(previous: &FileRevision, meta: RevisionMeta) -> (r: Result<
        FileRevision,
        Error,
    >)
        ensures
            match r {
                Ok(revision) => {
                    &&& previous.kind == RevisionKind::Tombstone
                    &&& previous.revision_number < u64::MAX
                    &&& revision@ == restore_of(previous@, meta)
                },
                Err(e) => if previous.kind != RevisionKind::Tombstone {
                    e == Error::NotFound
                } else {
                    e == Error::StorageFailure && previous.revision_number == u64::MAX
                },
            },
    {
        if previous.kind != RevisionKind::Tombstone {
            return Err(Error::NotFound);
        }
        if previous.revision_number == u64::MAX {
            return Err(Error::StorageFailure);
        }
        Ok(Self::successor(previous, RevisionKind::Restore, meta))
    }

    fn successor(previous: &FileRevision, kind: RevisionKind, meta: RevisionMeta) -> (r: FileRevision)
        requires
            previous.revision_number < u64::MAX,
        ensures
            r@ == successor_of(previous@, kind, meta),
    {
        FileRevision {
            revision_number: previous.revision_number + 1,
            file_id: previous.file_id.clone(),
            page_id: previous.page_id,
            site_id: meta.site_id,
            user_id: meta.user_id,
            kind,
            name: previous.name.clone(),
            s3_hash: copy_bytes(&previous.s3_hash),
            mime_hint: previous.mime_hint.clone(),
            size_hint: previous.size_hint,
            licensing: previous.licensing.clone(),
            comments: meta.comments,
            created_at: meta.created_at,
        }
    }
    /// Finds the latest revision that the file has in the container. A file
    /// that has moved away still has there the revisions written before it
    /// left. Fails with `NotFound` if the store has no such file or the file
    /// has no revision in that container.
    pub fn get_latest(store: &FileStore, page_id: i64, file_id: &str) -> (r: Result<
        FileRevision,
        Error,
    >)
        requires
            store.wf(),
        ensures
            match r {
                Ok(revision) => latest_revision(store@, page_id, file_id@) == Some(revision@),
                Err(e) => e == Error::NotFound && latest_revision(store@, page_id, file_id@) is None,
            },
    {
        let k = match store.find(file_id) {
            Some(k) => k,
            None => {
                return Err(Error::NotFound);
            },
        };
        let ghost chain = store@.files[k as int].revisions;
        let mut j: usize = store.chain_len(k);
        assert(chain.take(j as int) =~= chain);
        while j > 0
            invariant
                k < store@.files.len(),
                has_file(store@.files, file_id@),
                k == file_index(store@.files, file_id@),
                chain == store@.files[k as int].revisions,
                j <= chain.len(),
                latest_in(chain, page_id) == latest_in(chain.take(j as int), page_id),
            decreases j,
        {
            let revision = store.revision_at(k, j - 1);
            proof {
                assert(chain.take(j as int).len() == j);
                assert(chain.take(j as int).last() == chain[j - 1]);
                assert(chain.take(j as int).drop_last() =~= chain.take(j - 1));
                reveal_with_fuel(latest_in, 2);
            }
            if revision.page_id == page_id {
                assert(latest_in(chain.take(j as int), page_id) == Some(chain[j - 1]));
                return Ok(revision.duplicate());
            }
            j -= 1;
        }
        proof {
            assert(chain.take(0).len() == 0);
        }
        Err(Error::NotFound)
    }
}

} // verus!
