//! The operations on files: create, update, move, delete, restore, and the
//! lookups. Each one that writes changes the file's state and appends one
//! revision together, or changes nothing.

use vstd::prelude::*;
use crate::blob::CreateBlobOutput;
use crate::error::Error;
use crate::file::FileModel;
use crate::file::FileView;
use crate::purge::ids_with;
use crate::purge::purged;
use crate::purge::unreferenced;
use crate::revision::first_of;
use crate::revision::merged_hash;
use crate::revision::move_of;
use crate::revision::restore_of;
use crate::revision::tombstone_of;
use crate::revision::update_of;
use crate::revision::FileChanges;
use crate::revision::FileRevision;
use crate::revision::FileRevisionService;
use crate::revision::RevisionMeta;
use crate::revision::RevisionView;
use crate::store::appended;
use crate::store::count_exhausted;
use crate::store::entry_wf;
use crate::store::file_index;
use crate::store::has_file;
use crate::store::bytes_of;
use crate::store::inserted;
use crate::store::is_live;
use crate::store::name_taken;
use crate::store::texts_of;
use crate::store::EntryView;
use crate::store::FileStore;
use crate::store::StoreState;
use crate::value::ProvidedValue;

verus! {

/// A request to create a file.
#[derive(Debug, Clone, PartialEq, Eq)]
pub struct CreateFile {
    pub revision_comments: String,
    pub name: String,
    pub site_id: i64,
    pub user_id: i64,
    pub licensing: String,
}

/// A request to change a file's name, content or licensing.
#[derive(Debug, Clone, PartialEq, Eq)]
pub struct UpdateFile {
    pub revision_comments: String,
    pub user_id: i64,
    pub body: FileChanges,
}

/// A request to move a file to another container, under a new name if one
/// is given.
#[derive(Debug, Clone, PartialEq, Eq)]
pub struct MoveFile {
    pub revision_comments: String,
    pub user_id: i64,
    pub name: Option<String>,
    pub current_page_id: i64,
    pub destination_page_id: i64,
}

/// A request to delete a file.
#[derive(Debug, Clone, PartialEq, Eq)]
pub struct DeleteFile {
    pub revision_comments: String,
    pub site_id: i64,
    pub user_id: i64,
}

/// A request to bring a deleted file back.
#[derive(Debug, Clone, PartialEq, Eq)]
pub struct RestoreFile {
    pub revision_comments: String,
    pub site_id: i64,
    pub user_id: i64,
}

/// The record of a hard delete, for the audit log and for the content
/// store: the digest that was removed, the identifiers of the files that
/// went with it, and the digests whose content no revision points to any
/// more, which the content store can now drop.
#[derive(Debug, Clone, PartialEq, Eq)]
pub struct HardDeleteOutput {
    pub hash: Vec<u8>,
    pub files: Vec<String>,
    pub blobs: Vec<Vec<u8>>,
}

/// The file with the identifier, if the store has it, deleted or not.
pub open spec fn lookup(s: StoreState, file_id: Seq<char>) -> Option<EntryView> {
    if has_file(s.files, file_id) {
        Some(s.files[file_index(s.files, file_id)])
    } else {
        None
    }
}

/// The file with the identifier, if the store has it and the container is
/// its current one.
pub open spec fn lookup_in(s: StoreState, page_id: i64, file_id: Seq<char>) -> Option<EntryView> {
    match lookup(s, file_id) {
        Some(entry) => if entry.file.page_id == page_id {
            Some(entry)
        } else {
            None
        },
        None => None,
    }
}

/// Whether the chain of the file can take no further revision with the
/// digest: its numbers are used up, or the digest's count is.
pub open spec fn storage_full(s: StoreState, entry: EntryView, hash: Seq<u8>) -> bool {
    entry.revisions.last().revision_number >= u64::MAX || count_exhausted(s.blobs, hash)
}

/// Who writes a revision, for which site, why and when, as one value.
pub open spec fn meta_of(site_id: i64, user_id: i64, comments: String, now: i64) -> RevisionMeta {
    RevisionMeta { site_id, user_id, comments, created_at: now }
}

/// The first revision of a created file.
pub open spec fn created_revision(
    page_id: i64,
    input: CreateFile,
    blob: CreateBlobOutput,
    file_id: Seq<char>,
    now: i64,
) -> RevisionView {
    first_of(
        meta_of(input.site_id, input.user_id, input.revision_comments, now),
        file_id,
        page_id,
        input.name@,
        blob,
        input.licensing@,
    )
}

/// The state of a created file.
pub open spec fn created_file(page_id: i64, input: CreateFile, file_id: Seq<char>, now: i64) -> FileView {
    FileView {
        file_id,
        name: input.name@,
        page_id,
        created_at: now,
        updated_at: None,
        deleted_at: None,
    }
}

/// Why `create` refuses, if it does: the name is taken in the container,
/// the identifier is in use, or the digest's count is used up.
pub open spec fn create_error(
    s: StoreState,
    page_id: i64,
    input: CreateFile,
    blob: CreateBlobOutput,
    file_id: Seq<char>,
) -> Option<Error> {
    if name_taken(s.files, page_id, input.name@) {
        Some(Error::Conflict)
    } else if has_file(s.files, file_id) {
        Some(Error::Validation)
    } else if count_exhausted(s.blobs, blob.hash@) {
        Some(Error::StorageFailure)
    } else {
        None
    }
}

/// The store after `create` succeeds.
pub open spec fn after_create(
    s: StoreState,
    page_id: i64,
    input: CreateFile,
    blob: CreateBlobOutput,
    file_id: Seq<char>,
    now: i64,
) -> StoreState {
    inserted(
        s,
        created_file(page_id, input, file_id, now),
        created_revision(page_id, input, blob, file_id, now),
    )
}

/// Whether a set of changes changes nothing: every field is left out.
pub open spec fn is_empty_change(changes: FileChanges) -> bool {
    changes.name is Unset && changes.blob is Unset && changes.licensing is Unset
}

/// The revision that `update` appends to the file `entry`.
pub open spec fn updated_revision(entry: EntryView, site_id: i64, input: UpdateFile, now: i64) -> RevisionView {
    update_of(
        entry.revisions.last(),
        meta_of(site_id, input.user_id, input.revision_comments, now),
        input.body,
    )
}

/// Why `update` refuses, if it does: the file is not in the container or
/// is deleted; a new name is taken there; or, where something is to be
/// written, the store cannot take it.
pub open spec fn update_error(s: StoreState, page_id: i64, file_id: Seq<char>, input: UpdateFile) -> Option<
    Error,
> {
    match lookup_in(s, page_id, file_id) {
        None => Some(Error::NotFound),
        Some(entry) => if !is_live(entry) {
            Some(Error::NotFound)
        } else if input.body.name is Provided && name_taken(
            s.files,
            page_id,
            input.body.name->Provided_0@,
        ) {
            Some(Error::Conflict)
        } else if !is_empty_change(input.body) && storage_full(
            s,
            entry,
            merged_hash(entry.revisions.last().s3_hash, input.body.blob),
        ) {
            Some(Error::StorageFailure)
        } else {
            None
        },
    }
}

/// The store after `update` wrote a revision.
pub open spec fn after_update(
    s: StoreState,
    site_id: i64,
    file_id: Seq<char>,
    input: UpdateFile,
    now: i64,
) -> StoreState {
    let k = file_index(s.files, file_id);
    let next = updated_revision(s.files[k], site_id, input, now);
    appended(
        s,
        k,
        FileView { name: next.name, updated_at: Some(now), ..s.files[k].file },
        next,
    )
}

/// The name a file has after a move: the one asked for, else the one it
/// had.
pub open spec fn moved_name(entry: EntryView, input: MoveFile) -> Seq<char> {
    match input.name {
        Some(name) => name@,
        None => entry.revisions.last().name,
    }
}

/// The revision that `move_file` appends to the file `entry`.
pub open spec fn moved_revision(entry: EntryView, site_id: i64, input: MoveFile, now: i64) -> RevisionView {
    move_of(
        entry.revisions.last(),
        meta_of(site_id, input.user_id, input.revision_comments, now),
        input.destination_page_id,
        moved_name(entry, input),
    )
}

/// Why `move_file` refuses, if it does: the file is not in the container
/// it is to leave, or is deleted; its name is taken in the destination; or
/// the store cannot take the write.
pub open spec fn move_error(s: StoreState, file_id: Seq<char>, input: MoveFile) -> Option<Error> {
    match lookup_in(s, input.current_page_id, file_id) {
        None => Some(Error::NotFound),
        Some(entry) => if !is_live(entry) {
            Some(Error::NotFound)
        } else if name_taken(s.files, input.destination_page_id, moved_name(entry, input)) {
            Some(Error::Conflict)
        } else if storage_full(s, entry, entry.revisions.last().s3_hash) {
            Some(Error::StorageFailure)
        } else {
            None
        },
    }
}

/// The store after `move_file` succeeds.
pub open spec fn after_move(s: StoreState, site_id: i64, file_id: Seq<char>, input: MoveFile, now: i64) -> StoreState {
    let k = file_index(s.files, file_id);
    let next = moved_revision(s.files[k], site_id, input, now);
    appended(
        s,
        k,
        FileView {
            name: next.name,
            page_id: input.destination_page_id,
            updated_at: Some(now),
            ..s.files[k].file
        },
        next,
    )
}

/// Why `delete` refuses, if it does: the file is not in the container or
/// is deleted already; or the store cannot take the write.
pub open spec fn delete_error(s: StoreState, page_id: i64, file_id: Seq<char>) -> Option<Error> {
    match lookup_in(s, page_id, file_id) {
        None => Some(Error::NotFound),
        Some(entry) => if !is_live(entry) {
            Some(Error::NotFound)
        } else if storage_full(s, entry, entry.revisions.last().s3_hash) {
            Some(Error::StorageFailure)
        } else {
            None
        },
    }
}

/// The state of the file `entry` after `delete`.
pub open spec fn deleted_file(entry: EntryView, now: i64) -> FileView {
    FileView { deleted_at: Some(now), ..entry.file }
}

/// The store after `delete` succeeds.
pub open spec fn after_delete(s: StoreState, file_id: Seq<char>, input: DeleteFile, now: i64) -> StoreState {
    let k = file_index(s.files, file_id);
    appended(
        s,
        k,
        deleted_file(s.files[k], now),
        tombstone_of(
            s.files[k].revisions.last(),
            meta_of(input.site_id, input.user_id, input.revision_comments, now),
        ),
    )
}

/// Why `restore` refuses, if it does: the store has no such file or the
/// file is not deleted; a live file has taken its name in its container;
/// or the store cannot take the write.
pub open spec fn restore_error(s: StoreState, file_id: Seq<char>) -> Option<Error> {
    match lookup(s, file_id) {
        None => Some(Error::NotFound),
        Some(entry) => if is_live(entry) {
            Some(Error::NotFound)
        } else if name_taken(s.files, entry.file.page_id, entry.file.name) {
            Some(Error::Conflict)
        } else if storage_full(s, entry, entry.revisions.last().s3_hash) {
            Some(Error::StorageFailure)
        } else {
            None
        },
    }
}

/// The state of the file `entry` after `restore`.
pub open spec fn restored_file(entry: EntryView) -> FileView {
    FileView { deleted_at: None, ..entry.file }
}

/// The store after `restore` succeeds.
pub open spec fn after_restore(s: StoreState, file_id: Seq<char>, input: RestoreFile, now: i64) -> StoreState {
    let k = file_index(s.files, file_id);
    appended(
        s,
        k,
        restored_file(s.files[k]),
        restore_of(
            s.files[k].revisions.last(),
            meta_of(input.site_id, input.user_id, input.revision_comments, now),
        ),
    )
}

/// The operations on files.
#[derive(Debug)]
pub struct FileService;

impl FileService {
    /// Creates a file in a container from content that the content store
    /// has taken, under the identifier `file_id`, at the time `now`.
    ///
    /// The content is recorded once per digest: a digest that the store
    /// knows gets one more reference, a new one gets a record. The file
    /// starts with one revision of kind `First`, which is returned.
    ///
    /// Fails with `Conflict` if a live file of the container has the name,
    /// with `Validation` if the identifier is in use, with `StorageFailure`
    /// if the digest's count is used up. A failure changes nothing.
    pub fn create(
        store: &mut FileStore,
        page_id: i64,
        input: CreateFile,
        blob: CreateBlobOutput,
        file_id: String,
        now: i64,
    ) -> (r: Result<FileRevision, Error>)
        requires
            old(store).wf(),
        ensures
            final(store).wf(),
            match r {
                Ok(revision) => {
                    &&& create_error(old(store)@, page_id, input, blob, file_id@) is None
                    &&& revision@ == created_revision(page_id, input, blob, file_id@, now)
                    &&& final(store)@ == after_create(old(store)@, page_id, input, blob, file_id@, now)
                },
                Err(e) => {
                    &&& create_error(old(store)@, page_id, input, blob, file_id@) == Some(e)
                    &&& final(store)@ == old(store)@
                },
            },
    {
        match Self::check_conflicts(store, page_id, input.name.as_str()) {
            Ok(()) => {},
            Err(e) => {
                return Err(e);
            },
        }
        if store.find(file_id.as_str()).is_some() {
            return Err(Error::Validation);
        }
        if !store.can_count(&blob.hash) {
            return Err(Error::StorageFailure);
        }
        let file = FileModel {
            file_id: file_id.clone(),
            name: input.name.clone(),
            page_id,
            created_at: now,
            updated_at: None,
            deleted_at: None,
        };
        let meta = RevisionMeta {
            site_id: input.site_id,
            user_id: input.user_id,
            comments: input.revision_comments,
            created_at: now,
        };
        let revision = FileRevisionService::create_first(
            meta,
            file_id,
            page_id,
            input.name,
            blob,
            input.licensing,
        );
        let output = revision.duplicate();
        proof {
            let chain = seq![revision@];
            assert(chain.len() == 1);
            assert(chain[0] == revision@);
            assert(chain.last() == revision@);
            assert(entry_wf(EntryView { file: file@, revisions: chain }));
        }
        store.insert(file, revision);
        Ok(output)
    }

    /// Fails with `Conflict` if a live file of the container has the name.
    /// Deleted files do not count: their names are free.
    pub fn check_conflicts(store: &FileStore, page_id: i64, name: &str) -> (r: Result<(), Error>)
        ensures
            match r {
                Ok(_) => !name_taken(store@.files, page_id, name@),
                Err(e) => e == Error::Conflict && name_taken(store@.files, page_id, name@),
            },
    {
        if store.name_in_use(page_id, name) {
            Err(Error::Conflict)
        } else {
            Ok(())
        }
    }
    /// The position of the live file with the identifier in the container,
    /// or `NotFound`.
    fn locate_live(store: &FileStore, page_id: i64, file_id: &str) -> (r: Result<usize, Error>)
        requires
            store.wf(),
        ensures
            match r {
                Ok(k) => {
                    &&& has_file(store@.files, file_id@)
                    &&& k == file_index(store@.files, file_id@)
                    &&& lookup_in(store@, page_id, file_id@) == Some(store@.files[k as int])
                    &&& is_live(store@.files[k as int])
                },
                Err(e) => {
                    &&& e == Error::NotFound
                    &&& match lookup_in(store@, page_id, file_id@) {
                        None => true,
                        Some(entry) => !is_live(entry),
                    }
                },
            },
    {
        match store.find(file_id) {
            None => Err(Error::NotFound),
            Some(k) => {
                let file = store.file_at(k);
                if file.page_id != page_id || file.deleted_at.is_some() {
                    Err(Error::NotFound)
                } else {
                    Ok(k)
                }
            },
        }
    }

    /// Changes a file's name, content or licensing, at the time `now`.
    ///
    /// A field that the request leaves out keeps the value of the latest
    /// revision; one that it sets is overwritten, also with an empty value.
    /// New content is given as what the content store reported for it. The
    /// file gets one `Update` revision, which is returned, and its state
    /// takes the revision's name and the time. A request that sets nothing
    /// writes nothing and returns `None`.
    ///
    /// Fails with `NotFound` if the container has no such file or the file
    /// is deleted, with `Conflict` if a name is set and a live file of the
    /// container has it, with `StorageFailure` if the store cannot take the
    /// write. A failure changes nothing.
    pub fn update(
        store: &mut FileStore,
        site_id: i64,
        page_id: i64,
        file_id: String,
        input: UpdateFile,
        now: i64,
    ) -> (r: Result<Option<FileRevision>, Error>)
        requires
            old(store).wf(),
        ensures
            final(store).wf(),
            match r {
                Ok(Some(revision)) => {
                    &&& update_error(old(store)@, page_id, file_id@, input) is None
                    &&& !is_empty_change(input.body)
                    &&& revision@ == updated_revision(
                        old(store)@.files[file_index(old(store)@.files, file_id@)],
                        site_id,
                        input,
                        now,
                    )
                    &&& final(store)@ == after_update(old(store)@, site_id, file_id@, input, now)
                },
                Ok(None) => {
                    &&& update_error(old(store)@, page_id, file_id@, input) is None
                    &&& is_empty_change(input.body)
                    &&& final(store)@ == old(store)@
                },
                Err(e) => {
                    &&& update_error(old(store)@, page_id, file_id@, input) == Some(e)
                    &&& final(store)@ == old(store)@
                },
            },
    {
        let k = match Self::locate_live(store, page_id, file_id.as_str()) {
            Ok(k) => k,
            Err(e) => {
                return Err(e);
            },
        };
        let ghost entry = store@.files[k as int];
        assert(entry_wf(entry));
        match &input.body.name {
            ProvidedValue::Provided(name) => {
                match Self::check_conflicts(store, page_id, name.as_str()) {
                    Ok(()) => {},
                    Err(e) => {
                        return Err(e);
                    },
                }
            },
            ProvidedValue::Unset => {},
        }
        if !input.body.name.is_provided() && !input.body.blob.is_provided()
            && !input.body.licensing.is_provided() {
            return Ok(None);
        }
        let previous = store.revision_at(k, store.chain_len(k) - 1);
        let meta = RevisionMeta {
            site_id,
            user_id: input.user_id,
            comments: input.revision_comments,
            created_at: now,
        };
        let revision = match FileRevisionService::create_update(previous, meta, input.body) {
            Ok(revision) => revision,
            Err(e) => {
                return Err(e);
            },
        };
        if !store.can_count(&revision.s3_hash) {
            return Err(Error::StorageFailure);
        }
        let mut file = store.file_at(k).duplicate();
        file.name = revision.name.clone();
        file.updated_at = Some(now);
        let output = revision.duplicate();
        store.append(k, file, revision);
        Ok(Some(output))
    }

    /// Moves a file from its container to another, at the time `now`,
    /// under the name the request gives or else under its own.
    ///
    /// The file gets one `Move` revision, which records the destination
    /// as its container and is returned; the revisions before it keep the
    /// container they were written in. The file's state takes the
    /// destination, the name and the time.
    ///
    /// Fails with `NotFound` if the container to leave has no such file or
    /// the file is deleted, with `Conflict` if a live file of the
    /// destination has the name, with `StorageFailure` if the store cannot
    /// take the write. A failure changes nothing.
    pub fn move_file(store: &mut FileStore, site_id: i64, file_id: String, input: MoveFile, now: i64) -> (r:
        Result<Option<FileRevision>, Error>)
        requires
            old(store).wf(),
        ensures
            final(store).wf(),
            match r {
                Ok(moved) => {
                    &&& move_error(old(store)@, file_id@, input) is None
                    &&& moved is Some
                    &&& moved->Some_0@ == moved_revision(
                        old(store)@.files[file_index(old(store)@.files, file_id@)],
                        site_id,
                        input,
                        now,
                    )
                    &&& final(store)@ == after_move(old(store)@, site_id, file_id@, input, now)
                },
                Err(e) => {
                    &&& move_error(old(store)@, file_id@, input) == Some(e)
                    &&& final(store)@ == old(store)@
                },
            },
    {
        let k = match Self::locate_live(store, input.current_page_id, file_id.as_str()) {
            Ok(k) => k,
            Err(e) => {
                return Err(e);
            },
        };
        let ghost entry = store@.files[k as int];
        assert(entry_wf(entry));
        let previous = store.revision_at(k, store.chain_len(k) - 1);
        let name = match input.name {
            Some(name) => name,
            None => previous.name.clone(),
        };
        match Self::check_conflicts(store, input.destination_page_id, name.as_str()) {
            Ok(()) => {},
            Err(e) => {
                return Err(e);
            },
        }
        let meta = RevisionMeta {
            site_id,
            user_id: input.user_id,
            comments: input.revision_comments,
            created_at: now,
        };
        let revision = match FileRevisionService::create_move(
            previous,
            meta,
            input.destination_page_id,
            name,
        ) {
            Ok(revision) => revision,
            Err(e) => {
                return Err(e);
            },
        };
        if !store.can_count(&revision.s3_hash) {
            return Err(Error::StorageFailure);
        }
        let mut file = store.file_at(k).duplicate();
        file.name = revision.name.clone();
        file.page_id = input.destination_page_id;
        file.updated_at = Some(now);
        let output = revision.duplicate();
        store.append(k, file, revision);
        Ok(Some(output))
    }

    /// Deletes a file, at the time `now`. The deletion is soft: the file
    /// gets one `Tombstone` revision, which carries name and content over,
    /// and is marked deleted; nothing is removed, and the file's name is
    /// free again for the live files of its container. The file's new
    /// state is returned.
    ///
    /// Fails with `NotFound` if the container has no such file or the file
    /// is deleted already, with `StorageFailure` if the store cannot take
    /// the write. A failure changes nothing.
    pub fn delete(store: &mut FileStore, page_id: i64, file_id: String, input: DeleteFile, now: i64) -> (r:
        Result<FileModel, Error>)
        requires
            old(store).wf(),
        ensures
            final(store).wf(),
            match r {
                Ok(file) => {
                    &&& delete_error(old(store)@, page_id, file_id@) is None
                    &&& file@ == deleted_file(
                        old(store)@.files[file_index(old(store)@.files, file_id@)],
                        now,
                    )
                    &&& final(store)@ == after_delete(old(store)@, file_id@, input, now)
                },
                Err(e) => {
                    &&& delete_error(old(store)@, page_id, file_id@) == Some(e)
                    &&& final(store)@ == old(store)@
                },
            },
    {
        let k = match Self::locate_live(store, page_id, file_id.as_str()) {
            Ok(k) => k,
            Err(e) => {
                return Err(e);
            },
        };
        let ghost entry = store@.files[k as int];
        assert(entry_wf(entry));
        let previous = store.revision_at(k, store.chain_len(k) - 1);
        let meta = RevisionMeta {
            site_id: input.site_id,
            user_id: input.user_id,
            comments: input.revision_comments,
            created_at: now,
        };
        let revision = match FileRevisionService::create_tombstone(previous, meta) {
            Ok(revision) => revision,
            Err(e) => {
                return Err(e);
            },
        };
        if !store.can_count(&revision.s3_hash) {
            return Err(Error::StorageFailure);
        }
        let mut file = store.file_at(k).duplicate();
        file.deleted_at = Some(now);
        let output = file.duplicate();
        store.append(k, file, revision);
        Ok(output)
    }

    /// Brings a deleted file back, at the time `now`, into the container
    /// and under the name it had. The file gets one `Restore` revision
    /// after its tombstone and is live again. The file's new state is
    /// returned.
    ///
    /// Fails with `NotFound` if the store has no such file or the file is
    /// not deleted, with `Conflict` if a live file has taken the name in
    /// that container since, with `StorageFailure` if the store cannot take
    /// the write. A failure changes nothing: the file stays deleted.
    pub fn restore(store: &mut FileStore, file_id: String, input: RestoreFile, now: i64) -> (r: Result<
        FileModel,
        Error,
    >)
        requires
            old(store).wf(),
        ensures
            final(store).wf(),
            match r {
                Ok(file) => {
                    &&& restore_error(old(store)@, file_id@) is None
                    &&& file@ == restored_file(
                        old(store)@.files[file_index(old(store)@.files, file_id@)],
                    )
                    &&& final(store)@ == after_restore(old(store)@, file_id@, input, now)
                },
                Err(e) => {
                    &&& restore_error(old(store)@, file_id@) == Some(e)
                    &&& final(store)@ == old(store)@
                },
            },
    {
        let k = match store.find(file_id.as_str()) {
            Some(k) => k,
            None => {
                return Err(Error::NotFound);
            },
        };
        let ghost entry = store@.files[k as int];
        assert(entry_wf(entry));
        if store.file_at(k).deleted_at.is_none() {
            return Err(Error::NotFound);
        }
        match Self::check_conflicts(store, store.file_at(k).page_id, store.file_at(k).name.as_str()) {
            Ok(()) => {},
            Err(e) => {
                return Err(e);
            },
        }
        let previous = store.revision_at(k, store.chain_len(k) - 1);
        let meta = RevisionMeta {
            site_id: input.site_id,
            user_id: input.user_id,
            comments: input.revision_comments,
            created_at: now,
        };
        let revision = match FileRevisionService::create_restore(previous, meta) {
            Ok(revision) => revision,
            Err(e) => {
                return Err(e);
            },
        };
        if !store.can_count(&revision.s3_hash) {
            return Err(Error::StorageFailure);
        }
        let mut file = store.file_at(k).duplicate();
        file.deleted_at = None;
        let output = file.duplicate();
        store.append(k, file, revision);
        Ok(output)
    }

    /// The file with the identifier in the container, deleted or not, if
    /// there is one.
    pub fn get_optional(store: &FileStore, page_id: i64, file_id: &str) -> (r: Option<FileModel>)
        requires
            store.wf(),
        ensures
            match r {
                Some(file) => lookup_in(store@, page_id, file_id@) is Some && file@ == lookup_in(
                    store@,
                    page_id,
                    file_id@,
                )->Some_0.file,
                None => lookup_in(store@, page_id, file_id@) is None,
            },
    {
        match store.find(file_id) {
            None => None,
            Some(k) => {
                let file = store.file_at(k);
                if file.page_id == page_id {
                    Some(file.duplicate())
                } else {
                    None
                }
            },
        }
    }

    /// The file with the identifier in the container, deleted or not, or
    /// `NotFound`.
    pub fn get(store: &FileStore, page_id: i64, file_id: &str) -> (r: Result<FileModel, Error>)
        requires
            store.wf(),
        ensures
            match r {
                Ok(file) => lookup_in(store@, page_id, file_id@) is Some && file@ == lookup_in(
                    store@,
                    page_id,
                    file_id@,
                )->Some_0.file,
                Err(e) => e == Error::NotFound && lookup_in(store@, page_id, file_id@) is None,
            },
    {
        match Self::get_optional(store, page_id, file_id) {
            Some(file) => Ok(file),
            None => Err(Error::NotFound),
        }
    }

    /// Whether the container has a file with the identifier, deleted or
    /// not.
    pub fn exists_in_page(store: &FileStore, page_id: i64, file_id: &str) -> (r: bool)
        requires
            store.wf(),
        ensures
            r == (lookup_in(store@, page_id, file_id@) is Some),
    {
        Self::get_optional(store, page_id, file_id).is_some()
    }

    /// The file with the identifier, in whatever container, deleted or
    /// not, if there is one.
    pub fn get_direct_optional(store: &FileStore, file_id: &str) -> (r: Option<FileModel>)
        requires
            store.wf(),
        ensures
            match r {
                Some(file) => lookup(store@, file_id@) is Some && file@ == lookup(
                    store@,
                    file_id@,
                )->Some_0.file,
                None => lookup(store@, file_id@) is None,
            },
    {
        match store.find(file_id) {
            None => None,
            Some(k) => Some(store.file_at(k).duplicate()),
        }
    }

    /// The file with the identifier, in whatever container, deleted or
    /// not, or `NotFound`.
    pub fn get_direct(store: &FileStore, file_id: &str) -> (r: Result<FileModel, Error>)
        requires
            store.wf(),
        ensures
            match r {
                Ok(file) => lookup(store@, file_id@) is Some && file@ == lookup(
                    store@,
                    file_id@,
                )->Some_0.file,
                Err(e) => e == Error::NotFound && lookup(store@, file_id@) is None,
            },
    {
        match Self::get_direct_optional(store, file_id) {
            Some(file) => Ok(file),
            None => Err(Error::NotFound),
        }
    }

    /// Whether the store has a file with the identifier, deleted or not.
    pub fn exists_direct(store: &FileStore, file_id: &str) -> (r: bool)
        requires
            store.wf(),
        ensures
            r == (lookup(store@, file_id@) is Some),
    {
        Self::get_direct_optional(store, file_id).is_some()
    }
    /// Removes for good the content of a file and every file that ever
    /// had that content. This is for staff only: the caller has made sure
    /// of that before the call.
    ///
    /// The content is that of the file's latest revision. Every file of
    /// which some revision points to its digest is removed with its whole
    /// chain, deleted or not; nothing of them can be restored. The content
    /// records are counted anew, and one that no revision points to any
    /// more is removed. The result names the digest, the files removed and
    /// the digests of the records removed.
    ///
    /// Fails with `NotFound` if the store has no such file, and then
    /// changes nothing.
    pub fn hard_delete_all(store: &mut FileStore, file_id: &str) -> (r: Result<HardDeleteOutput, Error>)
        requires
            old(store).wf(),
        ensures
            final(store).wf(),
            match r {
                Ok(output) => {
                    &&& lookup(old(store)@, file_id@) is Some
                    &&& output.hash@ == lookup(old(store)@, file_id@)->Some_0.revisions.last().s3_hash
                    &&& final(store)@ == purged(old(store)@, output.hash@)
                    &&& texts_of(output.files@) == ids_with(old(store)@.files, output.hash@)
                    &&& bytes_of(output.blobs@) == unreferenced(
                        old(store)@.blobs,
                        final(store)@.files,
                    )
                },
                Err(e) => {
                    &&& e == Error::NotFound
                    &&& lookup(old(store)@, file_id@) is None
                    &&& final(store)@ == old(store)@
                },
            },
    {
        let k = match store.find(file_id) {
            Some(k) => k,
            None => {
                return Err(Error::NotFound);
            },
        };
        assert(entry_wf(store@.files[k as int]));
        let hash = crate::blob::copy_bytes(&store.revision_at(k, store.chain_len(k) - 1).s3_hash);
        let (files, blobs) = store.purge(&hash);
        Ok(HardDeleteOutput { hash, files, blobs })
    }
}

} // verus!
