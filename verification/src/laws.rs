//! What holds of the operations, whatever the store and the request.

use vstd::prelude::*;
use crate::blob::CreateBlobOutput;
use crate::error::Error;
use crate::file::FileView;
use crate::purge::lemma_files_without_keeps;
use crate::purge::lemma_files_without_members;
use crate::purge::lemma_files_without_totals;
use crate::purge::lemma_purged_wf;
use crate::purge::lemma_recounted_members;
use crate::purge::lemma_unreferenced_members;
use crate::purge::unreferenced;
use crate::purge::points_to;
use crate::purge::purged;
use crate::revision::latest_revision;
use crate::revision::RevisionKind;
use crate::revision::RevisionView;
use crate::service::after_create;
use crate::service::after_delete;
use crate::service::after_move;
use crate::service::after_restore;
use crate::service::after_update;
use crate::service::create_error;
use crate::service::created_file;
use crate::service::created_revision;
use crate::service::delete_error;
use crate::service::is_empty_change;
use crate::service::lookup;
use crate::service::lookup_in;
use crate::service::move_error;
use crate::service::moved_revision;
use crate::service::restore_error;
use crate::service::update_error;
use crate::service::updated_revision;
use crate::service::CreateFile;
use crate::service::DeleteFile;
use crate::service::MoveFile;
use crate::service::RestoreFile;
use crate::service::UpdateFile;
use crate::store::appended;
use crate::store::blob_index;
use crate::store::entry_wf;
use crate::store::file_index;
use crate::store::files_distinct;
use crate::store::has_blob;
use crate::store::has_file;
use crate::store::is_live;
use crate::store::lemma_appended_wf;
use crate::store::lemma_count_positive;
use crate::store::lemma_count_push;
use crate::store::lemma_total_bounds;
use crate::store::lemma_inserted_wf;
use crate::store::lemma_total_push;
use crate::store::name_taken;
use crate::store::store_wf;
use crate::store::total_refs;
use crate::store::EntryView;
use crate::store::StoreState;

verus! {

/// In a valid store an identifier belongs to one position only: whoever
/// has it is the file that `file_index` names.
pub proof fn lemma_index_is_unique(s: StoreState, k: int)
    requires
        files_distinct(s.files),
        0 <= k < s.files.len(),
    ensures
        has_file(s.files, s.files[k].file.file_id),
        file_index(s.files, s.files[k].file.file_id) == k,
{
    let file_id = s.files[k].file.file_id;
    assert(s.files[k].file.file_id == file_id);
    let j = file_index(s.files, file_id);
    assert(s.files[j].file.file_id == file_id);
}

/// A created file is found under its identifier, at the end of the files.
pub proof fn lemma_created_is_found(
    s: StoreState,
    page_id: i64,
    input: CreateFile,
    blob: CreateBlobOutput,
    file_id: Seq<char>,
    now: i64,
)
    requires
        store_wf(s),
        create_error(s, page_id, input, blob, file_id) is None,
    ensures
        store_wf(after_create(s, page_id, input, blob, file_id, now)),
        lookup(after_create(s, page_id, input, blob, file_id, now), file_id) == Some(
            EntryView {
                file: created_file(page_id, input, file_id, now),
                revisions: seq![created_revision(page_id, input, blob, file_id, now)],
            },
        ),
{
    let file = created_file(page_id, input, file_id, now);
    let first = created_revision(page_id, input, blob, file_id, now);
    let after = after_create(s, page_id, input, blob, file_id, now);
    let chain = seq![first];
    assert(chain[0] == first);
    assert(chain.last() == first);
    assert(entry_wf(EntryView { file, revisions: chain }));
    lemma_inserted_wf(s, file, first);
    let k = s.files.len() as int;
    assert(after.files[k].file.file_id == file_id);
    lemma_index_is_unique(after, k);
}

/// Appending to a file's chain moves no file: every identifier is found
/// where it was.
pub proof fn lemma_append_keeps_positions(
    s: StoreState,
    k: int,
    file: FileView,
    next: RevisionView,
    file_id: Seq<char>,
)
    requires
        files_distinct(s.files),
        0 <= k < s.files.len(),
        file.file_id == s.files[k].file.file_id,
    ensures
        has_file(appended(s, k, file, next).files, file_id) == has_file(s.files, file_id),
        has_file(s.files, file_id) ==> file_index(appended(s, k, file, next).files, file_id)
            == file_index(s.files, file_id),
{
    let after = appended(s, k, file, next).files;
    assert forall|i: int| 0 <= i < s.files.len() implies (#[trigger] after[i]).file.file_id
        == s.files[i].file.file_id by {}
    if has_file(s.files, file_id) {
        let i = file_index(s.files, file_id);
        assert(s.files[i].file.file_id == file_id);
        assert(after[i].file.file_id == file_id);
        let j = file_index(after, file_id);
        assert(after[j].file.file_id == file_id);
        assert(s.files[j].file.file_id == file_id);
    }
    if has_file(after, file_id) {
        let j = file_index(after, file_id);
        assert(after[j].file.file_id == file_id);
        assert(s.files[j].file.file_id == file_id);
    }
}

/// Two files made from the same content are two files with one content
/// record between them: after two successful `create` calls whose content
/// has the same digest, the identifiers differ, both files are there, only
/// one record has the digest, and it counts two revisions more than
/// pointed to the digest before. In a store that had no revision with the
/// digest, the count is 2.
pub proof fn law_same_content_is_stored_once(
    s: StoreState,
    page_a: i64,
    input_a: CreateFile,
    blob_a: CreateBlobOutput,
    id_a: Seq<char>,
    now_a: i64,
    page_b: i64,
    input_b: CreateFile,
    blob_b: CreateBlobOutput,
    id_b: Seq<char>,
    now_b: i64,
)
    requires
        store_wf(s),
        blob_a.hash@ == blob_b.hash@,
        create_error(s, page_a, input_a, blob_a, id_a) is None,
        create_error(
            after_create(s, page_a, input_a, blob_a, id_a, now_a),
            page_b,
            input_b,
            blob_b,
            id_b,
        ) is None,
    ensures
        ({
            let middle = after_create(s, page_a, input_a, blob_a, id_a, now_a);
            let after = after_create(middle, page_b, input_b, blob_b, id_b, now_b);
            let hash = blob_a.hash@;
            &&& id_a != id_b
            &&& lookup(after, id_a) is Some
            &&& lookup(after, id_b) is Some
            &&& has_blob(after.blobs, hash)
            &&& forall|k: int|
                0 <= k < after.blobs.len() && (#[trigger] after.blobs[k]).hash == hash ==> k
                    == blob_index(after.blobs, hash)
            &&& after.blobs[blob_index(after.blobs, hash)].references == total_refs(s.files, hash)
                + 2
            &&& !has_blob(s.blobs, hash) ==> after.blobs[blob_index(after.blobs, hash)].references
                == 2
        }),
{
    let middle = after_create(s, page_a, input_a, blob_a, id_a, now_a);
    let after = after_create(middle, page_b, input_b, blob_b, id_b, now_b);
    let hash = blob_a.hash@;
    let first_a = created_revision(page_a, input_a, blob_a, id_a, now_a);
    let first_b = created_revision(page_b, input_b, blob_b, id_b, now_b);
    lemma_created_is_found(s, page_a, input_a, blob_a, id_a, now_a);
    lemma_created_is_found(middle, page_b, input_b, blob_b, id_b, now_b);
    assert(has_file(middle.files, id_a));
    let position_a = s.files.len() as int;
    assert(after.files[position_a].file.file_id == id_a);
    lemma_index_is_unique(after, position_a);
    let entry_a = EntryView { file: created_file(page_a, input_a, id_a, now_a), revisions: seq![first_a] };
    let entry_b = EntryView { file: created_file(page_b, input_b, id_b, now_b), revisions: seq![first_b] };
    lemma_total_push(s.files, entry_a, hash);
    lemma_total_push(middle.files, entry_b, hash);
    lemma_count_push(Seq::<RevisionView>::empty(), first_a, hash);
    lemma_count_push(Seq::<RevisionView>::empty(), first_b, hash);
    assert(seq![first_a] =~= Seq::<RevisionView>::empty().push(first_a));
    assert(seq![first_b] =~= Seq::<RevisionView>::empty().push(first_b));
    assert(total_refs(after.files, hash) == total_refs(s.files, hash) + 2);
    assert(has_blob(after.blobs, hash));
    let record = blob_index(after.blobs, hash);
    assert(after.blobs[record].hash == hash);
    if !has_blob(s.blobs, hash) {
        if total_refs(s.files, hash) > 0 {
            assert(has_blob(s.blobs, hash));
        }
    }
}

/// Whether the revision at position `j` of a chain, if it is a
/// `Tombstone`, is the last one or is followed directly by a `Restore`.
pub open spec fn tombstone_settled(chain: Seq<RevisionView>, j: int) -> bool {
    chain[j].kind == RevisionKind::Tombstone ==> j == chain.len() - 1 || chain[j + 1].kind
        == RevisionKind::Restore
}

/// The shape of every file's history: its revisions are numbered 1, 2, 3
/// and so on without a gap; the first is of kind `First`; and a
/// `Tombstone` is the last revision or is followed directly by a
/// `Restore`.
pub proof fn law_chain_shape(s: StoreState, i: int)
    requires
        store_wf(s),
        0 <= i < s.files.len(),
    ensures
        s.files[i].revisions.len() >= 1,
        forall|j: int|
            0 <= j < s.files[i].revisions.len() ==> (#[trigger] s.files[i].revisions[j]).revision_number
                == j + 1,
        s.files[i].revisions[0].kind == RevisionKind::First,
        forall|j: int|
            0 <= j < s.files[i].revisions.len() ==> #[trigger] tombstone_settled(
                s.files[i].revisions,
                j,
            ),
{
    let chain = s.files[i].revisions;
    assert(entry_wf(s.files[i]));
    assert forall|j: int| 0 <= j < chain.len() implies #[trigger] tombstone_settled(chain, j) by {
        if j < chain.len() - 1 {
            let next = j + 1;
            assert(chain[j].kind == RevisionKind::Tombstone <==> chain[next].kind
                == RevisionKind::Restore);
        }
    }
}

/// The state kept beside a chain is that of the chain's latest revision:
/// the file has its name and container, and is marked deleted exactly when
/// that revision is a tombstone.
pub proof fn law_file_mirrors_latest(s: StoreState, i: int)
    requires
        store_wf(s),
        0 <= i < s.files.len(),
    ensures
        s.files[i].file.name == s.files[i].revisions.last().name,
        s.files[i].file.page_id == s.files[i].revisions.last().page_id,
        s.files[i].file.deleted_at is Some <==> s.files[i].revisions.last().kind
            == RevisionKind::Tombstone,
{
    assert(entry_wf(s.files[i]));
}

/// An update that sets new content and leaves the name out appends a
/// revision with the name of the revision before it and the digest of the
/// new content.
pub proof fn law_update_keeps_what_is_unset(
    entry: EntryView,
    site_id: i64,
    input: UpdateFile,
    blob: CreateBlobOutput,
    now: i64,
)
    requires
        input.body.name is Unset,
        input.body.blob == crate::value::ProvidedValue::Provided(blob),
    ensures
        updated_revision(entry, site_id, input, now).name == entry.revisions.last().name,
        updated_revision(entry, site_id, input, now).s3_hash == blob.hash@,
        updated_revision(entry, site_id, input, now).kind == RevisionKind::Update,
        updated_revision(entry, site_id, input, now).revision_number
            == entry.revisions.last().revision_number + 1,
{
}

/// After a move, the file's latest revision in the destination is the
/// `Move` revision, which has the destination as its container, and the
/// file's current container is the destination. Where the destination is
/// another container than the one left, the latest revision there is still
/// the one that was latest before the move.
pub proof fn law_move_then_latest(s: StoreState, site_id: i64, file_id: Seq<char>, input: MoveFile, now: i64)
    requires
        store_wf(s),
        move_error(s, file_id, input) is None,
    ensures
        ({
            let after = after_move(s, site_id, file_id, input, now);
            let entry = s.files[file_index(s.files, file_id)];
            let written = moved_revision(entry, site_id, input, now);
            &&& store_wf(after)
            &&& written.kind == RevisionKind::Move
            &&& written.page_id == input.destination_page_id
            &&& latest_revision(after, input.destination_page_id, file_id) == Some(written)
            &&& lookup(after, file_id) is Some
            &&& lookup(after, file_id)->Some_0.file.page_id == input.destination_page_id
            &&& input.destination_page_id != input.current_page_id ==> latest_revision(
                after,
                input.current_page_id,
                file_id,
            ) == Some(entry.revisions.last())
            &&& latest_revision(s, input.current_page_id, file_id) == Some(entry.revisions.last())
        }),
{
    let k = file_index(s.files, file_id);
    let entry = s.files[k];
    let written = moved_revision(entry, site_id, input, now);
    let file = FileView {
        name: written.name,
        page_id: input.destination_page_id,
        updated_at: Some(now),
        ..entry.file
    };
    let after = after_move(s, site_id, file_id, input, now);
    assert(has_file(s.files, file_id));
    assert(s.files[k].file.file_id == file_id);
    assert(entry_wf(entry));
    lemma_appended_wf(s, k, file, written);
    lemma_append_keeps_positions(s, k, file, written, file_id);
    let chain = entry.revisions;
    assert(after.files[k].revisions == chain.push(written));
    assert(chain.push(written).drop_last() =~= chain);
    assert(chain.push(written).last() == written);
}

/// After a delete, the file is marked deleted and its chain ends in a
/// `Tombstone` that follows all it had; its name is free in the container;
/// and the file is still found under its identifier, there and directly.
pub proof fn law_delete_frees_the_name(
    s: StoreState,
    page_id: i64,
    file_id: Seq<char>,
    input: DeleteFile,
    now: i64,
)
    requires
        store_wf(s),
        delete_error(s, page_id, file_id) is None,
    ensures
        ({
            let after = after_delete(s, file_id, input, now);
            let before = s.files[file_index(s.files, file_id)];
            &&& store_wf(after)
            &&& lookup(after, file_id) is Some
            &&& lookup_in(after, page_id, file_id) is Some
            &&& lookup(after, file_id)->Some_0.file.deleted_at == Some(now)
            &&& lookup(after, file_id)->Some_0.revisions.drop_last() == before.revisions
            &&& lookup(after, file_id)->Some_0.revisions.last().kind == RevisionKind::Tombstone
            &&& lookup(after, file_id)->Some_0.revisions.last().name == before.file.name
            &&& lookup(after, file_id)->Some_0.revisions.last().s3_hash
                == before.revisions.last().s3_hash
            &&& !name_taken(after.files, page_id, before.file.name)
        }),
{
    let k = file_index(s.files, file_id);
    let before = s.files[k];
    let after = after_delete(s, file_id, input, now);
    let file = crate::service::deleted_file(before, now);
    let next = after.files[k].revisions.last();
    assert(has_file(s.files, file_id));
    assert(s.files[k].file.file_id == file_id);
    assert(entry_wf(before));
    let written = crate::revision::tombstone_of(
        before.revisions.last(),
        crate::service::meta_of(input.site_id, input.user_id, input.revision_comments, now),
    );
    lemma_appended_wf(s, k, file, written);
    lemma_append_keeps_positions(s, k, file, written, file_id);
    assert(after.files[k].revisions == before.revisions.push(written));
    assert(before.revisions.push(written).drop_last() =~= before.revisions);
    if name_taken(after.files, page_id, before.file.name) {
        let j = choose|j: int|
            0 <= j < after.files.len() && is_live(#[trigger] after.files[j])
                && after.files[j].file.page_id == page_id && after.files[j].file.name
                == before.file.name;
        assert(j != k);
        assert(after.files[j] == s.files[j]);
        assert(is_live(s.files[j]) && is_live(s.files[k]));
        assert(false);
    }
}

/// Restoring a deleted file whose name a live file has taken in its
/// container is refused with `Conflict`. Restoring one whose name is free
/// makes it live again and ends its chain in a `Restore` that follows all
/// it had, the tombstone last.
pub proof fn law_restore_reverses_delete(s: StoreState, file_id: Seq<char>, input: RestoreFile, now: i64)
    requires
        store_wf(s),
        lookup(s, file_id) is Some,
        !is_live(lookup(s, file_id)->Some_0),
    ensures
        ({
            let before = lookup(s, file_id)->Some_0;
            let after = after_restore(s, file_id, input, now);
            &&& before.revisions.last().kind == RevisionKind::Tombstone
            &&& name_taken(s.files, before.file.page_id, before.file.name) ==> restore_error(
                s,
                file_id,
            ) == Some(Error::Conflict)
            &&& restore_error(s, file_id) is None ==> {
                &&& store_wf(after)
                &&& lookup(after, file_id) is Some
                &&& lookup(after, file_id)->Some_0.file.deleted_at is None
                &&& lookup(after, file_id)->Some_0.file.name == before.file.name
                &&& lookup(after, file_id)->Some_0.file.page_id == before.file.page_id
                &&& lookup(after, file_id)->Some_0.revisions.drop_last() == before.revisions
                &&& lookup(after, file_id)->Some_0.revisions.last().kind == RevisionKind::Restore
            }
        }),
{
    let k = file_index(s.files, file_id);
    let before = s.files[k];
    assert(s.files[k].file.file_id == file_id);
    assert(entry_wf(before));
    if restore_error(s, file_id) is None {
        let after = after_restore(s, file_id, input, now);
        let file = crate::service::restored_file(before);
        let written = crate::revision::restore_of(
            before.revisions.last(),
            crate::service::meta_of(input.site_id, input.user_id, input.revision_comments, now),
        );
        lemma_appended_wf(s, k, file, written);
        lemma_append_keeps_positions(s, k, file, written, file_id);
        assert(after.files[k].revisions == before.revisions.push(written));
        assert(before.revisions.push(written).drop_last() =~= before.revisions);
    }
}

/// After a hard delete of a file's content the store is valid, the file is
/// gone, no revision points to the digest, and no content record has it.
pub proof fn law_hard_delete_leaves_no_trace(s: StoreState, file_id: Seq<char>)
    requires
        store_wf(s),
        lookup(s, file_id) is Some,
    ensures
        ({
            let hash = lookup(s, file_id)->Some_0.revisions.last().s3_hash;
            let after = purged(s, hash);
            &&& store_wf(after)
            &&& lookup(after, file_id) is None
            &&& total_refs(after.files, hash) == 0
            &&& !has_blob(after.blobs, hash)
        }),
{
    let k = file_index(s.files, file_id);
    let entry = s.files[k];
    let hash = entry.revisions.last().s3_hash;
    let after = purged(s, hash);
    assert(entry_wf(entry));
    lemma_purged_wf(s, hash);
    lemma_files_without_totals(s.files, hash, hash);
    lemma_count_positive(entry.revisions, entry.revisions.len() - 1);
    if has_file(after.files, file_id) {
        let i = file_index(after.files, file_id);
        lemma_files_without_members(s.files, hash, i);
        let j = choose|j: int| 0 <= j < s.files.len() && s.files[j] == after.files[i];
        assert(s.files[j].file.file_id == file_id);
        assert(j == k);
        assert(false);
    }
    if has_blob(after.blobs, hash) {
        let l = blob_index(after.blobs, hash);
        lemma_recounted_members(s.blobs, after.files, l);
        assert(false);
    }
}

/// Content is reported for removal only when nothing points to it: of
/// every digest that a hard delete reports as unreferenced, the store
/// afterwards holds no revision and no record.
pub proof fn law_only_unreferenced_content_is_dropped(s: StoreState, hash: Seq<u8>, k: int)
    requires
        store_wf(s),
        0 <= k < unreferenced(s.blobs, purged(s, hash).files).len(),
    ensures
        total_refs(purged(s, hash).files, unreferenced(s.blobs, purged(s, hash).files)[k]) == 0,
        !has_blob(purged(s, hash).blobs, unreferenced(s.blobs, purged(s, hash).files)[k]),
{
    let after = purged(s, hash);
    let digest = unreferenced(s.blobs, after.files)[k];
    lemma_unreferenced_members(s.blobs, after.files, k);
    if has_blob(after.blobs, digest) {
        let l = blob_index(after.blobs, digest);
        lemma_recounted_members(s.blobs, after.files, l);
        assert(false);
    }
}

/// Every revision's content is on record and counted: the digest of any
/// revision of any file has a content record, and that record counts
/// exactly the revisions, over all files, that point to the digest.
pub proof fn law_content_is_counted(s: StoreState, i: int, j: int)
    requires
        store_wf(s),
        0 <= i < s.files.len(),
        0 <= j < s.files[i].revisions.len(),
    ensures
        has_blob(s.blobs, s.files[i].revisions[j].s3_hash),
        s.blobs[blob_index(s.blobs, s.files[i].revisions[j].s3_hash)].references == total_refs(
            s.files,
            s.files[i].revisions[j].s3_hash,
        ),
        total_refs(s.files, s.files[i].revisions[j].s3_hash) >= 1,
{
    let hash = s.files[i].revisions[j].s3_hash;
    lemma_count_positive(s.files[i].revisions, j);
    lemma_total_bounds(s.files, i, hash);
    assert(has_blob(s.blobs, hash));
    assert(s.blobs[blob_index(s.blobs, hash)].hash == hash);
}

/// An update that writes appends exactly one revision to the file's chain,
/// the one that `update` returns, and gives the file that revision's name;
/// the file stays where it is and stays live.
pub proof fn law_update_appends_one_revision(
    s: StoreState,
    site_id: i64,
    page_id: i64,
    file_id: Seq<char>,
    input: UpdateFile,
    now: i64,
)
    requires
        store_wf(s),
        update_error(s, page_id, file_id, input) is None,
        !is_empty_change(input.body),
    ensures
        ({
            let before = s.files[file_index(s.files, file_id)];
            let written = updated_revision(before, site_id, input, now);
            let after = after_update(s, site_id, file_id, input, now);
            &&& store_wf(after)
            &&& lookup(after, file_id) is Some
            &&& lookup(after, file_id)->Some_0.revisions == before.revisions.push(written)
            &&& lookup(after, file_id)->Some_0.file.name == written.name
            &&& lookup(after, file_id)->Some_0.file.page_id == page_id
            &&& lookup(after, file_id)->Some_0.file.updated_at == Some(now)
            &&& is_live(lookup(after, file_id)->Some_0)
            &&& after.files.len() == s.files.len()
        }),
{
    let k = file_index(s.files, file_id);
    let before = s.files[k];
    let written = updated_revision(before, site_id, input, now);
    let file = FileView { name: written.name, updated_at: Some(now), ..before.file };
    assert(has_file(s.files, file_id));
    assert(s.files[k].file.file_id == file_id);
    assert(entry_wf(before));
    lemma_appended_wf(s, k, file, written);
    lemma_append_keeps_positions(s, k, file, written, file_id);
}

/// A hard delete leaves alone every file that never had the content: such
/// a file is found afterwards with the state and the chain it had.
pub proof fn law_hard_delete_spares_other_content(s: StoreState, hash: Seq<u8>, j: int)
    requires
        store_wf(s),
        0 <= j < s.files.len(),
        !points_to(s.files[j], hash),
    ensures
        lookup(purged(s, hash), s.files[j].file.file_id) == Some(s.files[j]),
{
    let after = purged(s, hash);
    lemma_purged_wf(s, hash);
    lemma_files_without_keeps(s.files, hash, j);
    let i = choose|i: int| 0 <= i < after.files.len() && after.files[i] == s.files[j];
    lemma_index_is_unique(after, i);
}

} // verus!
