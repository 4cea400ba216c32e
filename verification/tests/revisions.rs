use deepwell::blob::same_bytes;
use deepwell::blob::BlobModel;
use deepwell::blob::CreateBlobOutput;
use deepwell::error::Error;
use deepwell::file::FileModel;
use deepwell::revision::FileChanges;
use deepwell::revision::FileRevision;
use deepwell::revision::FileRevisionService;
use deepwell::revision::RevisionKind;
use deepwell::revision::RevisionMeta;
use deepwell::value::ProvidedValue;

fn meta(comments: &str, at: i64) -> RevisionMeta {
    RevisionMeta { site_id: 3, user_id: 4, comments: String::from(comments), created_at: at }
}

fn first() -> FileRevision {
    FileRevisionService::create_first(
        meta("first", 100),
        String::from("file-1"),
        11,
        String::from("a.txt"),
        CreateBlobOutput { hash: vec![1, 2, 3], mime: String::from("text/plain"), size: 3 },
        String::from("cc-by-sa"),
    )
}

fn nothing() -> FileChanges {
    FileChanges { name: ProvidedValue::Unset, blob: ProvidedValue::Unset, licensing: ProvidedValue::Unset }
}

#[test]
fn first_revision_has_number_one() {
    let revision = first();
    assert_eq!(
        revision,
        FileRevision {
            revision_number: 1,
            file_id: String::from("file-1"),
            page_id: 11,
            site_id: 3,
            user_id: 4,
            kind: RevisionKind::First,
            name: String::from("a.txt"),
            s3_hash: vec![1, 2, 3],
            mime_hint: String::from("text/plain"),
            size_hint: 3,
            licensing: String::from("cc-by-sa"),
            comments: String::from("first"),
            created_at: 100,
        }
    );
}

#[test]
fn update_carries_forward_what_is_unset() {
    let previous = first();
    let next = FileRevisionService::create_update(&previous, meta("same", 200), nothing()).unwrap();
    assert_eq!(
        next,
        FileRevision {
            revision_number: 2,
            kind: RevisionKind::Update,
            comments: String::from("same"),
            created_at: 200,
            ..previous.clone()
        }
    );
}

#[test]
fn update_overwrites_what_is_set() {
    let previous = first();
    let changes = FileChanges {
        name: ProvidedValue::Provided(String::new()),
        blob: ProvidedValue::Provided(CreateBlobOutput { hash: vec![9], mime: String::from("image/gif"), size: 1 }),
        licensing: ProvidedValue::Provided(String::from("cc0")),
    };
    let next = FileRevisionService::create_update(&previous, meta("all", 200), changes).unwrap();
    assert_eq!(next.revision_number, 2);
    assert_eq!(next.name, "");
    assert_eq!(next.s3_hash, vec![9]);
    assert_eq!(next.mime_hint, "image/gif");
    assert_eq!(next.size_hint, 1);
    assert_eq!(next.licensing, "cc0");
    assert_eq!(next.file_id, "file-1");
    assert_eq!(next.page_id, 11);
}

#[test]
fn move_changes_container_and_name_only() {
    let previous = first();
    let next = FileRevisionService::create_move(&previous, meta("go", 300), 12, String::from("b.txt")).unwrap();
    assert_eq!(
        next,
        FileRevision {
            revision_number: 2,
            kind: RevisionKind::Move,
            page_id: 12,
            name: String::from("b.txt"),
            comments: String::from("go"),
            created_at: 300,
            ..previous.clone()
        }
    );
}

#[test]
fn tombstone_and_restore_carry_everything_forward() {
    let previous = first();
    let tombstone = FileRevisionService::create_tombstone(&previous, meta("bye", 400)).unwrap();
    assert_eq!(
        tombstone,
        FileRevision {
            revision_number: 2,
            kind: RevisionKind::Tombstone,
            comments: String::from("bye"),
            created_at: 400,
            ..previous.clone()
        }
    );
    let restore = FileRevisionService::create_restore(&tombstone, meta("back", 500)).unwrap();
    assert_eq!(
        restore,
        FileRevision {
            revision_number: 3,
            kind: RevisionKind::Restore,
            comments: String::from("back"),
            created_at: 500,
            ..previous.clone()
        }
    );
}

#[test]
fn nothing_but_a_restore_follows_a_tombstone() {
    let previous = first();
    let tombstone = FileRevisionService::create_tombstone(&previous, meta("bye", 400)).unwrap();
    assert_eq!(FileRevisionService::create_update(&tombstone, meta("", 1), nothing()), Err(Error::NotFound));
    assert_eq!(FileRevisionService::create_move(&tombstone, meta("", 1), 5, String::from("x")), Err(Error::NotFound));
    assert_eq!(FileRevisionService::create_tombstone(&tombstone, meta("", 1)), Err(Error::NotFound));
    assert_eq!(FileRevisionService::create_restore(&previous, meta("", 1)), Err(Error::NotFound));
}

#[test]
fn a_chain_whose_numbers_are_used_up_takes_no_revision() {
    let last = FileRevision { revision_number: u64::MAX, ..first() };
    assert_eq!(FileRevisionService::create_update(&last, meta("", 1), nothing()), Err(Error::StorageFailure));
    assert_eq!(
        FileRevisionService::create_move(&last, meta("", 1), 5, String::from("x")),
        Err(Error::StorageFailure)
    );
    assert_eq!(FileRevisionService::create_tombstone(&last, meta("", 1)), Err(Error::StorageFailure));
    let tombstone = FileRevision { kind: RevisionKind::Tombstone, ..last };
    assert_eq!(FileRevisionService::create_restore(&tombstone, meta("", 1)), Err(Error::StorageFailure));
    let almost = FileRevision { revision_number: u64::MAX - 1, ..first() };
    assert_eq!(
        FileRevisionService::create_tombstone(&almost, meta("", 1)).map(|r| r.revision_number),
        Ok(u64::MAX)
    );
}

#[test]
fn provided_values() {
    let unset: ProvidedValue<i64> = ProvidedValue::default();
    assert_eq!(unset, ProvidedValue::Unset);
    assert!(!unset.is_provided());
    assert_eq!(unset.to_option(), None);
    let empty = ProvidedValue::Provided(String::new());
    assert!(empty.is_provided());
    assert_eq!(empty.to_option(), Some(String::new()));
}

#[test]
fn copies_are_equal() {
    let revision = first();
    assert_eq!(revision.duplicate(), revision);
    let file = FileModel {
        file_id: String::from("f"),
        name: String::from("n"),
        page_id: 1,
        created_at: 2,
        updated_at: Some(3),
        deleted_at: None,
    };
    assert_eq!(file.duplicate(), file);
    let record = BlobModel { hash: vec![1], mime: String::from("m"), size: 1, created_at: 2, references: 3 };
    assert_eq!(record.duplicate(), record);
    assert!(same_bytes(&vec![1, 2], &vec![1, 2]));
    assert!(!same_bytes(&vec![1, 2], &vec![1, 3]));
    assert!(!same_bytes(&vec![1, 2], &vec![1]));
}
