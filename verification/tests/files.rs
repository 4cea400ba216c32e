use deepwell::blob::CreateBlobOutput;
use deepwell::error::Error;
use deepwell::revision::FileChanges;
use deepwell::revision::FileRevisionService;
use deepwell::revision::RevisionKind;
use deepwell::service::CreateFile;
use deepwell::service::DeleteFile;
use deepwell::service::FileService;
use deepwell::service::MoveFile;
use deepwell::service::RestoreFile;
use deepwell::service::UpdateFile;
use deepwell::store::FileStore;
use deepwell::value::ProvidedValue;

fn blob(hash: &[u8], mime: &str) -> CreateBlobOutput {
    CreateBlobOutput { hash: hash.to_vec(), mime: String::from(mime), size: hash.len() as i64 * 100 }
}

fn request(name: &str) -> CreateFile {
    CreateFile {
        revision_comments: String::from("upload"),
        name: String::from(name),
        site_id: 1,
        user_id: 7,
        licensing: String::from("{}"),
    }
}

fn deletion() -> DeleteFile {
    DeleteFile { revision_comments: String::from("remove"), site_id: 1, user_id: 7 }
}

fn restoration() -> RestoreFile {
    RestoreFile { revision_comments: String::from("bring back"), site_id: 1, user_id: 8 }
}

fn references(store: &FileStore, hash: &[u8]) -> Option<u64> {
    let k = store.find_blob(&hash.to_vec())?;
    Some(store.blob_at(k).references)
}

#[test]
fn create_returns_the_first_revision() {
    let mut store = FileStore::new();
    let revision =
        FileService::create(&mut store, 10, request("foo.png"), blob(b"abc", "image/png"), String::from("f1"), 1000)
            .unwrap();
    assert_eq!(revision.revision_number, 1);
    assert_eq!(revision.kind, RevisionKind::First);
    assert_eq!(revision.file_id, "f1");
    assert_eq!(revision.page_id, 10);
    assert_eq!(revision.site_id, 1);
    assert_eq!(revision.user_id, 7);
    assert_eq!(revision.name, "foo.png");
    assert_eq!(revision.s3_hash, b"abc".to_vec());
    assert_eq!(revision.mime_hint, "image/png");
    assert_eq!(revision.size_hint, 300);
    assert_eq!(revision.licensing, "{}");
    assert_eq!(revision.comments, "upload");
    assert_eq!(revision.created_at, 1000);
    let file = FileService::get(&store, 10, "f1").unwrap();
    assert_eq!(file.file_id, "f1");
    assert_eq!(file.name, "foo.png");
    assert_eq!(file.page_id, 10);
    assert_eq!(file.created_at, 1000);
    assert_eq!(file.updated_at, None);
    assert_eq!(file.deleted_at, None);
    assert_eq!(store.file_count(), 1);
    assert_eq!(store.blob_count(), 1);
}

#[test]
fn same_content_twice_is_one_blob_with_two_references() {
    let mut store = FileStore::new();
    let a = FileService::create(&mut store, 10, request("a.png"), blob(b"abc", "image/png"), String::from("f1"), 1)
        .unwrap();
    let b = FileService::create(&mut store, 10, request("b.png"), blob(b"abc", "image/png"), String::from("f2"), 2)
        .unwrap();
    assert_ne!(a.file_id, b.file_id);
    assert_eq!(store.file_count(), 2);
    assert_eq!(store.blob_count(), 1);
    assert_eq!(references(&store, b"abc"), Some(2));
    let record = store.blob_at(store.find_blob(&b"abc".to_vec()).unwrap());
    assert_eq!(record.mime, "image/png");
    assert_eq!(record.size, 300);
    assert_eq!(record.created_at, 1);
}

#[test]
fn different_content_is_two_blobs() {
    let mut store = FileStore::new();
    FileService::create(&mut store, 10, request("a.png"), blob(b"abc", "image/png"), String::from("f1"), 1).unwrap();
    FileService::create(&mut store, 10, request("b.png"), blob(b"xyz", "image/png"), String::from("f2"), 2).unwrap();
    assert_eq!(store.blob_count(), 2);
    assert_eq!(references(&store, b"abc"), Some(1));
    assert_eq!(references(&store, b"xyz"), Some(1));
    assert_eq!(references(&store, b"other"), None);
}

#[test]
fn second_file_of_the_same_name_conflicts_until_the_first_is_deleted() {
    let mut store = FileStore::new();
    FileService::create(&mut store, 10, request("foo.png"), blob(b"abc", "image/png"), String::from("f1"), 1)
        .unwrap();
    let second =
        FileService::create(&mut store, 10, request("foo.png"), blob(b"xyz", "image/png"), String::from("f2"), 2);
    assert_eq!(second, Err(Error::Conflict));
    assert_eq!(store.file_count(), 1);
    assert_eq!(store.blob_count(), 1);
    FileService::delete(&mut store, 10, String::from("f1"), deletion(), 3).unwrap();
    let third =
        FileService::create(&mut store, 10, request("foo.png"), blob(b"xyz", "image/png"), String::from("f2"), 4);
    assert!(third.is_ok());
    assert_eq!(store.file_count(), 2);
}

#[test]
fn same_name_in_another_container_is_no_conflict() {
    let mut store = FileStore::new();
    FileService::create(&mut store, 10, request("foo.png"), blob(b"abc", "image/png"), String::from("f1"), 1)
        .unwrap();
    assert_eq!(FileService::check_conflicts(&store, 10, "foo.png"), Err(Error::Conflict));
    assert_eq!(FileService::check_conflicts(&store, 11, "foo.png"), Ok(()));
    assert_eq!(FileService::check_conflicts(&store, 10, "bar.png"), Ok(()));
    assert!(
        FileService::create(&mut store, 11, request("foo.png"), blob(b"abc", "image/png"), String::from("f2"), 2)
            .is_ok()
    );
}

#[test]
fn identifier_in_use_is_a_validation_error() {
    let mut store = FileStore::new();
    FileService::create(&mut store, 10, request("a.png"), blob(b"abc", "image/png"), String::from("f1"), 1).unwrap();
    let again = FileService::create(&mut store, 11, request("b.png"), blob(b"abc", "image/png"), String::from("f1"), 2);
    assert_eq!(again, Err(Error::Validation));
    assert_eq!(store.file_count(), 1);
    assert_eq!(references(&store, b"abc"), Some(1));
}

#[test]
fn update_with_new_content_keeps_the_name() {
    let mut store = FileStore::new();
    FileService::create(&mut store, 10, request("foo.png"), blob(b"abc", "image/png"), String::from("f1"), 1)
        .unwrap();
    let input = UpdateFile {
        revision_comments: String::from("new version"),
        user_id: 9,
        body: FileChanges {
            name: ProvidedValue::Unset,
            blob: ProvidedValue::Provided(blob(b"defg", "image/jpeg")),
            licensing: ProvidedValue::Unset,
        },
    };
    let revision = FileService::update(&mut store, 2, 10, String::from("f1"), input, 50).unwrap().unwrap();
    assert_eq!(revision.revision_number, 2);
    assert_eq!(revision.kind, RevisionKind::Update);
    assert_eq!(revision.name, "foo.png");
    assert_eq!(revision.s3_hash, b"defg".to_vec());
    assert_eq!(revision.mime_hint, "image/jpeg");
    assert_eq!(revision.size_hint, 400);
    assert_eq!(revision.licensing, "{}");
    assert_eq!(revision.comments, "new version");
    assert_eq!(revision.user_id, 9);
    assert_eq!(revision.site_id, 2);
    assert_eq!(revision.page_id, 10);
    assert_eq!(revision.created_at, 50);
    let file = FileService::get(&store, 10, "f1").unwrap();
    assert_eq!(file.name, "foo.png");
    assert_eq!(file.updated_at, Some(50));
    assert_eq!(references(&store, b"abc"), Some(1));
    assert_eq!(references(&store, b"defg"), Some(1));
}

#[test]
fn update_sets_a_field_even_to_the_empty_value() {
    let mut store = FileStore::new();
    FileService::create(&mut store, 10, request("foo.png"), blob(b"abc", "image/png"), String::from("f1"), 1)
        .unwrap();
    let input = UpdateFile {
        revision_comments: String::new(),
        user_id: 9,
        body: FileChanges {
            name: ProvidedValue::Provided(String::from("bar.png")),
            blob: ProvidedValue::Unset,
            licensing: ProvidedValue::Provided(String::new()),
        },
    };
    let revision = FileService::update(&mut store, 1, 10, String::from("f1"), input, 50).unwrap().unwrap();
    assert_eq!(revision.name, "bar.png");
    assert_eq!(revision.licensing, "");
    assert_eq!(revision.s3_hash, b"abc".to_vec());
    assert_eq!(revision.mime_hint, "image/png");
    assert_eq!(references(&store, b"abc"), Some(2));
    assert_eq!(FileService::get(&store, 10, "f1").unwrap().name, "bar.png");
    assert_eq!(FileService::check_conflicts(&store, 10, "foo.png"), Ok(()));
    assert_eq!(FileService::check_conflicts(&store, 10, "bar.png"), Err(Error::Conflict));
}

#[test]
fn update_that_sets_nothing_writes_nothing() {
    let mut store = FileStore::new();
    FileService::create(&mut store, 10, request("foo.png"), blob(b"abc", "image/png"), String::from("f1"), 1)
        .unwrap();
    let input = UpdateFile {
        revision_comments: String::from("nothing"),
        user_id: 9,
        body: FileChanges {
            name: ProvidedValue::Unset,
            blob: ProvidedValue::Unset,
            licensing: ProvidedValue::Unset,
        },
    };
    assert_eq!(FileService::update(&mut store, 1, 10, String::from("f1"), input, 50), Ok(None));
    assert_eq!(store.chain_len(store.find("f1").unwrap()), 1);
    assert_eq!(FileService::get(&store, 10, "f1").unwrap().updated_at, None);
    assert_eq!(references(&store, b"abc"), Some(1));
}

#[test]
fn update_fails_for_a_missing_file_and_for_a_taken_name() {
    let mut store = FileStore::new();
    FileService::create(&mut store, 10, request("foo.png"), blob(b"abc", "image/png"), String::from("f1"), 1)
        .unwrap();
    FileService::create(&mut store, 10, request("bar.png"), blob(b"abc", "image/png"), String::from("f2"), 2)
        .unwrap();
    let rename = |name: &str| UpdateFile {
        revision_comments: String::new(),
        user_id: 9,
        body: FileChanges {
            name: ProvidedValue::Provided(String::from(name)),
            blob: ProvidedValue::Unset,
            licensing: ProvidedValue::Unset,
        },
    };
    assert_eq!(FileService::update(&mut store, 1, 10, String::from("f9"), rename("x"), 5), Err(Error::NotFound));
    assert_eq!(FileService::update(&mut store, 1, 11, String::from("f1"), rename("x"), 5), Err(Error::NotFound));
    assert_eq!(
        FileService::update(&mut store, 1, 10, String::from("f1"), rename("bar.png"), 5),
        Err(Error::Conflict)
    );
    assert_eq!(
        FileService::update(&mut store, 1, 10, String::from("f1"), rename("foo.png"), 5),
        Err(Error::Conflict)
    );
    assert_eq!(store.chain_len(store.find("f1").unwrap()), 1);
    assert_eq!(references(&store, b"abc"), Some(2));
}

#[test]
fn move_records_the_destination_and_keeps_the_history() {
    let mut store = FileStore::new();
    FileService::create(&mut store, 10, request("foo.png"), blob(b"abc", "image/png"), String::from("f1"), 1)
        .unwrap();
    let input = MoveFile {
        revision_comments: String::from("move"),
        user_id: 9,
        name: None,
        current_page_id: 10,
        destination_page_id: 20,
    };
    let moved = FileService::move_file(&mut store, 1, String::from("f1"), input, 60).unwrap().unwrap();
    assert_eq!(moved.kind, RevisionKind::Move);
    assert_eq!(moved.revision_number, 2);
    assert_eq!(moved.page_id, 20);
    assert_eq!(moved.name, "foo.png");
    assert_eq!(moved.s3_hash, b"abc".to_vec());
    let latest = FileRevisionService::get_latest(&store, 20, "f1").unwrap();
    assert_eq!(latest, moved);
    let earlier = FileRevisionService::get_latest(&store, 10, "f1").unwrap();
    assert_eq!(earlier.kind, RevisionKind::First);
    assert_eq!(earlier.revision_number, 1);
    assert_eq!(earlier.page_id, 10);
    assert_eq!(FileRevisionService::get_latest(&store, 30, "f1"), Err(Error::NotFound));
    assert_eq!(FileRevisionService::get_latest(&store, 20, "f2"), Err(Error::NotFound));
    let file = FileService::get_direct(&store, "f1").unwrap();
    assert_eq!(file.page_id, 20);
    assert_eq!(file.updated_at, Some(60));
    assert_eq!(FileService::get(&store, 10, "f1"), Err(Error::NotFound));
    assert!(FileService::exists_in_page(&store, 20, "f1"));
    assert!(!FileService::exists_in_page(&store, 10, "f1"));
    assert_eq!(references(&store, b"abc"), Some(2));
}

#[test]
fn move_under_a_new_name_and_into_a_taken_name() {
    let mut store = FileStore::new();
    FileService::create(&mut store, 10, request("foo.png"), blob(b"abc", "image/png"), String::from("f1"), 1)
        .unwrap();
    FileService::create(&mut store, 20, request("foo.png"), blob(b"xyz", "image/png"), String::from("f2"), 2)
        .unwrap();
    let to = |name: Option<&str>, from: i64, dest: i64| MoveFile {
        revision_comments: String::new(),
        user_id: 9,
        name: name.map(String::from),
        current_page_id: from,
        destination_page_id: dest,
    };
    assert_eq!(FileService::move_file(&mut store, 1, String::from("f1"), to(None, 10, 20), 5), Err(Error::Conflict));
    assert_eq!(FileService::move_file(&mut store, 1, String::from("f1"), to(None, 11, 20), 5), Err(Error::NotFound));
    assert_eq!(FileService::move_file(&mut store, 1, String::from("f1"), to(None, 10, 10), 5), Err(Error::Conflict));
    let moved =
        FileService::move_file(&mut store, 1, String::from("f1"), to(Some("new.png"), 10, 20), 6).unwrap().unwrap();
    assert_eq!(moved.name, "new.png");
    assert_eq!(moved.page_id, 20);
    let file = FileService::get(&store, 20, "f1").unwrap();
    assert_eq!(file.name, "new.png");
    assert_eq!(FileService::check_conflicts(&store, 10, "foo.png"), Ok(()));
}

#[test]
fn delete_appends_a_tombstone_and_keeps_the_file() {
    let mut store = FileStore::new();
    FileService::create(&mut store, 10, request("foo.png"), blob(b"abc", "image/png"), String::from("f1"), 1)
        .unwrap();
    let file = FileService::delete(&mut store, 10, String::from("f1"), deletion(), 70).unwrap();
    assert_eq!(file.deleted_at, Some(70));
    assert_eq!(file.name, "foo.png");
    assert_eq!(file.page_id, 10);
    let k = store.find("f1").unwrap();
    assert_eq!(store.chain_len(k), 2);
    let tombstone = store.revision_at(k, 1);
    assert_eq!(tombstone.kind, RevisionKind::Tombstone);
    assert_eq!(tombstone.revision_number, 2);
    assert_eq!(tombstone.name, "foo.png");
    assert_eq!(tombstone.s3_hash, b"abc".to_vec());
    assert_eq!(tombstone.comments, "remove");
    assert_eq!(FileService::check_conflicts(&store, 10, "foo.png"), Ok(()));
    assert_eq!(FileService::get_direct(&store, "f1").unwrap().deleted_at, Some(70));
    assert!(FileService::exists_direct(&store, "f1"));
    assert_eq!(FileService::get_optional(&store, 10, "f1").map(|f| f.deleted_at), Some(Some(70)));
    assert_eq!(references(&store, b"abc"), Some(2));
}

#[test]
fn a_deleted_file_takes_no_delete_update_or_move() {
    let mut store = FileStore::new();
    FileService::create(&mut store, 10, request("foo.png"), blob(b"abc", "image/png"), String::from("f1"), 1)
        .unwrap();
    FileService::delete(&mut store, 10, String::from("f1"), deletion(), 70).unwrap();
    assert_eq!(FileService::delete(&mut store, 10, String::from("f1"), deletion(), 71), Err(Error::NotFound));
    let input = UpdateFile {
        revision_comments: String::new(),
        user_id: 9,
        body: FileChanges {
            name: ProvidedValue::Provided(String::from("x")),
            blob: ProvidedValue::Unset,
            licensing: ProvidedValue::Unset,
        },
    };
    assert_eq!(FileService::update(&mut store, 1, 10, String::from("f1"), input, 72), Err(Error::NotFound));
    let input = MoveFile {
        revision_comments: String::new(),
        user_id: 9,
        name: None,
        current_page_id: 10,
        destination_page_id: 20,
    };
    assert_eq!(FileService::move_file(&mut store, 1, String::from("f1"), input, 73), Err(Error::NotFound));
    assert_eq!(FileService::delete(&mut store, 10, String::from("f9"), deletion(), 74), Err(Error::NotFound));
    assert_eq!(store.chain_len(store.find("f1").unwrap()), 2);
}

#[test]
fn restore_brings_the_file_back() {
    let mut store = FileStore::new();
    FileService::create(&mut store, 10, request("foo.png"), blob(b"abc", "image/png"), String::from("f1"), 1)
        .unwrap();
    assert_eq!(FileService::restore(&mut store, String::from("f1"), restoration(), 2), Err(Error::NotFound));
    assert_eq!(FileService::restore(&mut store, String::from("f9"), restoration(), 2), Err(Error::NotFound));
    FileService::delete(&mut store, 10, String::from("f1"), deletion(), 70).unwrap();
    let file = FileService::restore(&mut store, String::from("f1"), restoration(), 80).unwrap();
    assert_eq!(file.deleted_at, None);
    assert_eq!(file.name, "foo.png");
    assert_eq!(file.page_id, 10);
    let k = store.find("f1").unwrap();
    assert_eq!(store.chain_len(k), 3);
    let restore = store.revision_at(k, 2);
    assert_eq!(restore.kind, RevisionKind::Restore);
    assert_eq!(restore.revision_number, 3);
    assert_eq!(restore.user_id, 8);
    assert_eq!(restore.created_at, 80);
    assert_eq!(FileService::check_conflicts(&store, 10, "foo.png"), Err(Error::Conflict));
    FileService::delete(&mut store, 10, String::from("f1"), deletion(), 90).unwrap();
    assert_eq!(store.revision_at(k, 3).kind, RevisionKind::Tombstone);
    assert_eq!(store.revision_at(k, 3).revision_number, 4);
    assert_eq!(references(&store, b"abc"), Some(4));
}

#[test]
fn restore_conflicts_when_the_name_was_taken() {
    let mut store = FileStore::new();
    FileService::create(&mut store, 10, request("foo.png"), blob(b"abc", "image/png"), String::from("f1"), 1)
        .unwrap();
    FileService::delete(&mut store, 10, String::from("f1"), deletion(), 70).unwrap();
    FileService::create(&mut store, 10, request("foo.png"), blob(b"xyz", "image/png"), String::from("f2"), 75)
        .unwrap();
    assert_eq!(FileService::restore(&mut store, String::from("f1"), restoration(), 80), Err(Error::Conflict));
    let file = FileService::get_direct(&store, "f1").unwrap();
    assert_eq!(file.deleted_at, Some(70));
    assert_eq!(store.chain_len(store.find("f1").unwrap()), 2);
}

#[test]
fn lookups_by_container_and_by_identifier() {
    let mut store = FileStore::new();
    assert_eq!(FileService::get_optional(&store, 10, "f1"), None);
    assert_eq!(FileService::get_direct_optional(&store, "f1"), None);
    assert_eq!(FileService::get(&store, 10, "f1"), Err(Error::NotFound));
    assert_eq!(FileService::get_direct(&store, "f1"), Err(Error::NotFound));
    assert!(!FileService::exists_in_page(&store, 10, "f1"));
    assert!(!FileService::exists_direct(&store, "f1"));
    FileService::create(&mut store, 10, request("foo.png"), blob(b"abc", "image/png"), String::from("f1"), 1)
        .unwrap();
    assert_eq!(FileService::get_optional(&store, 10, "f1").map(|f| f.name), Some(String::from("foo.png")));
    assert_eq!(FileService::get_optional(&store, 11, "f1"), None);
    assert_eq!(FileService::get_direct_optional(&store, "f1").map(|f| f.page_id), Some(10));
    assert!(FileService::exists_in_page(&store, 10, "f1"));
    assert!(!FileService::exists_in_page(&store, 11, "f1"));
    assert!(FileService::exists_direct(&store, "f1"));
    assert!(!FileService::exists_direct(&store, "f2"));
    assert!(!FileService::exists_direct(&store, "F1"));
}

fn new_version(hash: &[u8]) -> UpdateFile {
    UpdateFile {
        revision_comments: String::from("new version"),
        user_id: 9,
        body: FileChanges {
            name: ProvidedValue::Unset,
            blob: ProvidedValue::Provided(blob(hash, "image/png")),
            licensing: ProvidedValue::Unset,
        },
    }
}

#[test]
fn hard_delete_removes_every_file_that_had_the_content() {
    let mut store = FileStore::new();
    FileService::create(&mut store, 10, request("a.png"), blob(b"bad", "image/png"), String::from("f1"), 1).unwrap();
    FileService::create(&mut store, 10, request("b.png"), blob(b"good", "image/png"), String::from("f2"), 2).unwrap();
    FileService::create(&mut store, 11, request("c.png"), blob(b"bad", "image/png"), String::from("f3"), 3).unwrap();
    FileService::create(&mut store, 11, request("d.png"), blob(b"old", "image/png"), String::from("f4"), 4).unwrap();
    FileService::update(&mut store, 1, 11, String::from("f4"), new_version(b"bad"), 5).unwrap();
    FileService::update(&mut store, 1, 11, String::from("f4"), new_version(b"good"), 6).unwrap();
    FileService::delete(&mut store, 11, String::from("f3"), deletion(), 7).unwrap();
    assert_eq!(references(&store, b"bad"), Some(4));
    assert_eq!(references(&store, b"good"), Some(2));
    assert_eq!(references(&store, b"old"), Some(1));

    let output = FileService::hard_delete_all(&mut store, "f1").unwrap();
    assert_eq!(output.hash, b"bad".to_vec());
    assert_eq!(output.files, vec![String::from("f1"), String::from("f3"), String::from("f4")]);
    assert_eq!(output.blobs, vec![b"bad".to_vec(), b"old".to_vec()]);
    assert_eq!(store.file_count(), 1);
    assert_eq!(store.blob_count(), 1);
    assert_eq!(references(&store, b"bad"), None);
    assert_eq!(references(&store, b"old"), None);
    assert_eq!(references(&store, b"good"), Some(1));
    assert!(FileService::exists_direct(&store, "f2"));
    assert!(!FileService::exists_direct(&store, "f1"));
    assert!(!FileService::exists_direct(&store, "f3"));
    assert!(!FileService::exists_direct(&store, "f4"));
    assert_eq!(FileService::restore(&mut store, String::from("f3"), restoration(), 9), Err(Error::NotFound));
    assert_eq!(FileService::check_conflicts(&store, 10, "a.png"), Ok(()));
}

#[test]
fn hard_delete_of_a_missing_file_changes_nothing() {
    let mut store = FileStore::new();
    FileService::create(&mut store, 10, request("a.png"), blob(b"abc", "image/png"), String::from("f1"), 1).unwrap();
    assert_eq!(FileService::hard_delete_all(&mut store, "f9"), Err(Error::NotFound));
    assert_eq!(store.file_count(), 1);
    assert_eq!(references(&store, b"abc"), Some(1));
}

#[test]
fn hard_delete_goes_by_the_latest_content() {
    let mut store = FileStore::new();
    FileService::create(&mut store, 10, request("a.png"), blob(b"one", "image/png"), String::from("f1"), 1).unwrap();
    FileService::update(&mut store, 1, 10, String::from("f1"), new_version(b"two"), 2).unwrap();
    FileService::create(&mut store, 10, request("b.png"), blob(b"one", "image/png"), String::from("f2"), 3).unwrap();
    let output = FileService::hard_delete_all(&mut store, "f1").unwrap();
    assert_eq!(output.hash, b"two".to_vec());
    assert_eq!(output.files, vec![String::from("f1")]);
    assert_eq!(output.blobs, vec![b"two".to_vec()]);
    assert_eq!(references(&store, b"one"), Some(1));
    assert!(FileService::exists_direct(&store, "f2"));
    assert!(store.file_points_to(store.find("f2").unwrap(), &b"one".to_vec()));
    assert!(!store.file_points_to(store.find("f2").unwrap(), &b"two".to_vec()));
}

#[test]
fn revision_numbers_count_up_from_one() {
    let mut store = FileStore::new();
    FileService::create(&mut store, 10, request("a.png"), blob(b"v1", "image/png"), String::from("f1"), 1).unwrap();
    FileService::update(&mut store, 1, 10, String::from("f1"), new_version(b"v2"), 2).unwrap();
    let to = MoveFile {
        revision_comments: String::new(),
        user_id: 9,
        name: None,
        current_page_id: 10,
        destination_page_id: 20,
    };
    FileService::move_file(&mut store, 1, String::from("f1"), to, 3).unwrap();
    FileService::delete(&mut store, 20, String::from("f1"), deletion(), 4).unwrap();
    FileService::restore(&mut store, String::from("f1"), restoration(), 5).unwrap();
    FileService::delete(&mut store, 20, String::from("f1"), deletion(), 6).unwrap();
    let k = store.find("f1").unwrap();
    let kinds: Vec<RevisionKind> = (0..store.chain_len(k)).map(|j| store.revision_at(k, j).kind).collect();
    assert_eq!(
        kinds,
        vec![
            RevisionKind::First,
            RevisionKind::Update,
            RevisionKind::Move,
            RevisionKind::Tombstone,
            RevisionKind::Restore,
            RevisionKind::Tombstone,
        ]
    );
    for j in 0..store.chain_len(k) {
        assert_eq!(store.revision_at(k, j).revision_number, j as u64 + 1);
        assert_eq!(store.revision_at(k, j).file_id, "f1");
    }
    let pages: Vec<i64> = (0..store.chain_len(k)).map(|j| store.revision_at(k, j).page_id).collect();
    assert_eq!(pages, vec![10, 10, 20, 20, 20, 20]);
    assert!(store.can_count(&b"v2".to_vec()));
    assert!(store.name_in_use(10, "a.png") == false);
    assert_eq!(store.file_at(k).deleted_at, Some(6));
}
