//! The current state of a file.

use vstd::prelude::*;

verus! {

/// Mathematical value of a [`FileModel`].
pub struct FileView {
    pub file_id: Seq<char>,
    pub name: Seq<char>,
    pub page_id: i64,
    pub created_at: i64,
    pub updated_at: Option<i64>,
    pub deleted_at: Option<i64>,
}

/// Where a file is now and what it is called: the container, the name and
/// the deletion mark of its latest revision, kept beside the chain.
#[derive(Debug, Clone, PartialEq, Eq)]
pub struct FileModel {
    pub file_id: String,
    pub name: String,
    pub page_id: i64,
    pub created_at: i64,
    pub updated_at: Option<i64>,
    pub deleted_at: Option<i64>,
}

impl View for FileModel {
    type V = FileView;

    open spec fn view(&self) -> FileView {
        FileView {
            file_id: self.file_id@,
            name: self.name@,
            page_id: self.page_id,
            created_at: self.created_at,
            updated_at: self.updated_at,
            deleted_at: self.deleted_at,
        }
    }
}

impl FileModel {
    /// A copy of the record.
    pub fn duplicate(&self) -> (r: FileModel)
        ensures
            r@ == self@,
    {
        FileModel {
            file_id: self.file_id.clone(),
            name: self.name.clone(),
            page_id: self.page_id,
            created_at: self.created_at,
            updated_at: self.updated_at,
            deleted_at: self.deleted_at,
        }
    }
}

} // verus!
