//! Where the tasks are stored. Reading and writing the file is left to the
//! program around the library; this names the place.

use std::path::PathBuf;
use vstd::prelude::*;

verus! {

/// `std::path::PathBuf`, carried through unopened.
#[verifier::external_type_specification]
#[verifier::external_body]
pub struct ExPathBuf(PathBuf);

/// The file that holds every task ever created.
pub struct FileStorage {
    pub file_path: PathBuf,
}

impl FileStorage {
    pub fn new(file_path: PathBuf) -> (r: FileStorage)
        ensures
            r.file_path == file_path,
    {
        FileStorage { file_path }
    }
}

} // verus!
