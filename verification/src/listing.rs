//! Picking the regular files out of what a directory was read to hold.

use vstd::prelude::*;

verus! {

/// One member of a directory, as the file system reported it.
#[derive(Debug, Clone)]
pub struct DirEntry {
    /// The member's name within the directory.
    pub name: String,
    /// Whether it is a regular file: no directory, no link, no device.
    pub is_file: bool,
}

/// Why a directory could not be listed.
#[derive(Debug, Clone, Copy, PartialEq, Eq, Structural)]
pub enum DirectoryListFailed {
    NotFound,
    PermissionDenied,
    Other,
}

/// The names of a vector of strings.
pub open spec fn names_of(files: Seq<String>) -> Seq<Seq<char>> {
    Seq::new(files.len(), |i: int| files[i]@)
}

/// The names of the regular files among the members read, in the order
/// in which they were read. A failed reading contributes nothing.
pub open spec fn files_among(readings: Seq<Result<DirEntry, DirectoryListFailed>>) -> Seq<
    Seq<char>,
>
    decreases readings.len(),
{
    if readings.len() == 0 {
        Seq::empty()
    } else {
        let earlier = files_among(readings.drop_last());
        match readings.last() {
            Ok(entry) => if entry.is_file {
                earlier.push(entry.name@)
            } else {
                earlier
            },
            Err(_) => earlier,
        }
    }
}

/// Lists the regular files of a directory from the readings of its
/// members. The listing is all or nothing: the first reading that failed
/// fails the listing with its reason, and no file is returned.
pub fn get_files_in_directory(readings: &Vec<Result<DirEntry, DirectoryListFailed>>) -> (listing:
    Result<Vec<String>, DirectoryListFailed>)
    ensures
        match listing {
            Ok(files) => {
                &&& forall|i: int| 0 <= i < readings.len() ==> readings[i] is Ok
                &&& names_of(files@) == files_among(readings@)
            },
            Err(reason) => exists|i: int|
                {
                    &&& 0 <= i < readings.len()
                    &&& readings[i] == Err::<DirEntry, DirectoryListFailed>(reason)
                    &&& forall|j: int| 0 <= j < i ==> readings[j] is Ok
                },
        },
{
    let mut files: Vec<String> = Vec::new();
    let mut i: usize = 0;
    while i < readings.len()
        invariant
            i <= readings.len(),
            forall|j: int| 0 <= j < i ==> readings[j] is Ok,
            names_of(files@) == files_among(readings@.take(i as int)),
        decreases readings.len() - i,
    {
        proof {
            assert(readings@.take(i + 1).drop_last() =~= readings@.take(i as int));
        }
        match &readings[i] {
            Ok(entry) => {
                if entry.is_file {
                    files.push(entry.name.clone());
                }
            },
            Err(reason) => {
                return Err(*reason);
            },
        }
        i += 1;
    }
    assert(readings@.take(readings.len() as int) =~= readings@);
    Ok(files)
}

} // verus!
