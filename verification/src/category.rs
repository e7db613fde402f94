//! The closed set of categories and the folder each one is kept in.

use vstd::prelude::*;

verus! {

/// The category a file is sorted into.
#[derive(Debug, Clone, Copy, PartialEq, Eq, Structural)]
pub enum FileType {
    Image,
    Document,
    Music,
    Video,
    Unknown,
}

/// The name of the folder that holds the files of category `t`.
pub open spec fn folder_name(t: FileType) -> Seq<char> {
    match t {
        FileType::Image => "images"@,
        FileType::Document => "documents"@,
        FileType::Music => "music"@,
        FileType::Video => "videos"@,
        FileType::Unknown => "others"@,
    }
}

/// The five folder names, as a set.
pub open spec fn folder_names() -> Set<Seq<char>> {
    set!["images"@, "documents"@, "music"@, "videos"@, "others"@]
}

/// Returns the folder name of a category.
pub fn get_folder_name(file_type: &FileType) -> (name: &'static str)
    ensures
        name@ == folder_name(*file_type),
{
    match file_type {
        FileType::Image => "images",
        FileType::Document => "documents",
        FileType::Music => "music",
        FileType::Video => "videos",
        FileType::Unknown => "others",
    }
}

/// Every category has one of the five folder names, every one of the five
/// names belongs to some category, and two different categories never share
/// a folder.
pub proof fn lemma_folder_names_one_to_one()
    ensures
        forall|t: FileType| folder_names().contains(#[trigger] folder_name(t)),
        forall|n: Seq<char>|
            folder_names().contains(n) ==> exists|t: FileType| #[trigger] folder_name(t) == n,
        forall|a: FileType, b: FileType|
            #[trigger] folder_name(a) == #[trigger] folder_name(b) ==> a == b,
{
    reveal_strlit("images");
    reveal_strlit("documents");
    reveal_strlit("music");
    reveal_strlit("videos");
    reveal_strlit("others");
    assert(folder_name(FileType::Image) == "images"@);
    assert(folder_name(FileType::Document) == "documents"@);
    assert(folder_name(FileType::Music) == "music"@);
    assert(folder_name(FileType::Video) == "videos"@);
    assert(folder_name(FileType::Unknown) == "others"@);
    assert forall|a: FileType, b: FileType|
        #[trigger] folder_name(a) == #[trigger] folder_name(b) implies a == b by {
        // the names differ in length or in their first letter
        assert("images"@.len() == 6 && "images"@[0] == 'i');
        assert("documents"@.len() == 9);
        assert("music"@.len() == 5);
        assert("videos"@.len() == 6 && "videos"@[0] == 'v');
        assert("others"@.len() == 6 && "others"@[0] == 'o');
    }
}

} // verus!
