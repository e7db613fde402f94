//! The fixed table from lower-case extension to category.

use crate::category::FileType;
use vstd::hash_map::StringHashMap;
use vstd::prelude::*;

verus! {

/// The lower-case extensions of category `t`, without the leading dot.
/// `Unknown` lists none: it is what every other extension falls under.
pub open spec fn extensions_of(t: FileType) -> Seq<Seq<char>> {
    match t {
        FileType::Image => seq![
            "jpg"@, "jpeg"@, "png"@, "gif"@, "bmp"@, "webp"@, "tiff"@, "tif"@,
        ],
        FileType::Document => seq![
            "txt"@, "pdf"@, "doc"@, "docx"@, "xls"@, "xlsx"@, "ppt"@, "pptx"@, "md"@, "odt"@,
            "rtf"@,
        ],
        FileType::Music => seq!["mp3"@, "wav"@, "ogg"@, "flac"@, "aac"@, "m4a"@],
        FileType::Video => seq!["mp4"@, "mkv"@, "avi"@, "mov"@, "wmv"@, "flv"@, "mpeg"@],
        FileType::Unknown => seq![],
    }
}

/// The category of a lower-case extension: the one that lists it, and
/// `Unknown` where none does.
pub open spec fn category_of(extension: Seq<char>) -> FileType {
    if extensions_of(FileType::Image).contains(extension) {
        FileType::Image
    } else if extensions_of(FileType::Document).contains(extension) {
        FileType::Document
    } else if extensions_of(FileType::Music).contains(extension) {
        FileType::Music
    } else if extensions_of(FileType::Video).contains(extension) {
        FileType::Video
    } else {
        FileType::Unknown
    }
}

/// The table as a map: one entry for each listed extension.
pub open spec fn category_table() -> Map<Seq<char>, FileType> {
    Map::new(
        |extension: Seq<char>| category_of(extension) != FileType::Unknown,
        |extension: Seq<char>| category_of(extension),
    )
}

/// True of a key made of the letters `a` to `z` and the digits alone.
pub open spec fn is_plain(key: Seq<char>) -> bool {
    forall|i: int|
        0 <= i < key.len() ==> ('a' <= #[trigger] key[i] <= 'z' || '0' <= key[i] <= '9')
}

/// What a table holds for an extension, `Unknown` where it has no entry.
pub open spec fn lookup(table: Map<Seq<char>, FileType>, extension: Seq<char>) -> FileType {
    if table.dom().contains(extension) {
        table[extension]
    } else {
        FileType::Unknown
    }
}

/// The length of a key and its first three letters: enough to tell any two
/// listed extensions apart.
spec fn prefix_of(key: Seq<char>) -> (nat, char, char, char) {
    (key.len(), key[0], key[1], key[2])
}

/// The lists, letter by letter: none names an extension twice, none
/// shares an extension with another, and all are made of small letters
/// and digits.
proof fn lemma_lists(extension: Seq<char>)
    ensures
        extensions_of(FileType::Image).no_duplicates(),
        extensions_of(FileType::Document).no_duplicates(),
        extensions_of(FileType::Music).no_duplicates(),
        extensions_of(FileType::Video).no_duplicates(),
        extensions_of(FileType::Unknown).no_duplicates(),
        forall|t: FileType| #[trigger]
            extensions_of(t).contains(extension) ==> is_plain(extension) && category_of(extension)
                == t,
{
    reveal_strlit("jpg");
    reveal_strlit("jpeg");
    reveal_strlit("png");
    reveal_strlit("gif");
    reveal_strlit("bmp");
    reveal_strlit("webp");
    reveal_strlit("tiff");
    reveal_strlit("tif");
    reveal_strlit("txt");
    reveal_strlit("pdf");
    reveal_strlit("doc");
    reveal_strlit("docx");
    reveal_strlit("xls");
    reveal_strlit("xlsx");
    reveal_strlit("ppt");
    reveal_strlit("pptx");
    reveal_strlit("md");
    reveal_strlit("odt");
    reveal_strlit("rtf");
    reveal_strlit("mp3");
    reveal_strlit("wav");
    reveal_strlit("ogg");
    reveal_strlit("flac");
    reveal_strlit("aac");
    reveal_strlit("m4a");
    reveal_strlit("mp4");
    reveal_strlit("mkv");
    reveal_strlit("avi");
    reveal_strlit("mov");
    reveal_strlit("wmv");
    reveal_strlit("flv");
    reveal_strlit("mpeg");
    let images = extensions_of(FileType::Image);
    assert forall|i: int, j: int|
        0 <= i < images.len() && 0 <= j < images.len() && i != j implies images[i] != images[j] by {
        assert(prefix_of(images[i]) != prefix_of(images[j]));
    }
    let documents = extensions_of(FileType::Document);
    assert forall|i: int, j: int|
        0 <= i < documents.len() && 0 <= j < documents.len() && i != j implies documents[i]
        != documents[j] by {
        assert(prefix_of(documents[i]) != prefix_of(documents[j]));
    }
    let music = extensions_of(FileType::Music);
    assert forall|i: int, j: int|
        0 <= i < music.len() && 0 <= j < music.len() && i != j implies music[i] != music[j] by {
        assert(prefix_of(music[i]) != prefix_of(music[j]));
    }
    let videos = extensions_of(FileType::Video);
    assert forall|i: int, j: int|
        0 <= i < videos.len() && 0 <= j < videos.len() && i != j implies videos[i] != videos[j] by {
        assert(prefix_of(videos[i]) != prefix_of(videos[j]));
    }
    assert(prefix_of(extension).0 == extension.len());
}

/// No extension is listed twice, neither within one category nor in two,
/// so a listed extension belongs to exactly the category that lists it.
pub proof fn lemma_extensions_listed_once()
    ensures
        forall|t: FileType| #[trigger] extensions_of(t).no_duplicates(),
        forall|a: FileType, b: FileType, extension: Seq<char>|
            extensions_of(a).contains(extension) && extensions_of(b).contains(extension) ==> a
                == b,
        forall|t: FileType, extension: Seq<char>|
            extensions_of(t).contains(extension) ==> category_of(extension) == t,
        forall|t: FileType, extension: Seq<char>|
            extensions_of(t).contains(extension) ==> is_plain(extension),
{
    assert forall|t: FileType| #[trigger] extensions_of(t).no_duplicates() by {
        lemma_lists(Seq::empty());
    }
    assert forall|t: FileType, extension: Seq<char>|
        extensions_of(t).contains(extension) implies is_plain(extension) && category_of(extension)
        == t by {
        lemma_lists(extension);
    }
}

/// The keys that a slice of extensions stands for.
spec fn keys_of(extensions: Seq<&str>) -> Seq<Seq<char>> {
    Seq::new(extensions.len(), |i: int| extensions[i]@)
}

/// A table after each of `keys` has been set to `file_type`.
spec fn with_keys(
    table: Map<Seq<char>, FileType>,
    keys: Seq<Seq<char>>,
    file_type: FileType,
) -> Map<Seq<char>, FileType> {
    Map::new(
        |k: Seq<char>| table.dom().contains(k) || keys.contains(k),
        |k: Seq<char>|
            if keys.contains(k) {
                file_type
            } else {
                table[k]
            },
    )
}

/// Enters every extension of the slice under one category.
fn insert_extensions(
    mapping: &mut StringHashMap<FileType>,
    extensions: &[&str],
    file_type: FileType,
)
    ensures
        final(mapping)@ == with_keys(old(mapping)@, keys_of(extensions@), file_type),
{
    let mut i: usize = 0;
    while i < extensions.len()
        invariant
            i <= extensions.len(),
            mapping@ == with_keys(old(mapping)@, keys_of(extensions@).take(i as int), file_type),
        decreases extensions.len() - i,
    {
        let ghost before = mapping@;
        let ghost keys = keys_of(extensions@);
        mapping.insert(String::from_str(extensions[i]), file_type);
        proof {
            assert(keys.take(i + 1)[i as int] == keys[i as int]);
            assert forall|k: Seq<char>| keys.take(i + 1).contains(k) <==> (keys.take(
                i as int,
            ).contains(k) || k == keys[i as int]) by {
                if keys.take(i as int).contains(k) {
                    let j = choose|j: int| 0 <= j < i && keys.take(i as int)[j] == k;
                }
            }
        }
        i += 1;
    }
    assert(keys_of(extensions@).take(extensions.len() as int) =~= keys_of(extensions@));
}

/// Builds the table: every listed extension under its category.
pub fn get_file_type_mapping() -> (mapping: StringHashMap<FileType>)
    ensures
        mapping@ == category_table(),
{
    let mut mapping: StringHashMap<FileType> = StringHashMap::new();
    let images: [&str; 8] = ["jpg", "jpeg", "png", "gif", "bmp", "webp", "tiff", "tif"];
    let documents: [&str; 11] = [
        "txt", "pdf", "doc", "docx", "xls", "xlsx", "ppt", "pptx", "md", "odt", "rtf",
    ];
    let music: [&str; 6] = ["mp3", "wav", "ogg", "flac", "aac", "m4a"];
    let videos: [&str; 7] = ["mp4", "mkv", "avi", "mov", "wmv", "flv", "mpeg"];
    insert_extensions(&mut mapping, images.as_slice(), FileType::Image);
    insert_extensions(&mut mapping, documents.as_slice(), FileType::Document);
    insert_extensions(&mut mapping, music.as_slice(), FileType::Music);
    insert_extensions(&mut mapping, videos.as_slice(), FileType::Video);
    proof {
        assert(keys_of(images@) =~= extensions_of(FileType::Image));
        assert(keys_of(documents@) =~= extensions_of(FileType::Document));
        assert(keys_of(music@) =~= extensions_of(FileType::Music));
        assert(keys_of(videos@) =~= extensions_of(FileType::Video));
        lemma_extensions_listed_once();
    }
    mapping
}

/// Looks an extension up as it stands: the caller has already stripped the
/// dot and folded the case. An extension without an entry is `Unknown`.
pub fn lookup_category(mapping: &StringHashMap<FileType>, extension: &str) -> (file_type: FileType)
    ensures
        file_type == lookup(mapping@, extension@),
{
    match mapping.get(extension) {
        Some(file_type) => *file_type,
        None => FileType::Unknown,
    }
}

} // verus!
