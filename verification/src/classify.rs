//! From a file name to its category.

use crate::category::FileType;
use crate::mapping::{
    category_table, extensions_of, is_plain, lemma_extensions_listed_once, lookup, lookup_category,
};
use vstd::hash_map::StringHashMap;
use vstd::prelude::*;
use vstd::std_specs::iter::IteratorSpec;
use vstd::string::StrSliceExecFns;
use vstd::utf8::is_ascii_chars;

verus! {

broadcast use vstd::string::group_string_axioms;

/// The extension of a file name: what follows its last dot. A name
/// without a dot has none; a name that ends in a dot has the empty one.
pub open spec fn extension_of(file_name: Seq<char>) -> Option<Seq<char>> {
    match file_name.index_of_last('.') {
        Some(dot) => Some(file_name.subrange(dot + 1, file_name.len() as int)),
        None => None,
    }
}

/// A name that ends in a dot and `extension`, which itself holds no dot,
/// has `extension` as its extension.
pub proof fn lemma_extension_of_joined(stem: Seq<char>, extension: Seq<char>)
    requires
        !extension.contains('.'),
    ensures
        extension_of(stem + seq!['.'] + extension) == Some(extension),
{
    let name = stem + seq!['.'] + extension;
    assert(name[stem.len() as int] == '.');
    name.index_of_last_ensures('.');
}

/// A name without a dot has no extension, and only such a name.
pub proof fn lemma_extension_of_none(file_name: Seq<char>)
    ensures
        extension_of(file_name) is None <==> !file_name.contains('.'),
{
    file_name.index_of_last_ensures('.');
}

/// Splits the extension off a file name.
pub fn file_extension(file_name: &str) -> (extension: Option<&str>)
    ensures
        extension_of(file_name@) == match extension {
            Some(e) => Some(e@),
            None => None,
        },
{
    let length = file_name.unicode_len();
    let mut chars = file_name.chars();
    let mut index: usize = 0;
    // where the text after the last dot seen so far begins
    let mut start: Option<usize> = None;
    loop
        invariant
            length == file_name@.len(),
            index <= length,
            chars.remaining() == file_name@.skip(index as int),
            match start {
                Some(s) => 0 < s <= index && file_name@[s - 1] == '.' && forall|j: int|
                    s <= j < index ==> file_name@[j] != '.',
                None => forall|j: int| 0 <= j < index ==> file_name@[j] != '.',
            },
        ensures
            index == length,
        decreases length - index,
    {
        match chars.next() {
            Some(c) => {
                index += 1;
                if c == '.' {
                    start = Some(index);
                }
            },
            None => {
                break ;
            },
        }
    }
    proof {
        file_name@.index_of_last_ensures('.');
    }
    match start {
        Some(s) => Some(file_name.substring_char(s, length)),
        None => None,
    }
}

/// The lower-case form of one ASCII letter; any other character is kept.
pub open spec fn ascii_lowercase_char(c: char) -> char {
    if 'A' <= c <= 'Z' {
        ((c as u32) + 32) as char
    } else {
        c
    }
}

/// A string with each ASCII capital replaced by its small letter.
pub open spec fn ascii_lowercase(text: Seq<char>) -> Seq<char> {
    Seq::new(text.len(), |i: int| ascii_lowercase_char(text[i]))
}

/// The lower-case form of a string under the Unicode case mapping.
pub uninterp spec fn lowercase_of(text: Seq<char>) -> Seq<char>;

/// Calls `str::to_ascii_lowercase` of the standard library, which is
/// not verified here. Taken on trust, as its documentation has it: the
/// letters `A` to `Z` become `a` to `z`, and every other character stays.
#[verifier::external_body]
fn to_ascii_lowercase(text: &str) -> (lower: String)
    ensures
        lower@ == ascii_lowercase(text@),
{
    text.to_ascii_lowercase()
}

/// Calls `str::to_lowercase` of the standard library, which is not
/// verified here. Taken on trust: that the result depends on the
/// characters of `text` alone. What the Unicode mapping makes of them is
/// not stated.
#[verifier::external_body]
fn to_lowercase(text: &str) -> (lower: String)
    ensures
        lower@ == lowercase_of(text@),
{
    text.to_lowercase()
}

/// An extension with its case folded, as the table is asked for it. An
/// extension of ASCII characters alone is folded by the ASCII rule, any
/// other by the Unicode mapping.
pub open spec fn folded(extension: Seq<char>) -> Seq<char> {
    if is_ascii_chars(extension) {
        ascii_lowercase(extension)
    } else {
        lowercase_of(extension)
    }
}

/// The category of an extension under a table, whatever the case of its
/// letters: what the table holds for the folded extension.
pub open spec fn extension_type_of(
    extension: Seq<char>,
    table: Map<Seq<char>, FileType>,
) -> FileType {
    lookup(table, folded(extension))
}

/// The category of a file name under a table: that of its extension, and
/// `Unknown` for a name without an extension.
pub open spec fn file_type_of(file_name: Seq<char>, table: Map<Seq<char>, FileType>) -> FileType {
    match extension_of(file_name) {
        Some(extension) => extension_type_of(extension, table),
        None => FileType::Unknown,
    }
}

/// The category of a file name under the fixed table.
pub open spec fn classify(file_name: Seq<char>) -> FileType {
    file_type_of(file_name, category_table())
}

/// Classifies an extension, whatever the case of its letters. The
/// extension comes without the dot that leads it.
pub fn get_extension_type(extension: &str, mapping: &StringHashMap<FileType>) -> (file_type:
    FileType)
    ensures
        file_type == extension_type_of(extension@, mapping@),
{
    let lower = if extension.is_ascii() {
        to_ascii_lowercase(extension)
    } else {
        to_lowercase(extension)
    };
    lookup_category(mapping, lower.as_str())
}

/// Classifies a file by the extension of its name. `file_name` is the
/// name within its directory, without the path that leads there.
pub fn get_file_type(file_name: &str, mapping: &StringHashMap<FileType>) -> (file_type: FileType)
    ensures
        file_type == file_type_of(file_name@, mapping@),
{
    match file_extension(file_name) {
        Some(extension) => get_extension_type(extension, mapping),
        None => FileType::Unknown,
    }
}

/// A file whose extension is one that category `t` lists, written in any
/// mixture of upper and lower case, is classified as `t`.
pub proof fn lemma_listed_extension_classified(file_name: Seq<char>, t: FileType)
    requires
        extension_of(file_name) is Some,
        extensions_of(t).contains(ascii_lowercase(extension_of(file_name).unwrap())),
    ensures
        classify(file_name) == t,
{
    let extension = extension_of(file_name).unwrap();
    let key = ascii_lowercase(extension);
    lemma_extensions_listed_once();
    assert forall|i: int| 0 <= i < extension.len() implies '\0' <= #[trigger] extension[i]
        <= '\u{7f}' by {
        assert(key[i] == ascii_lowercase_char(extension[i]));
    }
}

/// A file without an extension is `Unknown`, and so is one whose
/// extension, with the case folded, no category lists.
pub proof fn lemma_unlisted_extension_unknown(file_name: Seq<char>)
    requires
        extension_of(file_name) matches Some(extension) ==> forall|t: FileType|
            !extensions_of(t).contains(folded(extension)),
    ensures
        classify(file_name) == FileType::Unknown,
{
}

/// Every file name has exactly one category: that of its folded extension
/// where a category lists it, and `Unknown` otherwise.
pub proof fn lemma_classify_by_list(file_name: Seq<char>, t: FileType)
    ensures
        classify(file_name) == t <==> match extension_of(file_name) {
            Some(extension) => if t == FileType::Unknown {
                forall|u: FileType| !extensions_of(u).contains(folded(extension))
            } else {
                extensions_of(t).contains(folded(extension))
            },
            None => t == FileType::Unknown,
        },
{
    lemma_extensions_listed_once();
}

} // verus!
