use file_organizer::listing::{get_files_in_directory, DirEntry, DirectoryListFailed};

fn file(name: &str) -> Result<DirEntry, DirectoryListFailed> {
    Ok(DirEntry { name: name.to_string(), is_file: true })
}

fn other(name: &str) -> Result<DirEntry, DirectoryListFailed> {
    Ok(DirEntry { name: name.to_string(), is_file: false })
}

#[test]
fn lists_regular_files_in_reading_order() {
    let readings = vec![file("b.txt"), other("organized"), file("a.jpg"), other("link"), file("c")];
    let files = get_files_in_directory(&readings);
    assert_eq!(files, Ok(vec!["b.txt".to_string(), "a.jpg".to_string(), "c".to_string()]));
}

#[test]
fn empty_directory_lists_nothing() {
    let readings = Vec::new();
    assert_eq!(get_files_in_directory(&readings), Ok(Vec::new()));
}

#[test]
fn directory_without_files_lists_nothing() {
    let readings = vec![other("organized"), other("sub")];
    assert_eq!(get_files_in_directory(&readings), Ok(Vec::new()));
}

#[test]
fn failed_reading_fails_the_listing() {
    let readings = vec![file("a.txt"), Err(DirectoryListFailed::PermissionDenied), file("b.txt")];
    assert_eq!(get_files_in_directory(&readings), Err(DirectoryListFailed::PermissionDenied));
}

#[test]
fn first_failure_is_reported() {
    let readings = vec![
        other("sub"),
        Err(DirectoryListFailed::Other),
        Err(DirectoryListFailed::NotFound),
    ];
    assert_eq!(get_files_in_directory(&readings), Err(DirectoryListFailed::Other));
    let readings = vec![Err(DirectoryListFailed::NotFound)];
    assert_eq!(get_files_in_directory(&readings), Err(DirectoryListFailed::NotFound));
}

#[test]
fn same_name_may_be_read_twice() {
    let readings = vec![file("a"), file("a")];
    assert_eq!(get_files_in_directory(&readings), Ok(vec!["a".to_string(), "a".to_string()]));
}
