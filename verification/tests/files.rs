use backbone::files::{data_files, get_extension, has_extension, same_text, select_files};

fn paths(list: &[&str]) -> Vec<String> {
    list.iter().map(|s| s.to_string()).collect()
}

#[test]
fn extension_is_what_follows_the_last_dot_of_the_file_name() {
    assert_eq!(get_extension("corpus/a.dat"), Some("dat"));
    assert_eq!(get_extension("a.tar.gz"), Some("gz"));
    assert_eq!(get_extension("corpus.dat/readme"), None);
    assert_eq!(get_extension(".dat"), None);
    assert_eq!(get_extension("a."), Some(""));
    assert_eq!(get_extension(""), None);
}

#[test]
fn same_text_compares_character_by_character() {
    assert!(same_text("", ""));
    assert!(same_text("dat", "dat"));
    assert!(!same_text("dat", "dab"));
    assert!(!same_text("dat", "data"));
    assert!(!same_text("dat", "DAT"));
    assert!(same_text("\u{e9}t\u{e9}", "\u{e9}t\u{e9}"));
}

#[test]
fn has_extension_wants_the_exact_extension() {
    assert!(has_extension(Some("dat"), "dat"));
    assert!(!has_extension(Some("data"), "dat"));
    assert!(!has_extension(Some(""), "dat"));
    assert!(!has_extension(None, "dat"));
    assert!(has_extension(Some(""), ""));
}

#[test]
fn select_files_keeps_the_marked_paths_in_order() {
    let files = paths(&["a", "b", "c", "d"]);
    assert_eq!(select_files(&files, &vec![true, false, false, true]), paths(&["a", "d"]));
    assert_eq!(select_files(&files, &vec![false; 4]), paths(&[]));
    assert_eq!(select_files(&files, &vec![true; 4]), files);
    assert_eq!(select_files(&Vec::new(), &Vec::new()), paths(&[]));
}

#[test]
fn data_files_are_the_paths_that_end_in_dat() {
    let files = paths(&[
        "corpus/a.dat",
        "corpus/b.txt",
        "corpus.dat/c",
        "corpus/.dat",
        "corpus/x.tar.dat",
        "corpus/noext",
        "corpus/e.DAT",
        "corpus/a.dat",
    ]);
    assert_eq!(
        data_files(&files),
        paths(&["corpus/a.dat", "corpus/x.tar.dat", "corpus/a.dat"])
    );
    assert_eq!(data_files(&Vec::new()), paths(&[]));
}
