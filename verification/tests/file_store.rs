use web_backend::backend::WebBackend;

#[test]
fn read_returns_what_was_written() {
    let mut backend = WebBackend::default();
    assert_eq!(backend.file_write_all("a.txt", &[1, 2, 3]), Ok(()));
    assert_eq!(backend.file_read_all("a.txt"), Ok(vec![1, 2, 3]));
}

#[test]
fn read_of_unwritten_path_fails() {
    let backend = WebBackend::default();
    assert_eq!(
        backend.file_read_all("missing.txt"),
        Err(String::from("File not found: missing.txt"))
    );
}

#[test]
fn read_of_unwritten_path_fails_beside_other_files() {
    let mut backend = WebBackend::default();
    backend.file_write_all("a", &[1]).unwrap();
    backend.file_write_all("b", &[2]).unwrap();
    assert_eq!(backend.file_read_all("c"), Err(String::from("File not found: c")));
}

#[test]
fn write_replaces_the_contents() {
    let mut backend = WebBackend::default();
    backend.file_write_all("p", &[1, 2, 3, 4]).unwrap();
    backend.file_write_all("p", &[9]).unwrap();
    assert_eq!(backend.file_read_all("p"), Ok(vec![9]));
    assert_eq!(backend.files.len(), 1);
}

#[test]
fn write_leaves_other_paths_alone() {
    let mut backend = WebBackend::default();
    backend.file_write_all("p", &[1]).unwrap();
    backend.file_write_all("q", &[2]).unwrap();
    assert_eq!(backend.file_read_all("p"), Ok(vec![1]));
    assert_eq!(backend.file_read_all("q"), Ok(vec![2]));
}

#[test]
fn empty_contents_are_a_file() {
    let mut backend = WebBackend::default();
    backend.file_write_all("empty", &[]).unwrap();
    assert_eq!(backend.file_read_all("empty"), Ok(vec![]));
}

#[test]
fn paths_are_not_normalised() {
    let mut backend = WebBackend::default();
    backend.file_write_all("dir/a", &[1]).unwrap();
    assert_eq!(backend.file_read_all("dir/a"), Ok(vec![1]));
    assert_eq!(
        backend.file_read_all("./dir/a"),
        Err(String::from("File not found: ./dir/a"))
    );
    assert_eq!(
        backend.file_read_all("dir//a"),
        Err(String::from("File not found: dir//a"))
    );
    assert_eq!(backend.file_read_all("DIR/A"), Err(String::from("File not found: DIR/A")));
}

#[test]
fn empty_path_is_a_path() {
    let mut backend = WebBackend::default();
    assert_eq!(backend.file_read_all(""), Err(String::from("File not found: ")));
    backend.file_write_all("", &[5]).unwrap();
    assert_eq!(backend.file_read_all(""), Ok(vec![5]));
}

#[test]
fn read_does_not_consume() {
    let mut backend = WebBackend::default();
    backend.file_write_all("p", &[1, 2]).unwrap();
    assert_eq!(backend.file_read_all("p"), Ok(vec![1, 2]));
    assert_eq!(backend.file_read_all("p"), Ok(vec![1, 2]));
}

#[test]
fn files_leave_the_log_alone() {
    let mut backend = WebBackend::default();
    backend.print_str_stdout("x").unwrap();
    backend.file_write_all("p", &[1]).unwrap();
    assert_eq!(backend.stdout.len(), 1);
    assert_eq!(backend.stderr, "");
}
