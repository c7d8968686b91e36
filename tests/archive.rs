use offregisters_lib::archive::is_gzip_archive;

#[test]
fn gz_extension_is_archive() {
    assert!(is_gzip_archive("example.tar.gz"));
    assert!(is_gzip_archive("x.gz"));
}

#[test]
fn other_names_are_not_archives() {
    assert!(!is_gzip_archive(".gz"));
    assert!(!is_gzip_archive("gz"));
    assert!(!is_gzip_archive("a.gz.txt"));
    assert!(!is_gzip_archive("a.GZ"));
    assert!(!is_gzip_archive("a.gzip"));
    assert!(!is_gzip_archive(".."));
    assert!(!is_gzip_archive(""));
}
