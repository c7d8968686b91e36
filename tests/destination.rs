use offregisters_lib::destination::{basename, join_path, resolve_destination};
use offregisters_lib::error::DownloadError;
use offregisters_lib::target::Target;

#[test]
fn test_basename() {
    assert_eq!(basename("foo/bar/can.txt"), "can.txt")
}

#[test]
fn basename_edge_cases() {
    assert_eq!(basename(""), "");
    assert_eq!(basename("/"), "");
    assert_eq!(basename("dir/"), "");
    assert_eq!(basename("name.ext"), "name.ext");
    assert_eq!(basename("/generate_204"), "generate_204");
}

#[test]
fn join_path_puts_one_separator() {
    assert_eq!(join_path("T", "name.ext"), "T/name.ext");
    assert_eq!(join_path("T/", "name.ext"), "T/name.ext");
    assert_eq!(join_path("", "name.ext"), "name.ext");
    assert_eq!(join_path("/tmp/cache", "ncsi.txt"), "/tmp/cache/ncsi.txt");
}

#[test]
fn destination_is_dir_and_url_file_name() {
    let t = Target::parse("http://host/dir/name.ext").unwrap();
    assert_eq!(
        resolve_destination(Some("T"), t.path()),
        Ok(Some("T/name.ext".to_string()))
    );
}

#[test]
fn no_target_dir_means_no_destination() {
    let t = Target::parse("http://host/dir/name.ext").unwrap();
    assert_eq!(resolve_destination(None, t.path()), Ok(None));
    let root = Target::parse("http://host/").unwrap();
    assert_eq!(resolve_destination(None, root.path()), Ok(None));
}

#[test]
fn empty_basename_is_an_invalid_destination() {
    let root = Target::parse("http://host/").unwrap();
    assert_eq!(
        resolve_destination(Some("T"), root.path()),
        Err(DownloadError::InvalidDestination)
    );
    let dir = Target::parse("http://host/dir/").unwrap();
    assert_eq!(
        resolve_destination(Some("T"), dir.path()),
        Err(DownloadError::InvalidDestination)
    );
    assert_eq!(
        resolve_destination(Some("T"), ""),
        Err(DownloadError::InvalidDestination)
    );
}
