use offregisters_lib::target::Target;

#[test]
fn parse_keeps_url_and_path() {
    let t = Target::parse("http://detectportal.firefox.com/success.txt").unwrap();
    assert_eq!(t.as_str(), "http://detectportal.firefox.com/success.txt");
    assert_eq!(t.path(), "/success.txt");
}

#[test]
fn parse_normalises_url() {
    let t = Target::parse("http://Host").unwrap();
    assert_eq!(t.as_str(), "http://host/");
    assert_eq!(t.path(), "/");
}

#[test]
fn parse_path_leaves_out_query() {
    let t = Target::parse("http://host/dir/a.txt?x=1").unwrap();
    assert_eq!(t.path(), "/dir/a.txt");
}

#[test]
fn parse_rejects_relative_url() {
    assert!(Target::parse("not a url").is_none());
    assert!(Target::parse("/dir/a.txt").is_none());
}
