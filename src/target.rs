use vstd::prelude::*;

verus! {

/// The serialisation and the path component of the URL that `s` parses to,
/// or nothing where `s` is not an absolute URL.
pub uninterp spec fn parsed_url(s: Seq<char>) -> Option<(Seq<char>, Seq<char>)>;

/// Relies on url::Url::parse, read back through Url::as_str and Url::path:
/// whether `s` is an absolute URL, and then its serialisation and its path.
#[verifier::external_body]
fn parse_url(s: &str) -> (r: Option<(String, String)>)
    ensures
        match r {
            Some((href, path)) => parsed_url(s@) == Some((href@, path@)),
            None => parsed_url(s@) is None,
        },
{
    match url::Url::parse(s) {
        Ok(u) => Some((u.as_str().to_owned(), u.path().to_owned())),
        Err(_) => None,
    }
}

/// A URL to fetch, held as what the batch reads of it.
#[derive(Debug, Clone)]
pub struct Target {
    href: String,
    path: String,
}

/// The view of a [`Target`].
pub struct TargetView {
    pub href: Seq<char>,
    pub path: Seq<char>,
}

impl View for Target {
    type V = TargetView;

    closed spec fn view(&self) -> TargetView {
        TargetView { href: self.href@, path: self.path@ }
    }
}

impl Target {
    /// Parses an absolute URL; `None` where `s` is not one.
    pub fn parse(s: &str) -> (r: Option<Target>)
        ensures
            match r {
                Some(t) => parsed_url(s@) == Some((t@.href, t@.path)),
                None => parsed_url(s@) is None,
            },
    {
        match parse_url(s) {
            Some((href, path)) => Some(Target { href, path }),
            None => None,
        }
    }

    /// The URL as a string.
    pub fn as_str(&self) -> (s: &str)
        ensures
            s@ == self@.href,
    {
        self.href.as_str()
    }

    /// The URL's path component.
    pub fn path(&self) -> (p: &str)
        ensures
            p@ == self@.path,
    {
        self.path.as_str()
    }
}

} // verus!
