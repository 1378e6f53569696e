//! Web addresses, as the text and the path that a parser found in them.
use vstd::prelude::*;

verus! {

/// A parsed web address: its normalised text and its path.
#[derive(Debug)]
pub struct Url {
    text: String,
    path: String,
}

/// What `url::Url::parse` gives for a text: the normalised text and the path, or the error's
/// message.
pub uninterp spec fn url_parse(s: Seq<char>) -> Result<(Seq<char>, Seq<char>), Seq<char>>;

/// `url::Url::parse` reads an absolute address, a function of its text alone. `as_str` gives
/// its normalised form and `path` the part between the host and the query.
#[verifier::external_body]
fn parse_url(s: &str) -> (res: Result<(String, String), String>)
    ensures
        match res {
            Ok(found) => url_parse(s@) == Ok::<(Seq<char>, Seq<char>), Seq<char>>((found.0@, found.1@)),
            Err(message) => url_parse(s@) == Err::<(Seq<char>, Seq<char>), Seq<char>>(message@),
        },
{
    match url::Url::parse(s) {
        Ok(u) => Ok((u.as_str().to_string(), u.path().to_string())),
        Err(e) => Err(e.to_string()),
    }
}

impl Url {
    /// The normalised text of the address.
    pub closed spec fn view(&self) -> Seq<char> {
        self.text@
    }

    /// The path of the address.
    pub closed spec fn path_view(&self) -> Seq<char> {
        self.path@
    }

    /// Parses an absolute address; an error is given as its message.
    pub fn parse(s: &str) -> (res: Result<Url, String>)
        ensures
            match res {
                Ok(u) => url_parse(s@) == Ok::<(Seq<char>, Seq<char>), Seq<char>>(
                    (u@, u.path_view()),
                ),
                Err(message) => url_parse(s@) == Err::<(Seq<char>, Seq<char>), Seq<char>>(message@),
            },
    {
        match parse_url(s) {
            Ok((text, path)) => Ok(Url { text, path }),
            Err(message) => Err(message),
        }
    }

    /// The address with the given normalised text and path.
    pub(crate) fn from_parts(text: String, path: String) -> (res: Url)
        ensures
            res@ == text@,
            res.path_view() == path@,
    {
        Url { text, path }
    }

    /// The normalised text of the address.
    pub fn as_str(&self) -> (res: &str)
        ensures
            res@ == self@,
    {
        self.text.as_str()
    }

    /// The path of the address.
    pub fn path(&self) -> (res: &str)
        ensures
            res@ == self.path_view(),
    {
        self.path.as_str()
    }
}

impl Clone for Url {
    fn clone(&self) -> (res: Url)
        ensures
            res == *self,
    {
        Url { text: self.text.clone(), path: self.path.clone() }
    }
}

/// The normalised text of an optional address.
pub open spec fn opt_url_text(o: Option<Url>) -> Option<Seq<char>> {
    match o {
        Some(u) => Some(u@),
        None => None,
    }
}

/// A copy of an optional address.
pub fn copy_opt_url(o: &Option<Url>) -> (res: Option<Url>)
    ensures
        res == *o,
{
    match o {
        Some(u) => Some(u.clone()),
        None => None,
    }
}

} // verus!
