//! What the restream server answers.
use crate::episode::{Episode, EpisodeState};
use crate::text;
use vstd::prelude::*;
use vstd::string::*;

verus! {

pub const NOT_FOUND: u16 = 404;

pub const INTERNAL_SERVER_ERROR: u16 = 500;

pub const BAD_GATEWAY: u16 = 502;

/// What the server answers to a request.
pub enum Answer {
    /// A status and, in its body, a message.
    Status { code: u16, message: String },
    /// A file on disk, with the content type that is set in place of the guessed one.
    File { path: String, content_type: Option<String> },
    /// What the origin answers at an address.
    Proxy { url: String },
}

/// The name of the file that holds the document of a feed.
pub open spec fn rss_file(slug: Seq<char>) -> Seq<char> {
    slug + ".xml"@
}

/// The name of the file that holds the document of the feed `slug`.
pub fn rss_file_name(slug: &str) -> (res: String)
    ensures
        res@ == rss_file(slug@),
{
    let mut s = slug.to_string();
    s.append(".xml");
    s
}

/// The answer to a request for the document of a feed, which stands at `path` where it
/// `exists`.
pub fn rss_handler(path: &str, exists: bool) -> (res: Answer)
    ensures
        match res {
            Answer::Status { code, message } => !exists && code == NOT_FOUND && message@
                == "feed not found or RSS not yet generated"@,
            Answer::File { path: p, content_type } => exists && p@ == path@ && text::opt_text(
                content_type,
            ) == Some("text/xml; charset=utf-8"@),
            Answer::Proxy { .. } => false,
        },
{
    if !exists {
        Answer::Status {
            code: NOT_FOUND,
            message: "feed not found or RSS not yet generated".to_string(),
        }
    } else {
        Answer::File {
            path: path.to_string(),
            content_type: Some("text/xml; charset=utf-8".to_string()),
        }
    }
}

/// The path of the file of an episode that has been downloaded.
pub open spec fn local_path(state: EpisodeState) -> Option<Seq<char>> {
    match state {
        EpisodeState::Complete { path, .. } => Some(path@),
        EpisodeState::Dynamic { path, .. } => Some(path@),
        _ => None,
    }
}

/// The path of the file of an episode in the given state.
pub fn local_file(state: &EpisodeState) -> (res: Option<String>)
    ensures
        text::opt_text(res) == local_path(*state),
{
    match state {
        EpisodeState::Complete { path, .. } => Some(path.clone()),
        EpisodeState::Dynamic { path, .. } => Some(path.clone()),
        _ => None,
    }
}

/// What a look into the store for an episode gave.
pub enum Lookup {
    Found(Episode),
    Missing,
    Failed,
}

/// The answer to a request for the audio of an episode. `file_exists` tells whether the file
/// of a downloaded episode is on disk. An episode without a file there is fetched from its
/// origin.
pub fn audio_handler(found: &Lookup, file_exists: bool) -> (res: Answer)
    ensures
        match found {
            Lookup::Missing => res matches Answer::Status { code, message } && code == NOT_FOUND
                && message@ == "episode not found"@,
            Lookup::Failed => res matches Answer::Status { code, message } && code
                == INTERNAL_SERVER_ERROR && message@.len() == 0,
            Lookup::Found(ep) => if local_path(ep.state) is Some && file_exists {
                res matches Answer::File { path, content_type } && Some(path@) == local_path(
                    ep.state,
                ) && content_type is None
            } else {
                res matches Answer::Proxy { url } && url@ == ep.enclosure_url@
            },
        },
{
    match found {
        Lookup::Missing => Answer::Status {
            code: NOT_FOUND,
            message: "episode not found".to_string(),
        },
        Lookup::Failed => Answer::Status { code: INTERNAL_SERVER_ERROR, message: String::new() },
        Lookup::Found(ep) => {
            if let Some(path) = local_file(&ep.state) {
                if file_exists {
                    return Answer::File { path, content_type: None };
                }
            }
            Answer::Proxy { url: ep.enclosure_url.as_str().to_string() }
        },
    }
}

/// The answer to a request for an image, which stands at `path` where it `exists`.
pub fn images_handler(path: &str, exists: bool) -> (res: Answer)
    ensures
        match res {
            Answer::Status { code, message } => !exists && code == NOT_FOUND && message@.len() == 0,
            Answer::File { path: p, content_type } => exists && p@ == path@ && content_type is None,
            Answer::Proxy { .. } => false,
        },
{
    if !exists {
        Answer::Status { code: NOT_FOUND, message: String::new() }
    } else {
        Answer::File { path: path.to_string(), content_type: None }
    }
}

/// The headers of the origin's answer that are handed on, as they were asked for by name.
pub fn proxy_headers() -> (res: Vec<&'static str>)
    ensures
        res@.len() == 4,
        res@[0]@ == "Content-Type"@,
        res@[1]@ == "Content-Length"@,
        res@[2]@ == "Accept-Ranges"@,
        res@[3]@ == "Content-Range"@,
{
    let mut names: Vec<&'static str> = Vec::new();
    names.push("Content-Type");
    names.push("Content-Length");
    names.push("Accept-Ranges");
    names.push("Content-Range");
    names
}

/// Only an episode that is complete or dynamic has a file, and it is the one that its state
/// names.
pub proof fn law_which_episodes_have_a_file(state: EpisodeState)
    ensures
        state matches EpisodeState::Complete { path, .. } ==> local_path(state) == Some(path@),
        state matches EpisodeState::Dynamic { path, .. } ==> local_path(state) == Some(path@),
        state is Discovered || state is Matched || state is Downloading || state is Failed
            || state is Quarantined || state is Purged ==> local_path(state) is None,
{
}

/// The document of a feed stands under its slug, and what is not there is answered with the
/// status that says so.
pub proof fn law_names_and_statuses(slug: Seq<char>)
    ensures
        rss_file(slug) == slug + ".xml"@,
        NOT_FOUND == 404,
        INTERNAL_SERVER_ERROR == 500,
        BAD_GATEWAY == 502,
{
}

} // verus!
