//! Feeds as they are stored.
use crate::ids::FeedId;
use crate::text;
use crate::time::UtcTime;
use crate::weburl::Url;
use vstd::prelude::*;

verus! {

/// A feed.
#[derive(Debug)]
pub struct Feed {
    /// `0` means not yet stored; the store gives the feed its number.
    pub id: FeedId,
    pub url: Url,
    pub slug: String,
    pub title: Option<String>,
    pub last_fetched_at: Option<UtcTime>,
    pub etag: Option<String>,
    pub last_modified: Option<String>,
    pub enabled: bool,
    /// Address of the feed's cover art.
    pub image_url: Option<Url>,
}

impl Clone for Feed {
    fn clone(&self) -> (res: Feed)
        ensures
            res == *self,
    {
        Feed {
            id: self.id,
            url: self.url.clone(),
            slug: self.slug.clone(),
            title: text::copy_opt(&self.title),
            last_fetched_at: self.last_fetched_at,
            etag: text::copy_opt(&self.etag),
            last_modified: text::copy_opt(&self.last_modified),
            enabled: self.enabled,
            image_url: crate::weburl::copy_opt_url(&self.image_url),
        }
    }
}

} // verus!
