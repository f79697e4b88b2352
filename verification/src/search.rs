//! Full-text search and standing searches: what a request must say.

use vstd::prelude::*;

use crate::error::{ApiError, BAD_REQUEST};
use crate::text::{begins, chars, is_blank, owned, starts_with, trim, trimmed};

verus! {

/// Hits a search returns when it names no number.
pub fn default_search_limit() -> (r: usize)
    ensures
        r == 20,
{
    20
}

/// How many hits a search may return; a search needs something to look for.
pub fn search(q: &str, limit: usize) -> (r: Result<usize, ApiError>)
    ensures
        if trimmed(q@).len() == 0 {
            r matches Err(e) && e@ == (400u16, "query 'q' is required"@)
        } else {
            r matches Ok(n) && n == if limit < 1 {
                1
            } else if limit > 100 {
                100
            } else {
                limit as int
            }
        },
{
    if is_blank(q) {
        return Err(ApiError::fixed(BAD_REQUEST, "query 'q' is required"));
    }
    if limit < 1 {
        Ok(1)
    } else if limit > 100 {
        Ok(100)
    } else {
        Ok(limit)
    }
}

/// Whether a text is a web address, by its scheme.
pub open spec fn is_web_url(url: Seq<char>) -> bool {
    begins(url, "http://"@) || begins(url, "https://"@)
}

/// A web address is one that begins with `http://` or with `https://`, whatever
/// follows.
pub proof fn law_a_web_address_names_its_scheme(url: Seq<char>, rest: Seq<char>)
    ensures
        is_web_url("http://"@ + rest),
        is_web_url("https://"@ + rest),
        is_web_url(url) ==> exists|tail: Seq<char>|
            url == #[trigger] ("http://"@ + tail) || url == "https://"@ + tail,
{
    let a = "http://"@;
    let b = "https://"@;
    assert((a + rest).take(a.len() as int) =~= a);
    assert((b + rest).take(b.len() as int) =~= b);
    if begins(url, a) {
        assert(url =~= a + url.skip(a.len() as int));
    } else if begins(url, b) {
        let tail = url.skip(b.len() as int);
        assert(url =~= b + tail);
        assert((a + tail).len() >= 0);
    }
}

/// Whether a text is a web address, by its scheme.
pub fn web_url(url: &str) -> (r: bool)
    ensures
        r == is_web_url(url@),
{
    let cs = chars(url);
    starts_with(&cs, "http://") || starts_with(&cs, "https://")
}

/// A request for a standing search.
#[derive(Debug, PartialEq)]
pub struct SavedSearchBody {
    pub query: String,
    pub app: Option<String>,
    pub dataset: Option<String>,
    pub url: String,
    pub secret: Option<String>,
}

/// Reads a request for a standing search: the query is stored trimmed.
pub fn create_saved_search(body: SavedSearchBody) -> (r: Result<SavedSearchBody, ApiError>)
    ensures
        if trimmed(body.query@).len() == 0 {
            r matches Err(e) && e@ == (400u16, "'query' is required"@)
        } else if !is_web_url(body.url@) {
            r matches Err(e) && e@ == (400u16, "url must be http(s)"@)
        } else {
            &&& r matches Ok(s)
            &&& s.query@ == trimmed(body.query@)
            &&& s.app == body.app && s.dataset == body.dataset
            &&& s.url == body.url && s.secret == body.secret
        },
{
    if is_blank(body.query.as_str()) {
        return Err(ApiError::fixed(BAD_REQUEST, "'query' is required"));
    }
    if !web_url(body.url.as_str()) {
        return Err(ApiError::fixed(BAD_REQUEST, "url must be http(s)"));
    }
    Ok(
        SavedSearchBody {
            query: trim(body.query.as_str()),
            app: body.app,
            dataset: body.dataset,
            url: body.url,
            secret: body.secret,
        },
    )
}

/// Whether documents may be removed: at least one must be named. The number that
/// is reported.
pub fn delete_search_docs(ids: &[String]) -> (r: Result<usize, ApiError>)
    ensures
        if ids@.len() == 0 {
            r matches Err(e) && e@ == (400u16, "'ids' must be non-empty"@)
        } else {
            r == Ok::<usize, ApiError>(ids@.len() as usize)
        },
{
    if ids.len() == 0 {
        return Err(ApiError::fixed(BAD_REQUEST, "'ids' must be non-empty"));
    }
    Ok(ids.len())
}

/// A request for a watch.
#[derive(Debug, PartialEq)]
pub struct CreateWatchBody {
    pub app: String,
    pub dataset: Option<String>,
    pub url: String,
    pub secret: Option<String>,
}

/// Reads a request for a watch: the dataset that is watched, which is every one
/// of the app where none is named.
pub fn create_watch(body: &CreateWatchBody, app_known: bool) -> (r: Result<String, ApiError>)
    ensures
        if !app_known {
            r matches Err(e) && e@ == (404u16, "unknown app '"@ + body.app@ + "'"@)
        } else if !is_web_url(body.url@) {
            r matches Err(e) && e@ == (400u16, "url must be http(s)"@)
        } else {
            r matches Ok(d) && d@ == match body.dataset {
                Some(name) => name@,
                None => "*"@,
            }
        },
{
    if !app_known {
        let mut m = owned("unknown app '");
        m.append(body.app.as_str());
        m.append("'");
        return Err(ApiError::new(crate::error::NOT_FOUND, m));
    }
    if !web_url(body.url.as_str()) {
        return Err(ApiError::fixed(BAD_REQUEST, "url must be http(s)"));
    }
    Ok(
        match &body.dataset {
            Some(name) => owned(name.as_str()),
            None => owned("*"),
        },
    )
}

} // verus!
