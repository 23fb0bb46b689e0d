//! The direct HTTP download path: query handling and its error texts.
//!
//! A download request carries the link percent-encoded in a `link` query
//! parameter. The handler extracts it, resolves and acquires through the
//! same pipeline as the chat path, and streams the bytes straight back to
//! the requester — it never touches the destination-identifier cache.

use vstd::prelude::*;
use crate::download::{upto, lemma_upto, Error};
use crate::strutil::{starts_with_spec, strip_prefix};

verus! {

/// What percent-decoding yields for a string, decoding invalid UTF-8
/// lossily. The outcome is a function of the input characters alone.
pub uninterp spec fn percent_decoded(s: Seq<char>) -> Seq<char>;

/// Relies on `percent_encoding::percent_decode_str`, with its
/// `decode_utf8_lossy` reading of the decoded bytes.
#[verifier::external_body]
pub fn percent_decode(s: &str) -> (r: String)
    ensures
        r@ == percent_decoded(s@),
{
    percent_encoding::percent_decode_str(s).decode_utf8_lossy().into_owned()
}

/// The `link=` value of the last `&`-separated pair of a query string:
/// pairs are scanned in order and only the final one counts.
pub open spec fn last_link_param(q: Seq<char>) -> Option<Seq<char>>
    decreases q.len(),
    via last_link_param_decreases
{
    let k = upto(q, '&');
    if k >= q.len() {
        if starts_with_spec(q, "link="@) {
            Some(q.skip("link="@.len() as int))
        } else {
            None
        }
    } else {
        last_link_param(q.skip(k + 1))
    }
}

#[via_fn]
proof fn last_link_param_decreases(q: Seq<char>) {
    lemma_upto(q, '&');
}

fn last_link_param_exec(q: &str) -> (r: Option<String>)
    ensures
        match r {
            Some(v) => last_link_param(q@) == Some(v@),
            None => last_link_param(q@) is None,
        },
    decreases q@.len(),
{
    proof {
        lemma_upto(q@, '&');
    }
    let len = q.unicode_len();
    let k = crate::download::upto_exec(q, '&');
    if k == len {
        match strip_prefix(q, "link=") {
            Some(rest) => Some(rest.to_owned()),
            None => None,
        }
    } else {
        last_link_param_exec(q.substring_char(k + 1, len))
    }
}

/// Extract and percent-decode the requested link from an optional query
/// string; each failure carries the message the requester is shown.
pub fn extract_link(query: Option<&str>) -> (r: Result<String, &'static str>)
    ensures
        match query {
            None => r matches Err(m) && m@ == "no query parameters provided"@,
            Some(q) => match last_link_param(q@) {
                Some(l) => r matches Ok(link) && link@ == percent_decoded(l),
                None => r matches Err(m) && m@ == "`link` query parameter missing"@,
            },
        },
{
    match query {
        None => Err("no query parameters provided"),
        Some(q) => match last_link_param_exec(q) {
            Some(l) => Ok(percent_decode(l.as_str())),
            None => Err("`link` query parameter missing"),
        },
    }
}

pub open spec fn web_error_message_spec(error: Error) -> Seq<char> {
    match error {
        Error::TooLarge => "The media is too big"@,
        Error::IsStream => "Livestreams can't be downloaded"@,
        Error::NotFound => "Invalid video ID, make sure the link is copied & pasted correctly"@,
        Error::InvalidLink => "Invalid link, make sure the link is copied & pasted correctly"@,
        Error::DataFetchFailed | Error::MetadataFetchFailed => "Server error"@,
    }
}

/// The message the HTTP path returns for each pipeline error, one to one.
pub fn web_error_message(error: Error) -> (r: &'static str)
    ensures
        r@ == web_error_message_spec(error),
{
    match error {
        Error::TooLarge => "The media is too big",
        Error::IsStream => "Livestreams can't be downloaded",
        Error::NotFound => "Invalid video ID, make sure the link is copied & pasted correctly",
        Error::InvalidLink => "Invalid link, make sure the link is copied & pasted correctly",
        Error::DataFetchFailed | Error::MetadataFetchFailed => "Server error",
    }
}

/// The `Content-Disposition` header value naming the download.
pub fn content_disposition(name: &str) -> (r: String)
    ensures
        r@ == "attachment; filename=\""@ + name@ + "\""@,
{
    let mut header = "attachment; filename=\"".to_owned();
    header.append(name);
    header.append("\"");
    header
}

} // verus!
