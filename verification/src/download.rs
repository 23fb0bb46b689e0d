//! Source resolution and the acquisition result type.
//!
//! `Input::from_uri` normalizes a user-supplied link into a canonical source
//! descriptor against a fixed table of site rules; `Media` is the result of a
//! successful acquisition: a known-or-buffered byte length plus a display
//! filename.

use vstd::prelude::*;
use crate::strutil::{str_eq, starts_with, starts_with_spec, strip_prefix};

verus! {

/// Why a request for media failed.
#[derive(Clone, Copy, Debug, PartialEq, Eq, Structural)]
pub enum Error {
    /// The requested audio/video couldn't be found.
    NotFound,
    /// The requested audio/video is a live stream and doesn't have a defined end.
    IsStream,
    /// The requested audio/video is too large.
    TooLarge,
    /// The error is related to the metadata of the video.
    MetadataFetchFailed,
    /// The error is related to the audio/video data itself.
    DataFetchFailed,
    /// The provided link is either malformed or doesn't lead to a downloadable video/audio.
    InvalidLink,
}

/// Audio or video; selects transcode flags, MIME type and cache namespace.
#[derive(Clone, Copy, Debug, PartialEq, Eq, Structural)]
pub enum MediaKind {
    Video,
    Audio,
}

pub open spec fn mime_type_spec(kind: MediaKind) -> Seq<char> {
    match kind {
        MediaKind::Video => "video/mpeg"@,
        MediaKind::Audio => "audio/mpeg"@,
    }
}

pub open spec fn extension_spec(kind: MediaKind) -> Seq<char> {
    match kind {
        MediaKind::Video => "mp4"@,
        MediaKind::Audio => "mp3"@,
    }
}

impl MediaKind {
    pub fn mime_type(self) -> (r: &'static str)
        ensures
            r@ == mime_type_spec(self),
    {
        match self {
            MediaKind::Video => "video/mpeg",
            MediaKind::Audio => "audio/mpeg",
        }
    }

    pub fn extension(self) -> (r: &'static str)
        ensures
            r@ == extension_spec(self),
    {
        match self {
            MediaKind::Video => "mp4",
            MediaKind::Audio => "mp3",
        }
    }
}

/// A canonical source descriptor: one retrievable asset, identified by its
/// normalized URI. Produced only by [`Input::from_uri`].
#[derive(Debug)]
pub enum Input {
    YtDlp { uri: String },
}

impl Input {
    /// The canonical URI this descriptor renders to; it is the cache key.
    pub open spec fn uri_view(self) -> Seq<char> {
        match self {
            Input::YtDlp { uri } => uri@,
        }
    }

    /// The canonical URI as a string.
    pub fn uri(&self) -> (r: &String)
        ensures
            r@ == self.uri_view(),
    {
        match self {
            Input::YtDlp { uri } => uri,
        }
    }
}

/// The host, path and query of a syntactically valid URI.
pub struct UriParts {
    pub host: String,
    pub path: String,
    pub query: Option<String>,
}

pub open spec fn opt_str_view(o: Option<String>) -> Option<Seq<char>> {
    match o {
        Some(s) => Some(s@),
        None => None,
    }
}

/// What parsing a string as a URI yields: host, path and query, or nothing
/// when the string is not a URI with all three positions. The outcome is a
/// function of the input characters alone.
pub uninterp spec fn uri_parts(s: Seq<char>) -> Option<(Seq<char>, Seq<char>, Option<Seq<char>>)>;

/// Relies on `http::Uri::from_str` for URI parsing, and on its `host`,
/// `path_and_query`, `path` and `query` accessors to read the components out.
#[verifier::external_body]
fn parse_uri(s: &str) -> (r: Option<UriParts>)
    ensures
        match r {
            Some(p) => uri_parts(s@) == Some((p.host@, p.path@, opt_str_view(p.query))),
            None => uri_parts(s@) is None,
        },
{
    let uri: http::Uri = s.parse().ok()?;
    let pq = uri.path_and_query()?;
    Some(UriParts {
        host: uri.host()?.to_owned(),
        path: pq.path().to_owned(),
        query: pq.query().map(|q| q.to_owned()),
    })
}

/// Index of the first occurrence of `c` in `s`, or `s.len()` when absent.
pub open spec fn upto(s: Seq<char>, c: char) -> int
    decreases s.len(),
{
    if s.len() == 0 {
        0
    } else if s[0] == c {
        0
    } else {
        1 + upto(s.drop_first(), c)
    }
}

pub proof fn lemma_upto(s: Seq<char>, c: char)
    ensures
        0 <= upto(s, c) <= s.len(),
        upto(s, c) < s.len() ==> s[upto(s, c)] == c,
        forall|j: int| 0 <= j < upto(s, c) ==> s[j] != c,
    decreases s.len(),
{
    if s.len() != 0 && s[0] != c {
        lemma_upto(s.drop_first(), c);
        assert forall|j: int| 0 <= j < upto(s, c) implies s[j] != c by {
            if j > 0 {
                assert(s.drop_first()[j - 1] != c);
            }
        }
    }
}

pub proof fn lemma_upto_is_first(s: Seq<char>, c: char, i: int)
    requires
        0 <= i <= s.len(),
        forall|j: int| 0 <= j < i ==> s[j] != c,
        i < s.len() ==> s[i] == c,
    ensures
        upto(s, c) == i,
    decreases s.len(),
{
    if s.len() != 0 && s[0] != c {
        assert(i != 0);
        lemma_upto_is_first(s.drop_first(), c, i - 1);
    }
}

pub fn upto_exec(s: &str, c: char) -> (r: usize)
    ensures
        r == upto(s@, c),
{
    let len = s.unicode_len();
    let mut i: usize = 0;
    while i < len
        invariant
            len == s@.len(),
            i <= len,
            forall|j: int| 0 <= j < i ==> s@[j] != c,
        decreases len - i,
    {
        if s.get_char(i) == c {
            proof {
                lemma_upto_is_first(s@, c, i as int);
            }
            return i;
        }
        i += 1;
    }
    proof {
        lemma_upto_is_first(s@, c, len as int);
    }
    len
}

/// The value of the first `v=`-prefixed pair of an `&`-separated query
/// string, or nothing when no pair has that prefix.
pub open spec fn first_v_param(q: Seq<char>) -> Option<Seq<char>>
    decreases q.len(),
    via first_v_param_decreases
{
    let k = upto(q, '&');
    let seg = q.take(k);
    if seg.len() >= 2 && seg[0] == 'v' && seg[1] == '=' {
        Some(seg.skip(2))
    } else if k >= q.len() {
        None
    } else {
        first_v_param(q.skip(k + 1))
    }
}

#[via_fn]
proof fn first_v_param_decreases(q: Seq<char>) {
    lemma_upto(q, '&');
}

fn first_v_param_exec(q: &str) -> (r: Option<String>)
    ensures
        match r {
            Some(v) => first_v_param(q@) == Some(v@),
            None => first_v_param(q@) is None,
        },
    decreases q@.len(),
{
    proof {
        lemma_upto(q@, '&');
    }
    let len = q.unicode_len();
    let k = upto_exec(q, '&');
    if k >= 2 && q.get_char(0) == 'v' && q.get_char(1) == '=' {
        let v = q.substring_char(2, k);
        proof {
            assert(q@.take(k as int).skip(2) =~= q@.subrange(2, k as int));
        }
        Some(v.to_owned())
    } else if k == len {
        proof {
            assert(!(q@.take(k as int).len() >= 2 && q@.take(k as int)[0] == 'v'
                && q@.take(k as int)[1] == '='));
        }
        None
    } else {
        first_v_param_exec(q.substring_char(k + 1, len))
    }
}

pub open spec fn youtube_watch_host(host: Seq<char>) -> bool {
    host == "www.youtube.com"@ || host == "music.youtube.com"@
}

pub open spec fn passthrough_host(host: Seq<char>) -> bool {
    ||| host == "vm.tiktok.com"@
    ||| host == "vk.com"@
    ||| host == "twitter.com"@
    ||| host == "x.com"@
}

/// The fixed, ordered site table: what canonical URI a (host, path, query)
/// triple rewrites to, or nothing when no rule matches.
pub open spec fn resolve_parts_spec(
    host: Seq<char>,
    path: Seq<char>,
    query: Option<Seq<char>>,
) -> Option<Seq<char>> {
    let q = match query {
        Some(q) => q,
        None => Seq::<char>::empty(),
    };
    if youtube_watch_host(host) && path == "/watch"@ {
        match first_v_param(q) {
            Some(id) => Some("https://youtu.be/"@ + id),
            None => None,
        }
    } else if host == "youtu.be"@ {
        if path.len() >= 1 && path[0] == '/' {
            Some("https://youtu.be/"@ + path.skip(1))
        } else {
            None
        }
    } else if host == "www.instagram.com"@ {
        if starts_with_spec(path, "/reel/"@) {
            Some("https://www.instagram.com/reel/"@ + path.skip("/reel/"@.len() as int))
        } else {
            None
        }
    } else if passthrough_host(host) {
        Some("https://"@ + host + path)
    } else {
        None
    }
}

/// What resolving a raw link yields: the canonical URI of the matching site
/// rule, or nothing when the link is not a URI or no rule matches.
pub open spec fn resolve_spec(s: Seq<char>) -> Option<Seq<char>> {
    match uri_parts(s) {
        Some(p) => resolve_parts_spec(p.0, p.1, p.2),
        None => None,
    }
}

fn resolve_parts(parts: &UriParts) -> (r: Option<String>)
    ensures
        match r {
            Some(u) => resolve_parts_spec(parts.host@, parts.path@, opt_str_view(parts.query))
                == Some(u@),
            None => resolve_parts_spec(parts.host@, parts.path@, opt_str_view(parts.query))
                is None,
        },
{
    let host = parts.host.as_str();
    let path = parts.path.as_str();
    if (str_eq(host, "www.youtube.com") || str_eq(host, "music.youtube.com"))
        && str_eq(path, "/watch") {
        let id = match &parts.query {
            Some(q) => first_v_param_exec(q.as_str()),
            None => {
                proof {
                    assert(first_v_param(Seq::<char>::empty()) is None);
                }
                None
            },
        };
        match id {
            Some(id) => {
                let mut uri = "https://youtu.be/".to_owned();
                uri.append(id.as_str());
                Some(uri)
            },
            None => None,
        }
    } else if str_eq(host, "youtu.be") {
        if path.unicode_len() >= 1 && path.get_char(0) == '/' {
            let rest = path.substring_char(1, path.unicode_len());
            let mut uri = "https://youtu.be/".to_owned();
            uri.append(rest);
            Some(uri)
        } else {
            None
        }
    } else if str_eq(host, "www.instagram.com") {
        match strip_prefix(path, "/reel/") {
            Some(rest) => {
                let mut uri = "https://www.instagram.com/reel/".to_owned();
                uri.append(rest);
                Some(uri)
            },
            None => None,
        }
    } else if str_eq(host, "vm.tiktok.com") || str_eq(host, "vk.com") || str_eq(host, "twitter.com")
        || str_eq(host, "x.com") {
        let mut uri = "https://".to_owned();
        uri.append(host);
        uri.append(path);
        Some(uri)
    } else {
        None
    }
}

impl Input {
    /// Normalize an arbitrary link into a canonical source descriptor, or
    /// nothing when the link is not a URI or matches no site rule. Purely
    /// syntactic, total, and never panics.
    pub fn from_uri(uri: &str) -> (r: Option<Input>)
        ensures
            match r {
                Some(input) => resolve_spec(uri@) == Some(input.uri_view()),
                None => resolve_spec(uri@) is None,
            },
    {
        match parse_uri(uri) {
            Some(parts) => match resolve_parts(&parts) {
                Some(u) => Some(Input::YtDlp { uri: u }),
                None => None,
            },
            None => None,
        }
    }
}

/// Resolve a raw link or reject it: for any input string the result is
/// either a descriptor or `Error::InvalidLink`.
pub fn resolve(uri: &str) -> (r: Result<Input, Error>)
    ensures
        match r {
            Ok(input) => resolve_spec(uri@) == Some(input.uri_view()),
            Err(e) => e == Error::InvalidLink && resolve_spec(uri@) is None,
        },
{
    match Input::from_uri(uri) {
        Some(input) => Ok(input),
        None => Err(Error::InvalidLink),
    }
}

/// The result of a successful acquisition: a display filename plus either a
/// size known ahead of streaming, or the fully buffered bytes.
#[derive(Debug)]
pub enum Media {
    /// The byte sequence is streamed by the consumer; its length was known
    /// in advance.
    Streamed { filesize: u64, filename: String },
    /// The byte sequence was fully drained into memory because no size was
    /// known in advance.
    Buffered { bytes: Vec<u8>, filename: String },
}

/// The mathematical value of a [`Media`] handle.
pub enum MediaV {
    Streamed { filesize: u64, filename: Seq<char> },
    Buffered { bytes: Seq<u8>, filename: Seq<char> },
}

impl View for Media {
    type V = MediaV;

    open spec fn view(&self) -> MediaV {
        match *self {
            Media::Streamed { filesize, filename } => MediaV::Streamed {
                filesize,
                filename: filename@,
            },
            Media::Buffered { bytes, filename } => MediaV::Buffered {
                bytes: bytes@,
                filename: filename@,
            },
        }
    }
}

impl Media {
    pub open spec fn filename_view(self) -> Seq<char> {
        match self {
            Media::Streamed { filename, .. } => filename@,
            Media::Buffered { filename, .. } => filename@,
        }
    }

    /// The reported byte length: the pre-known size when streaming, the
    /// buffered byte count otherwise.
    pub open spec fn length_view(self) -> nat {
        match self {
            Media::Streamed { filesize, .. } => filesize as nat,
            Media::Buffered { bytes, .. } => bytes@.len(),
        }
    }

    pub open spec fn content_view(self) -> Option<Seq<u8>> {
        match self {
            Media::Streamed { .. } => None,
            Media::Buffered { bytes, .. } => Some(bytes@),
        }
    }

    /// A handle whose bytes will be streamed; the length was reported ahead
    /// of the transfer.
    pub fn streamed(filesize: u64, filename: String) -> (r: Media)
        ensures
            r is Streamed,
            r.length_view() == filesize,
            r.filename_view() == filename@,
    {
        Media::Streamed { filesize, filename }
    }

    /// A handle over fully drained bytes: the reported length is exactly the
    /// buffered byte count.
    pub fn buffered(bytes: Vec<u8>, filename: String) -> (r: Media)
        ensures
            r is Buffered,
            r.length_view() == bytes@.len(),
            r.content_view() == Some(bytes@),
            r.filename_view() == filename@,
    {
        Media::Buffered { bytes, filename }
    }

    pub fn size(&self) -> (r: u64)
        requires
            self.length_view() <= u64::MAX,
        ensures
            r == self.length_view(),
    {
        match self {
            Media::Streamed { filesize, .. } => *filesize,
            Media::Buffered { bytes, .. } => bytes.len() as u64,
        }
    }

    pub fn filename(&self) -> (r: &String)
        ensures
            r@ == self.filename_view(),
    {
        match self {
            Media::Streamed { filename, .. } => filename,
            Media::Buffered { filename, .. } => filename,
        }
    }

    pub fn filename_mut(&mut self) -> (r: &mut String)
        ensures
            r@ == old(self).filename_view(),
            final(self).filename_view() == final(r)@,
            (*final(self)) is Streamed <==> (*old(self)) is Streamed,
            final(self).length_view() == old(self).length_view(),
            final(self).content_view() == old(self).content_view(),
    {
        match self {
            Media::Streamed { filename, .. } => filename,
            Media::Buffered { filename, .. } => filename,
        }
    }
}

} // verus!
