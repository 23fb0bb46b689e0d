//! The two-phase acquisition protocol against the external extraction tool.
//!
//! Phase one invokes the tool in metadata-only mode and classifies its
//! outcome; phase two invokes it in extraction mode with kind-specific
//! transcode flags. The policy decisions — live-stream rejection, the size
//! ceiling, and the size-dependent streaming strategy — are made here, on
//! plain values; running the tool itself is the caller's job.

use vstd::prelude::*;
use crate::download::{extension_spec, Error, MediaKind};

verus! {

/// The maximum asset byte length the pipeline will attempt to acquire.
pub const MAX_FILESIZE: u64 = 0x40000000;

/// Structured metadata reported by the extraction tool for one asset.
#[derive(Debug)]
pub struct Metadata {
    /// The asset identifier reported by the tool.
    pub id: String,
    /// The format selector to request in the data phase.
    pub format_id: String,
    /// The display title; the filename is derived from it.
    pub title: String,
    /// The byte size, when the tool knows it ahead of the transfer.
    pub filesize: Option<u64>,
    /// Whether the asset is an ongoing live stream.
    pub is_live: bool,
}

pub struct MetadataView {
    pub id: Seq<char>,
    pub format_id: Seq<char>,
    pub title: Seq<char>,
    pub filesize: Option<u64>,
    pub is_live: bool,
}

impl View for Metadata {
    type V = MetadataView;

    open spec fn view(&self) -> MetadataView {
        MetadataView {
            id: self.id@,
            format_id: self.format_id@,
            title: self.title@,
            filesize: self.filesize,
            is_live: self.is_live,
        }
    }
}

/// Metadata as decoded from the tool's JSON output, before defaults are
/// applied.
pub struct RawMetadata {
    pub id: String,
    pub format_id: String,
    pub title: String,
    pub filesize: Option<u64>,
    pub is_live: Option<bool>,
}

/// What decoding the tool's metadata output yields: the identifier, format
/// selector, title, optional byte size and optional live flag, or nothing
/// when the bytes are not a JSON object carrying the three string fields.
/// The outcome is a function of the bytes alone.
pub uninterp spec fn parsed_metadata(bytes: Seq<u8>) -> Option<
    (Seq<char>, Seq<char>, Seq<char>, Option<u64>, Option<bool>),
>;

/// Relies on `serde_json::from_slice::<serde_json::Value>` to decode the
/// tool's JSON metadata, and on `Value`'s `get`, `as_str`, `as_u64` and
/// `as_bool` accessors to read the fields out.
#[verifier::external_body]
fn decode_metadata_json(bytes: &[u8]) -> (r: Option<RawMetadata>)
    ensures
        match r {
            Some(m) => parsed_metadata(bytes@) == Some(
                (m.id@, m.format_id@, m.title@, m.filesize, m.is_live),
            ),
            None => parsed_metadata(bytes@) is None,
        },
{
    let v: serde_json::Value = serde_json::from_slice(bytes).ok()?;
    Some(RawMetadata {
        id: v.get("id")?.as_str()?.to_owned(),
        format_id: v.get("format_id")?.as_str()?.to_owned(),
        title: v.get("title")?.as_str()?.to_owned(),
        filesize: v.get("filesize").and_then(serde_json::Value::as_u64),
        is_live: v.get("is_live").and_then(serde_json::Value::as_bool),
    })
}

/// The diagnostic suffix by which the tool signals "data unavailable":
/// the bytes of `truncated.\n`.
pub open spec fn truncated_marker() -> Seq<u8> {
    seq![116u8, 114u8, 117u8, 110u8, 99u8, 97u8, 116u8, 101u8, 100u8, 46u8, 10u8]
}

pub open spec fn has_truncated_suffix(stderr: Seq<u8>) -> bool {
    stderr.len() >= 11 && stderr.skip(stderr.len() - 11) == truncated_marker()
}

fn ends_with_truncated(stderr: &[u8]) -> (r: bool)
    ensures
        r == has_truncated_suffix(stderr@),
{
    let marker: Vec<u8> = vec![116u8, 114u8, 117u8, 110u8, 99u8, 97u8, 116u8, 101u8, 100u8, 46u8, 10u8];
    let len = stderr.len();
    if len < 11 {
        return false;
    }
    let base = len - 11;
    let mut i: usize = 0;
    while i < 11
        invariant
            len == stderr@.len(),
            base == len - 11,
            marker@ == truncated_marker(),
            i <= 11,
            forall|j: int| 0 <= j < i ==> stderr@[base + j] == truncated_marker()[j],
        decreases 11 - i,
    {
        if stderr[base + i] != marker[i] {
            proof {
                assert(stderr@.skip(len - 11)[i as int] == stderr@[base + i]);
            }
            return false;
        }
        i += 1;
    }
    proof {
        assert(stderr@.skip(len - 11) =~= truncated_marker());
    }
    true
}

/// How one invocation of the extraction tool went, as the runner saw it.
pub enum ToolOutcome {
    /// The tool could not be launched at all.
    LaunchFailed,
    /// The tool ran to completion with this exit success flag and these
    /// output channels.
    Finished { success: bool, stdout: Vec<u8>, stderr: Vec<u8> },
}

/// What the metadata phase yields for a given tool outcome: launch failure
/// and undecodable output map to `MetadataFetchFailed`; an unsuccessful exit
/// maps to `NotFound` exactly when the diagnostic output carries the
/// truncation signature; otherwise the decoded metadata, with a missing
/// live flag defaulting to false.
pub open spec fn eval_metadata_spec(outcome: ToolOutcome) -> Result<MetadataView, Error> {
    match outcome {
        ToolOutcome::LaunchFailed => Err(Error::MetadataFetchFailed),
        ToolOutcome::Finished { success, stdout, stderr } => {
            if !success {
                if has_truncated_suffix(stderr@) {
                    Err(Error::NotFound)
                } else {
                    Err(Error::MetadataFetchFailed)
                }
            } else {
                match parsed_metadata(stdout@) {
                    None => Err(Error::MetadataFetchFailed),
                    Some((id, format_id, title, filesize, is_live)) => Ok(
                        MetadataView {
                            id,
                            format_id,
                            title,
                            filesize,
                            is_live: is_live == Some(true),
                        },
                    ),
                }
            }
        },
    }
}

/// Classify the outcome of the metadata-mode invocation.
pub fn eval_metadata(outcome: &ToolOutcome) -> (r: Result<Metadata, Error>)
    ensures
        match r {
            Ok(m) => eval_metadata_spec(*outcome) == Ok::<MetadataView, Error>(m@),
            Err(e) => eval_metadata_spec(*outcome) == Err::<MetadataView, Error>(e),
        },
{
    match outcome {
        ToolOutcome::LaunchFailed => Err(Error::MetadataFetchFailed),
        ToolOutcome::Finished { success, stdout, stderr } => {
            if !*success {
                if ends_with_truncated(stderr.as_slice()) {
                    Err(Error::NotFound)
                } else {
                    Err(Error::MetadataFetchFailed)
                }
            } else {
                match decode_metadata_json(stdout.as_slice()) {
                    None => Err(Error::MetadataFetchFailed),
                    Some(raw) => {
                        let is_live = match raw.is_live {
                            Some(b) => b,
                            None => false,
                        };
                        Ok(Metadata {
                            id: raw.id,
                            format_id: raw.format_id,
                            title: raw.title,
                            filesize: raw.filesize,
                            is_live,
                        })
                    },
                }
            }
        },
    }
}

/// The policy verdict for a live flag and an optional pre-known size:
/// live content is rejected, then a known size at or above the ceiling is
/// rejected, and everything else proceeds.
pub open spec fn policy_spec(is_live: bool, filesize: Option<u64>) -> Result<(), Error> {
    if is_live {
        Err(Error::IsStream)
    } else {
        match filesize {
            Some(n) if n >= MAX_FILESIZE => Err(Error::TooLarge),
            _ => Ok(()),
        }
    }
}

/// Enforce policy on decoded metadata before any data transfer is attempted.
pub fn check_policy(meta: &Metadata) -> (r: Result<(), Error>)
    ensures
        r == policy_spec(meta.is_live, meta.filesize),
{
    if meta.is_live {
        return Err(Error::IsStream);
    }
    match meta.filesize {
        Some(n) => {
            if n >= MAX_FILESIZE {
                Err(Error::TooLarge)
            } else {
                Ok(())
            }
        },
        None => Ok(()),
    }
}

/// A live flag that is set always yields `IsStream`, whatever the reported
/// size and whichever media kind was requested — the policy never consults
/// the kind.
pub proof fn lemma_live_stream_rejected(filesize: Option<u64>)
    ensures
        policy_spec(true, filesize) == Err::<(), Error>(Error::IsStream),
{
}

/// The size ceiling is exact: a reported size of `MAX_FILESIZE` is rejected
/// as too large, one byte less proceeds to the data phase.
pub proof fn lemma_size_ceiling_boundary()
    ensures
        MAX_FILESIZE == 0x40000000u64,
        policy_spec(false, Some(0x40000000u64)) == Err::<(), Error>(Error::TooLarge),
        policy_spec(false, Some(0x3fffffffu64)) == Ok::<(), Error>(()),
{
}

/// How the data-phase bytes are to be consumed, decided by whether a size
/// was known ahead of the transfer.
#[derive(Clone, Copy, Debug, PartialEq, Eq, Structural)]
pub enum SizeStrategy {
    /// The size is known and under the ceiling: stream the tool's output
    /// lazily, in bounded memory.
    Streamed { filesize: u64 },
    /// No size was known in advance: drain the output fully into memory and
    /// report the buffered length afterwards.
    BufferAll,
}

/// Pick the streaming strategy from the pre-known size.
pub fn choose_strategy(filesize: &Option<u64>) -> (r: SizeStrategy)
    ensures
        r == (match *filesize {
            Some(n) => SizeStrategy::Streamed { filesize: n },
            None => SizeStrategy::BufferAll,
        }),
{
    match filesize {
        Some(n) => SizeStrategy::Streamed { filesize: *n },
        None => SizeStrategy::BufferAll,
    }
}

pub open spec fn metadata_args_spec(uri: Seq<char>, kind: MediaKind) -> Seq<Seq<char>> {
    match kind {
        MediaKind::Audio => seq!["-x"@, "--no-download"@, "-J"@, uri],
        MediaKind::Video => seq!["--no-download"@, "-J"@, uri],
    }
}

/// The argument list for the metadata-only invocation of the tool.
pub fn metadata_args(uri: &str, kind: MediaKind) -> (r: Vec<String>)
    ensures
        r.deep_view() == metadata_args_spec(uri@, kind),
{
    let mut args: Vec<String> = Vec::new();
    if kind == MediaKind::Audio {
        args.push("-x".to_owned());
    }
    args.push("--no-download".to_owned());
    args.push("-J".to_owned());
    args.push(uri.to_owned());
    proof {
        assert(args.deep_view() =~= metadata_args_spec(uri@, kind));
    }
    args
}

pub open spec fn data_args_spec(uri: Seq<char>, format_id: Seq<char>, kind: MediaKind) -> Seq<
    Seq<char>,
> {
    let kind_flags = match kind {
        MediaKind::Video => seq!["--recode-video"@, "mp4"@],
        MediaKind::Audio => seq!["--audio-format"@, "mp3"@, "-x"@],
    };
    kind_flags + seq![
        "-f"@,
        format_id,
        "--embed-metadata"@,
        "--embed-thumbnail"@,
        "-o"@,
        "-"@,
        uri,
    ]
}

/// The argument list for the extraction-mode invocation: kind-specific
/// transcode flags, the selected format, metadata/thumbnail embedding, and
/// output on the standard data channel.
pub fn data_args(uri: &str, format_id: &str, kind: MediaKind) -> (r: Vec<String>)
    ensures
        r.deep_view() == data_args_spec(uri@, format_id@, kind),
{
    let mut args: Vec<String> = Vec::new();
    match kind {
        MediaKind::Video => {
            args.push("--recode-video".to_owned());
            args.push("mp4".to_owned());
        },
        MediaKind::Audio => {
            args.push("--audio-format".to_owned());
            args.push("mp3".to_owned());
            args.push("-x".to_owned());
        },
    }
    args.push("-f".to_owned());
    args.push(format_id.to_owned());
    args.push("--embed-metadata".to_owned());
    args.push("--embed-thumbnail".to_owned());
    args.push("-o".to_owned());
    args.push("-".to_owned());
    args.push(uri.to_owned());
    proof {
        assert(args.deep_view() =~= data_args_spec(uri@, format_id@, kind));
    }
    args
}

/// The display filename for a title: `{title}.{extension-for-kind}`.
pub fn filename_for(title: &str, kind: MediaKind) -> (r: String)
    ensures
        r@ == title@ + "."@ + extension_spec(kind),
{
    let mut name = title.to_owned();
    name.append(".");
    name.append(kind.extension());
    name
}

} // verus!
