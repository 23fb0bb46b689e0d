//! The destination-identifier cache.
//!
//! Maps (canonical source URI, media kind) to the identifier the upload
//! transport handed back for it. Audio and video identifiers for the same
//! URI live in disjoint namespaces; within a namespace keys are unique and
//! a repeated insert overwrites (last write wins).

use vstd::prelude::*;
use vstd::utf8::{encode_utf8, valid_utf8};
use vstd::string::StringSliceAdditionalSpecFns;
use crate::download::MediaKind;
use crate::strutil::str_eq;

verus! {

/// The map an association list denotes: later entries override earlier ones.
pub open spec fn entries_map(s: Seq<(String, String)>) -> Map<Seq<char>, Seq<char>>
    decreases s.len(),
{
    if s.len() == 0 {
        Map::empty()
    } else {
        entries_map(s.drop_last()).insert(s.last().0@, s.last().1@)
    }
}

/// No two entries share a key.
pub open spec fn entry_keys_unique(s: Seq<(String, String)>) -> bool {
    forall|i: int, j: int| 0 <= i < j < s.len() ==> s[i].0@ != s[j].0@
}

proof fn lemma_entries_map_contains(s: Seq<(String, String)>, k: Seq<char>)
    ensures
        entries_map(s).contains_key(k) <==> exists|i: int| 0 <= i < s.len() && s[i].0@ == k,
    decreases s.len(),
{
    if s.len() > 0 {
        lemma_entries_map_contains(s.drop_last(), k);
        if s.last().0@ == k {
            assert(s[s.len() - 1].0@ == k);
        } else {
            if entries_map(s).contains_key(k) {
                let i = choose|i: int| 0 <= i < s.drop_last().len() && s.drop_last()[i].0@ == k;
                assert(s[i].0@ == k);
            }
            if exists|i: int| 0 <= i < s.len() && s[i].0@ == k {
                let i = choose|i: int| 0 <= i < s.len() && s[i].0@ == k;
                assert(s.drop_last()[i].0@ == k);
            }
        }
    }
}

proof fn lemma_entries_map_index(s: Seq<(String, String)>, i: int)
    requires
        entry_keys_unique(s),
        0 <= i < s.len(),
    ensures
        entries_map(s).contains_key(s[i].0@),
        entries_map(s)[s[i].0@] == s[i].1@,
    decreases s.len(),
{
    if i < s.len() - 1 {
        assert(entry_keys_unique(s.drop_last())) by {
            assert(forall|x: int, y: int|
                0 <= x < y < s.drop_last().len() ==> s.drop_last()[x].0@ != s.drop_last()[y].0@);
        }
        lemma_entries_map_index(s.drop_last(), i);
        assert(s[i].0@ != s.last().0@);
        assert(s.drop_last()[i] == s[i]);
    }
}

proof fn lemma_entries_map_update(s: Seq<(String, String)>, i: int, e: (String, String))
    requires
        entry_keys_unique(s),
        0 <= i < s.len(),
        e.0@ == s[i].0@,
    ensures
        entries_map(s.update(i, e)) =~= entries_map(s).insert(e.0@, e.1@),
    decreases s.len(),
{
    let t = s.update(i, e);
    if i == s.len() - 1 {
        assert(t.drop_last() =~= s.drop_last());
        assert(t.last() == e);
    } else {
        assert(entry_keys_unique(s.drop_last()));
        lemma_entries_map_update(s.drop_last(), i, e);
        assert(t.drop_last() =~= s.drop_last().update(i, e));
        assert(t.last() == s.last());
        assert(s[i].0@ != s.last().0@);
    }
}

/// The concurrent key-value store of destination identifiers. One instance
/// is process-scoped: loaded once at startup, flushed once at shutdown.
pub struct Cache {
    tracks: Vec<(String, String)>,
    videos: Vec<(String, String)>,
}

/// The namespace whose identifiers the other kind never touches.
pub open spec fn other_kind(kind: MediaKind) -> MediaKind {
    match kind {
        MediaKind::Video => MediaKind::Audio,
        MediaKind::Audio => MediaKind::Video,
    }
}

impl Cache {
    pub closed spec fn tracks_entries(self) -> Seq<(String, String)> {
        self.tracks@
    }

    pub closed spec fn videos_entries(self) -> Seq<(String, String)> {
        self.videos@
    }

    /// Both namespaces keep their keys unique.
    pub open spec fn wf(self) -> bool {
        entry_keys_unique(self.tracks_entries()) && entry_keys_unique(self.videos_entries())
    }

    /// The audio namespace, as a map from canonical URI to identifier.
    pub open spec fn tracks_map(self) -> Map<Seq<char>, Seq<char>> {
        entries_map(self.tracks_entries())
    }

    /// The video namespace, as a map from canonical URI to identifier.
    pub open spec fn videos_map(self) -> Map<Seq<char>, Seq<char>> {
        entries_map(self.videos_entries())
    }

    /// The namespace for one media kind.
    pub open spec fn map_for(self, kind: MediaKind) -> Map<Seq<char>, Seq<char>> {
        match kind {
            MediaKind::Video => self.videos_map(),
            MediaKind::Audio => self.tracks_map(),
        }
    }

    /// An empty cache: what startup yields when no persisted table exists.
    pub fn new() -> (r: Cache)
        ensures
            r.wf(),
            r.map_for(MediaKind::Audio) == Map::<Seq<char>, Seq<char>>::empty(),
            r.map_for(MediaKind::Video) == Map::<Seq<char>, Seq<char>>::empty(),
    {
        Cache { tracks: Vec::new(), videos: Vec::new() }
    }

    /// Look up the identifier cached for a URI and kind. Returns an owned
    /// copy, so no lock needs to be held across whatever the caller does
    /// with it; has no side effect.
    pub fn get(&self, uri: &str, mkind: MediaKind) -> (r: Option<String>)
        requires
            self.wf(),
        ensures
            match r {
                Some(id) => self.map_for(mkind).contains_key(uri@) && id@ == self.map_for(
                    mkind,
                )[uri@],
                None => !self.map_for(mkind).contains_key(uri@),
            },
    {
        match mkind {
            MediaKind::Video => get_in(&self.videos, uri),
            MediaKind::Audio => get_in(&self.tracks, uri),
        }
    }

    /// Record the identifier obtained for a URI and kind: an upsert into
    /// that kind's namespace, leaving the other namespace untouched.
    pub fn set(&mut self, uri: String, mkind: MediaKind, tg_id: String)
        requires
            old(self).wf(),
        ensures
            final(self).wf(),
            final(self).map_for(mkind) == old(self).map_for(mkind).insert(uri@, tg_id@),
            final(self).map_for(other_kind(mkind)) == old(self).map_for(other_kind(mkind)),
    {
        match mkind {
            MediaKind::Video => set_in(&mut self.videos, uri, tg_id),
            MediaKind::Audio => set_in(&mut self.tracks, uri, tg_id),
        }
    }
}

fn get_in(entries: &Vec<(String, String)>, uri: &str) -> (r: Option<String>)
    requires
        entry_keys_unique(entries@),
    ensures
        match r {
            Some(id) => entries_map(entries@).contains_key(uri@) && id@ == entries_map(
                entries@,
            )[uri@],
            None => !entries_map(entries@).contains_key(uri@),
        },
{
    let ghost s = entries@;
    let mut i: usize = 0;
    while i < entries.len()
        invariant
            s == entries@,
            entry_keys_unique(s),
            i <= s.len(),
            forall|j: int| 0 <= j < i ==> s[j].0@ != uri@,
        decreases entries.len() - i,
    {
        if str_eq(uri, entries[i].0.as_str()) {
            proof {
                lemma_entries_map_index(s, i as int);
            }
            return Some(entries[i].1.clone());
        }
        i += 1;
    }
    proof {
        lemma_entries_map_contains(s, uri@);
    }
    None
}

fn set_in(entries: &mut Vec<(String, String)>, uri: String, tg_id: String)
    requires
        entry_keys_unique(old(entries)@),
    ensures
        entry_keys_unique(final(entries)@),
        entries_map(final(entries)@) == entries_map(old(entries)@).insert(uri@, tg_id@),
{
    let ghost s = entries@;
    match find_key(entries, uri.as_str()) {
        Some(i) => {
            let ghost e = (s[i as int].0, tg_id);
            let old_entry = entries.remove(i);
            entries.insert(i, (old_entry.0, tg_id));
            proof {
                let t = s.update(i as int, e);
                assert(entries@ =~= t);
                lemma_entries_map_update(s, i as int, e);
                assert(entry_keys_unique(t)) by {
                    assert(forall|x: int| 0 <= x < t.len() ==> t[x].0@ == s[x].0@);
                }
                assert(entries_map(entries@) == entries_map(s).insert(e.0@, e.1@));
            }
        },
        None => {
            entries.push((uri, tg_id));
            proof {
                let t = entries@;
                assert(t.drop_last() =~= s);
                assert(entry_keys_unique(t)) by {
                    assert(forall|x: int| 0 <= x < s.len() ==> t[x] == s[x]);
                }
            }
        },
    }
}

fn find_key(entries: &Vec<(String, String)>, uri: &str) -> (r: Option<usize>)
    ensures
        match r {
            Some(i) => i < entries@.len() && entries@[i as int].0@ == uri@,
            None => forall|j: int| 0 <= j < entries@.len() ==> entries@[j].0@ != uri@,
        },
{
    let mut i: usize = 0;
    while i < entries.len()
        invariant
            i <= entries@.len(),
            forall|j: int| 0 <= j < i ==> entries@[j].0@ != uri@,
        decreases entries.len() - i,
    {
        if str_eq(uri, entries[i].0.as_str()) {
            return Some(i);
        }
        i += 1;
    }
    None
}

/// The byte strings of an entry list: each key and value as its UTF-8
/// encoding.
pub open spec fn byte_pairs(s: Seq<(String, String)>) -> Seq<(Seq<u8>, Seq<u8>)> {
    Seq::new(s.len(), |i: int| (encode_utf8(s[i].0@), encode_utf8(s[i].1@)))
}

/// A byte as it appears inside a quoted string: quote and backslash are
/// escaped with a backslash, everything else stands for itself.
pub open spec fn esc_byte(b: u8) -> Seq<u8> {
    if b == 34 || b == 92 {
        seq![92u8, b]
    } else {
        seq![b]
    }
}

pub open spec fn esc_bytes(bs: Seq<u8>) -> Seq<u8>
    decreases bs.len(),
{
    if bs.len() == 0 {
        Seq::empty()
    } else {
        esc_bytes(bs.drop_last()) + esc_byte(bs.last())
    }
}

/// A quoted, escaped string.
pub open spec fn enc_string(bs: Seq<u8>) -> Seq<u8> {
    seq![34u8] + esc_bytes(bs) + seq![34u8]
}

/// A `"key":"value"` pair.
pub open spec fn enc_entry(p: (Seq<u8>, Seq<u8>)) -> Seq<u8> {
    enc_string(p.0) + seq![58u8] + enc_string(p.1)
}

/// Comma-separated pairs.
pub open spec fn enc_entries(ps: Seq<(Seq<u8>, Seq<u8>)>) -> Seq<u8>
    decreases ps.len(),
{
    if ps.len() == 0 {
        Seq::empty()
    } else if ps.len() == 1 {
        enc_entry(ps[0])
    } else {
        enc_entries(ps.drop_last()) + seq![44u8] + enc_entry(ps.last())
    }
}

/// The bytes of `{"tracks":{`.
pub open spec fn open_tracks() -> Seq<u8> {
    seq![123u8, 34u8, 116u8, 114u8, 97u8, 99u8, 107u8, 115u8, 34u8, 58u8, 123u8]
}

/// The bytes of `,"videos":{`.
pub open spec fn open_videos() -> Seq<u8> {
    seq![44u8, 34u8, 118u8, 105u8, 100u8, 101u8, 111u8, 115u8, 34u8, 58u8, 123u8]
}

/// The whole persisted table: a JSON-shaped object with the two mappings,
/// `{"tracks":{...},"videos":{...}}`.
pub open spec fn enc_cache(tracks: Seq<(Seq<u8>, Seq<u8>)>, videos: Seq<(Seq<u8>, Seq<u8>)>) -> Seq<
    u8,
> {
    open_tracks() + enc_entries(tracks) + seq![125u8] + open_videos() + enc_entries(videos)
        + seq![125u8, 125u8]
}

fn encode_string_into(out: &mut Vec<u8>, s: &str)
    ensures
        final(out)@ == old(out)@ + enc_string(s.spec_bytes()),
{
    let ghost start = out@;
    out.push(34);
    let bytes = s.as_bytes();
    let mut i: usize = 0;
    while i < bytes.len()
        invariant
            bytes@ == s.spec_bytes(),
            i <= bytes@.len(),
            out@ == start + seq![34u8] + esc_bytes(bytes@.take(i as int)),
        decreases bytes.len() - i,
    {
        let b = bytes[i];
        if b == 34 || b == 92 {
            out.push(92);
        }
        out.push(b);
        proof {
            assert(bytes@.take(i + 1).drop_last() =~= bytes@.take(i as int));
            assert(out@ =~= start + seq![34u8] + esc_bytes(bytes@.take(i + 1)));
        }
        i += 1;
    }
    out.push(34);
    proof {
        assert(bytes@.take(bytes@.len() as int) =~= bytes@);
        assert(out@ =~= start + enc_string(s.spec_bytes()));
    }
}

fn encode_entries_into(out: &mut Vec<u8>, entries: &Vec<(String, String)>)
    ensures
        final(out)@ == old(out)@ + enc_entries(byte_pairs(entries@)),
{
    let ghost start = out@;
    let ghost ps = byte_pairs(entries@);
    let mut i: usize = 0;
    while i < entries.len()
        invariant
            ps == byte_pairs(entries@),
            ps.len() == entries@.len(),
            i <= entries@.len(),
            out@ == start + enc_entries(ps.take(i as int)),
        decreases entries.len() - i,
    {
        if i > 0 {
            out.push(44);
        }
        encode_string_into(out, entries[i].0.as_str());
        out.push(58);
        encode_string_into(out, entries[i].1.as_str());
        proof {
            assert(ps.take(i + 1).drop_last() =~= ps.take(i as int));
            assert(ps.take(i + 1).last() == ps[i as int]);
            if i == 0 {
                assert(out@ =~= start + enc_entry(ps[0]));
            }
            assert(out@ =~= start + enc_entries(ps.take(i + 1)));
        }
        i += 1;
    }
    proof {
        assert(ps.take(ps.len() as int) =~= ps);
    }
}

fn push_literal(out: &mut Vec<u8>, lit: &Vec<u8>)
    ensures
        final(out)@ == old(out)@ + lit@,
{
    let ghost start = out@;
    let mut i: usize = 0;
    while i < lit.len()
        invariant
            i <= lit@.len(),
            out@ == start + lit@.take(i as int),
        decreases lit.len() - i,
    {
        out.push(lit[i]);
        proof {
            assert(out@ =~= start + lit@.take(i + 1));
        }
        i += 1;
    }
    proof {
        assert(lit@.take(lit@.len() as int) =~= lit@);
    }
}

impl Cache {
    /// Serialize the whole table to its persisted byte form. Called once at
    /// orderly shutdown; the caller overwrites the cache file wholesale.
    pub fn to_bytes(&self) -> (r: Vec<u8>)
        ensures
            r@ == enc_cache(byte_pairs(self.tracks_entries()), byte_pairs(self.videos_entries())),
    {
        let mut out: Vec<u8> = Vec::new();
        let lit_tracks: Vec<u8> = vec![123u8, 34u8, 116u8, 114u8, 97u8, 99u8, 107u8, 115u8, 34u8, 58u8, 123u8];
        let lit_videos: Vec<u8> = vec![44u8, 34u8, 118u8, 105u8, 100u8, 101u8, 111u8, 115u8, 34u8, 58u8, 123u8];
        proof {
            assert(lit_tracks@ =~= open_tracks());
            assert(lit_videos@ =~= open_videos());
        }
        push_literal(&mut out, &lit_tracks);
        encode_entries_into(&mut out, &self.tracks);
        out.push(125);
        push_literal(&mut out, &lit_videos);
        encode_entries_into(&mut out, &self.videos);
        out.push(125);
        out.push(125);
        proof {
            assert(out@ =~= enc_cache(
                byte_pairs(self.tracks_entries()),
                byte_pairs(self.videos_entries()),
            ));
        }
        out
    }
}

/// A parsed quoted string starting right after its opening quote: the
/// unescaped bytes and the position after the closing quote. A backslash
/// makes the next byte literal; an unescaped quote ends the string.
pub open spec fn parse_string_body(bs: Seq<u8>, i: int) -> Option<(Seq<u8>, int)>
    decreases bs.len() - i,
{
    if i < 0 || i >= bs.len() {
        None
    } else if bs[i] == 34 {
        Some((Seq::empty(), i + 1))
    } else if bs[i] == 92 {
        if i + 1 < bs.len() {
            match parse_string_body(bs, i + 2) {
                Some(r) => Some((seq![bs[i + 1]] + r.0, r.1)),
                None => None,
            }
        } else {
            None
        }
    } else {
        match parse_string_body(bs, i + 1) {
            Some(r) => Some((seq![bs[i]] + r.0, r.1)),
            None => None,
        }
    }
}

/// A parsed quoted string starting at its opening quote.
pub open spec fn parse_string(bs: Seq<u8>, i: int) -> Option<(Seq<u8>, int)> {
    if 0 <= i < bs.len() && bs[i] == 34 {
        parse_string_body(bs, i + 1)
    } else {
        None
    }
}

proof fn lemma_parse_string_body_bounds(bs: Seq<u8>, i: int)
    ensures
        parse_string_body(bs, i) matches Some(r) ==> i < r.1 <= bs.len(),
    decreases bs.len() - i,
{
    if 0 <= i < bs.len() {
        if bs[i] == 34 {
        } else if bs[i] == 92 {
            if i + 1 < bs.len() {
                lemma_parse_string_body_bounds(bs, i + 2);
            }
        } else {
            lemma_parse_string_body_bounds(bs, i + 1);
        }
    }
}

proof fn lemma_parse_string_bounds(bs: Seq<u8>, i: int)
    ensures
        parse_string(bs, i) matches Some(r) ==> i + 1 < r.1 <= bs.len(),
{
    if 0 <= i < bs.len() && bs[i] == 34 {
        lemma_parse_string_body_bounds(bs, i + 1);
    }
}

/// The parsed pairs of a mapping, starting right after its opening brace:
/// the key-value pairs and the position after the closing brace. A trailing
/// comma before the closing brace is tolerated.
pub open spec fn parse_entries(bs: Seq<u8>, i: int) -> Option<(Seq<(Seq<u8>, Seq<u8>)>, int)>
    decreases bs.len() - i,
    via parse_entries_decreases
{
    if i < 0 || i >= bs.len() {
        None
    } else if bs[i] == 125 {
        Some((Seq::empty(), i + 1))
    } else {
        match parse_string(bs, i) {
            None => None,
            Some(k) => {
                if k.1 < bs.len() && bs[k.1] == 58 {
                    match parse_string(bs, k.1 + 1) {
                        None => None,
                        Some(v) => {
                            if v.1 < bs.len() && bs[v.1] == 44 {
                                match parse_entries(bs, v.1 + 1) {
                                    Some(rest) => Some((seq![(k.0, v.0)] + rest.0, rest.1)),
                                    None => None,
                                }
                            } else if v.1 < bs.len() && bs[v.1] == 125 {
                                Some((seq![(k.0, v.0)], v.1 + 1))
                            } else {
                                None
                            }
                        },
                    }
                } else {
                    None
                }
            },
        }
    }
}

#[via_fn]
proof fn parse_entries_decreases(bs: Seq<u8>, i: int) {
    lemma_parse_string_bounds(bs, i);
    match parse_string(bs, i) {
        Some(k) => {
            lemma_parse_string_bounds(bs, k.1 + 1);
        },
        None => {},
    }
}

proof fn lemma_parse_entries_bounds(bs: Seq<u8>, i: int)
    ensures
        parse_entries(bs, i) matches Some(r) ==> i < r.1 <= bs.len(),
    decreases bs.len() - i,
{
    if 0 <= i < bs.len() && bs[i] != 125 {
        lemma_parse_string_bounds(bs, i);
        match parse_string(bs, i) {
            Some(k) => {
                if k.1 < bs.len() && bs[k.1] == 58 {
                    lemma_parse_string_bounds(bs, k.1 + 1);
                    match parse_string(bs, k.1 + 1) {
                        Some(v) => {
                            if v.1 < bs.len() && bs[v.1] == 44 {
                                lemma_parse_entries_bounds(bs, v.1 + 1);
                            }
                        },
                        None => {},
                    }
                }
            },
            None => {},
        }
    }
}

/// The two mappings of a persisted table, or nothing when the bytes do not
/// have the `{"tracks":{...},"videos":{...}}` shape.
pub open spec fn parse_cache(bs: Seq<u8>) -> Option<
    (Seq<(Seq<u8>, Seq<u8>)>, Seq<(Seq<u8>, Seq<u8>)>),
> {
    if bs.len() >= 11 && bs.subrange(0, 11) == open_tracks() {
        match parse_entries(bs, 11) {
            None => None,
            Some(t) => {
                if t.1 + 11 <= bs.len() && bs.subrange(t.1, t.1 + 11) == open_videos() {
                    match parse_entries(bs, t.1 + 11) {
                        None => None,
                        Some(v) => {
                            if v.1 + 1 == bs.len() && bs[v.1] == 125 {
                                Some((t.0, v.0))
                            } else {
                                None
                            }
                        },
                    }
                } else {
                    None
                }
            },
        }
    } else {
        None
    }
}

fn parse_string_body_exec(bs: &[u8], i: usize) -> (r: Option<(Vec<u8>, usize)>)
    ensures
        match r {
            Some(p) => parse_string_body(bs@, i as int) == Some((p.0@, p.1 as int)),
            None => parse_string_body(bs@, i as int) is None,
        },
    decreases bs@.len() - i,
{
    if i >= bs.len() {
        None
    } else if bs[i] == 34 {
        Some((Vec::new(), i + 1))
    } else if bs[i] == 92 {
        if i + 1 < bs.len() {
            match parse_string_body_exec(bs, i + 2) {
                Some(p) => {
                    let ghost inner = p.0@;
                    let mut v = p.0;
                    v.insert(0, bs[i + 1]);
                    proof {
                        assert(v@ =~= seq![bs@[i + 1]] + inner);
                    }
                    Some((v, p.1))
                },
                None => None,
            }
        } else {
            None
        }
    } else {
        match parse_string_body_exec(bs, i + 1) {
            Some(p) => {
                let ghost inner = p.0@;
                let mut v = p.0;
                v.insert(0, bs[i]);
                proof {
                    assert(v@ =~= seq![bs@[i as int]] + inner);
                }
                Some((v, p.1))
            },
            None => None,
        }
    }
}

fn parse_string_exec(bs: &[u8], i: usize) -> (r: Option<(Vec<u8>, usize)>)
    ensures
        match r {
            Some(p) => parse_string(bs@, i as int) == Some((p.0@, p.1 as int)),
            None => parse_string(bs@, i as int) is None,
        },
{
    if i < bs.len() && bs[i] == 34 {
        parse_string_body_exec(bs, i + 1)
    } else {
        None
    }
}

/// The byte strings of a parsed pair list.
pub open spec fn pairs_view(v: Seq<(Vec<u8>, Vec<u8>)>) -> Seq<(Seq<u8>, Seq<u8>)> {
    Seq::new(v.len(), |i: int| (v[i].0@, v[i].1@))
}

fn parse_entries_exec(bs: &[u8], i: usize) -> (r: Option<(Vec<(Vec<u8>, Vec<u8>)>, usize)>)
    ensures
        match r {
            Some(p) => parse_entries(bs@, i as int) == Some((pairs_view(p.0@), p.1 as int)),
            None => parse_entries(bs@, i as int) is None,
        },
    decreases bs@.len() - i,
{
    if i >= bs.len() {
        None
    } else if bs[i] == 125 {
        let empty: Vec<(Vec<u8>, Vec<u8>)> = Vec::new();
        proof {
            assert(pairs_view(empty@) =~= Seq::<(Seq<u8>, Seq<u8>)>::empty());
        }
        Some((empty, i + 1))
    } else {
        match parse_string_exec(bs, i) {
            None => None,
            Some(k) => {
                proof {
                    lemma_parse_string_bounds(bs@, i as int);
                }
                if k.1 < bs.len() && bs[k.1] == 58 {
                    match parse_string_exec(bs, k.1 + 1) {
                        None => None,
                        Some(v) => {
                            proof {
                                lemma_parse_string_bounds(bs@, k.1 + 1);
                            }
                            let ghost kb = k.0@;
                            let ghost vb = v.0@;
                            if v.1 < bs.len() && bs[v.1] == 44 {
                                match parse_entries_exec(bs, v.1 + 1) {
                                    Some(rest) => {
                                        let ghost rv = pairs_view(rest.0@);
                                        let mut pairs = rest.0;
                                        pairs.insert(0, (k.0, v.0));
                                        proof {
                                            assert(pairs_view(pairs@) =~= seq![(kb, vb)] + rv);
                                        }
                                        Some((pairs, rest.1))
                                    },
                                    None => None,
                                }
                            } else if v.1 < bs.len() && bs[v.1] == 125 {
                                let mut pairs: Vec<(Vec<u8>, Vec<u8>)> = Vec::new();
                                pairs.push((k.0, v.0));
                                proof {
                                    assert(pairs_view(pairs@) =~= seq![(kb, vb)]);
                                }
                                Some((pairs, v.1 + 1))
                            } else {
                                None
                            }
                        },
                    }
                } else {
                    None
                }
            },
        }
    }
}

/// No two parsed pairs share a key, at the byte level.
pub open spec fn bkeys_unique(ps: Seq<(Seq<u8>, Seq<u8>)>) -> bool {
    forall|i: int, j: int| 0 <= i < j < ps.len() ==> ps[i].0 != ps[j].0
}

/// Every parsed key and value is valid UTF-8.
pub open spec fn pairs_utf8_valid(ps: Seq<(Seq<u8>, Seq<u8>)>) -> bool {
    forall|i: int| 0 <= i < ps.len() ==> valid_utf8(#[trigger] ps[i].0) && valid_utf8(ps[i].1)
}

fn bytes_eq(a: &Vec<u8>, b: &Vec<u8>) -> (r: bool)
    ensures
        r == (a@ == b@),
{
    if a.len() != b.len() {
        return false;
    }
    let mut i: usize = 0;
    while i < a.len()
        invariant
            a@.len() == b@.len(),
            i <= a@.len(),
            forall|j: int| 0 <= j < i ==> a@[j] == b@[j],
        decreases a.len() - i,
    {
        if a[i] != b[i] {
            return false;
        }
        i += 1;
    }
    proof {
        assert(a@ =~= b@);
    }
    true
}

fn pairs_keys_unique(pairs: &Vec<(Vec<u8>, Vec<u8>)>) -> (r: bool)
    ensures
        r == bkeys_unique(pairs_view(pairs@)),
{
    let ghost ps = pairs_view(pairs@);
    let n = pairs.len();
    let mut i: usize = 0;
    while i < n
        invariant
            ps == pairs_view(pairs@),
            n == ps.len(),
            i <= n,
            forall|x: int, y: int| 0 <= x < y < ps.len() && x < i ==> ps[x].0 != ps[y].0,
        decreases n - i,
    {
        let mut j: usize = i + 1;
        while j < n
            invariant
                ps == pairs_view(pairs@),
                n == ps.len(),
                i < n,
                i < j <= n,
                forall|y: int| i < y < j ==> ps[i as int].0 != ps[y].0,
            decreases n - j,
        {
            if bytes_eq(&pairs[i].0, &pairs[j].0) {
                proof {
                    assert(ps[i as int].0 == ps[j as int].0);
                }
                return false;
            }
            j += 1;
        }
        i += 1;
    }
    true
}

/// Relies on `String::from_utf8`: it succeeds exactly on valid UTF-8 input
/// and preserves the byte content.
#[verifier::external_body]
fn string_from_utf8(bytes: Vec<u8>) -> (r: Option<String>)
    ensures
        r matches Some(s) ==> encode_utf8(s@) == bytes@,
        r is Some <==> valid_utf8(bytes@),
{
    String::from_utf8(bytes).ok()
}

fn build_entries(pairs: &Vec<(Vec<u8>, Vec<u8>)>) -> (r: Option<Vec<(String, String)>>)
    ensures
        match r {
            Some(es) => byte_pairs(es@) == pairs_view(pairs@),
            None => !pairs_utf8_valid(pairs_view(pairs@)),
        },
{
    let ghost ps = pairs_view(pairs@);
    let n = pairs.len();
    let mut es: Vec<(String, String)> = Vec::new();
    let mut i: usize = 0;
    while i < n
        invariant
            ps == pairs_view(pairs@),
            n == ps.len(),
            i <= n,
            es@.len() == i,
            byte_pairs(es@) =~= ps.take(i as int),
        decreases n - i,
    {
        let kv = vstd::slice::slice_to_vec(pairs[i].0.as_slice());
        let k = match string_from_utf8(kv) {
            Some(k) => k,
            None => {
                proof {
                    assert(!valid_utf8(ps[i as int].0));
                }
                return None;
            },
        };
        let vv = vstd::slice::slice_to_vec(pairs[i].1.as_slice());
        let v = match string_from_utf8(vv) {
            Some(v) => v,
            None => {
                proof {
                    assert(valid_utf8(ps[i as int].0));
                    assert(!valid_utf8(ps[i as int].1));
                }
                return None;
            },
        };
        es.push((k, v));
        proof {
            assert(byte_pairs(es@) =~= ps.take(i + 1));
        }
        i += 1;
    }
    proof {
        assert(ps.take(n as int) =~= ps);
    }
    Some(es)
}

fn match_at(bs: &[u8], at: usize, pat: &Vec<u8>) -> (r: bool)
    requires
        at <= bs@.len(),
    ensures
        r == (at + pat@.len() <= bs@.len() && bs@.subrange(at as int, at + pat@.len()) == pat@),
{
    let blen = bs.len();
    if pat.len() > blen - at {
        return false;
    }
    let n = pat.len();
    let mut i: usize = 0;
    while i < n
        invariant
            n == pat@.len(),
            blen == bs@.len(),
            at + n <= blen,
            i <= n,
            forall|j: int| 0 <= j < i ==> bs@[at + j] == pat@[j],
        decreases n - i,
    {
        if bs[at + i] != pat[i] {
            proof {
                assert(bs@.subrange(at as int, at + pat@.len())[i as int] != pat@[i as int]);
            }
            return false;
        }
        i += 1;
    }
    proof {
        assert(bs@.subrange(at as int, at + pat@.len()) =~= pat@);
    }
    true
}

impl Cache {
    /// Parse the persisted byte form read at startup. Bytes that are not in
    /// the persisted shape, carry invalid UTF-8, or repeat a key within a
    /// namespace are rejected.
    pub fn from_bytes(bytes: &[u8]) -> (r: Option<Cache>)
        ensures
            match r {
                Some(c) => parse_cache(bytes@) matches Some(p) && c.wf() && byte_pairs(
                    c.tracks_entries(),
                ) == p.0 && byte_pairs(c.videos_entries()) == p.1 && bkeys_unique(p.0)
                    && bkeys_unique(p.1) && pairs_utf8_valid(p.0) && pairs_utf8_valid(p.1),
                None => match parse_cache(bytes@) {
                    None => true,
                    Some(p) => !(bkeys_unique(p.0) && bkeys_unique(p.1) && pairs_utf8_valid(p.0)
                        && pairs_utf8_valid(p.1)),
                },
            },
    {
        let lit_tracks: Vec<u8> = vec![123u8, 34u8, 116u8, 114u8, 97u8, 99u8, 107u8, 115u8, 34u8, 58u8, 123u8];
        let lit_videos: Vec<u8> = vec![44u8, 34u8, 118u8, 105u8, 100u8, 101u8, 111u8, 115u8, 34u8, 58u8, 123u8];
        proof {
            assert(lit_tracks@ =~= open_tracks());
            assert(lit_videos@ =~= open_videos());
        }
        let blen = bytes.len();
        if !match_at(bytes, 0, &lit_tracks) {
            return None;
        }
        let t = match parse_entries_exec(bytes, 11) {
            Some(t) => t,
            None => {
                return None;
            },
        };
        proof {
            lemma_parse_entries_bounds(bytes@, 11);
        }
        if !match_at(bytes, t.1, &lit_videos) {
            return None;
        }
        let v = match parse_entries_exec(bytes, t.1 + 11) {
            Some(v) => v,
            None => {
                return None;
            },
        };
        proof {
            lemma_parse_entries_bounds(bytes@, t.1 + 11);
        }
        if !(v.1 < bytes.len() && bytes[v.1] == 125 && v.1 + 1 == bytes.len()) {
            return None;
        }
        if !pairs_keys_unique(&t.0) || !pairs_keys_unique(&v.0) {
            return None;
        }
        let tracks = match build_entries(&t.0) {
            Some(es) => es,
            None => {
                return None;
            },
        };
        let videos = match build_entries(&v.0) {
            Some(es) => es,
            None => {
                return None;
            },
        };
        proof {
            assert(entry_keys_unique(tracks@)) by {
                assert forall|x: int, y: int| 0 <= x < y < tracks@.len() implies tracks@[x].0@
                    != tracks@[y].0@ by {
                    assert(byte_pairs(tracks@)[x].0 != byte_pairs(tracks@)[y].0);
                }
            }
            assert(entry_keys_unique(videos@)) by {
                assert forall|x: int, y: int| 0 <= x < y < videos@.len() implies videos@[x].0@
                    != videos@[y].0@ by {
                    assert(byte_pairs(videos@)[x].0 != byte_pairs(videos@)[y].0);
                }
            }
            assert(pairs_utf8_valid(byte_pairs(tracks@))) by {
                assert forall|x: int| 0 <= x < byte_pairs(tracks@).len() implies valid_utf8(
                    #[trigger] byte_pairs(tracks@)[x].0,
                ) && valid_utf8(byte_pairs(tracks@)[x].1) by {
                    vstd::utf8::encode_utf8_valid_utf8(tracks@[x].0@);
                    vstd::utf8::encode_utf8_valid_utf8(tracks@[x].1@);
                }
            }
            assert(pairs_utf8_valid(byte_pairs(videos@))) by {
                assert forall|x: int| 0 <= x < byte_pairs(videos@).len() implies valid_utf8(
                    #[trigger] byte_pairs(videos@)[x].0,
                ) && valid_utf8(byte_pairs(videos@)[x].1) by {
                    vstd::utf8::encode_utf8_valid_utf8(videos@[x].0@);
                    vstd::utf8::encode_utf8_valid_utf8(videos@[x].1@);
                }
            }
        }
        Some(Cache { tracks, videos })
    }
}

proof fn lemma_esc_bytes_append(a: Seq<u8>, b: Seq<u8>)
    ensures
        esc_bytes(a + b) == esc_bytes(a) + esc_bytes(b),
    decreases b.len(),
{
    if b.len() == 0 {
        assert(a + b =~= a);
        assert(esc_bytes(a) + esc_bytes(b) =~= esc_bytes(a));
    } else {
        lemma_esc_bytes_append(a, b.drop_last());
        assert((a + b).drop_last() =~= a + b.drop_last());
        assert((a + b).last() == b.last());
        assert(esc_bytes(a) + esc_bytes(b.drop_last()) + esc_byte(b.last()) =~= esc_bytes(a) + (
        esc_bytes(b.drop_last()) + esc_byte(b.last())));
    }
}

proof fn lemma_esc_bytes_head(s: Seq<u8>)
    requires
        s.len() > 0,
    ensures
        esc_bytes(s) == esc_byte(s[0]) + esc_bytes(s.drop_first()),
{
    assert(s =~= seq![s[0]] + s.drop_first());
    lemma_esc_bytes_append(seq![s[0]], s.drop_first());
    assert(esc_bytes(seq![s[0]]) == esc_byte(s[0])) by {
        assert(seq![s[0]].drop_last() =~= Seq::<u8>::empty());
        assert(seq![s[0]].last() == s[0]);
        assert(esc_bytes(Seq::<u8>::empty()) + esc_byte(s[0]) =~= esc_byte(s[0]));
    }
}

proof fn lemma_parse_escaped(bs: Seq<u8>, i: int, s: Seq<u8>)
    requires
        0 <= i,
        i + esc_bytes(s).len() + 1 <= bs.len(),
        bs.subrange(i, i + esc_bytes(s).len()) == esc_bytes(s),
        bs[i + esc_bytes(s).len()] == 34,
    ensures
        parse_string_body(bs, i) == Some((s, i + esc_bytes(s).len() + 1)),
    decreases s.len(),
{
    let whole = esc_bytes(s);
    if s.len() == 0 {
        assert(whole.len() == 0);
        assert(bs[i] == 34);
    } else {
        let b = s[0];
        let rest = s.drop_first();
        lemma_esc_bytes_head(s);
        let e0 = esc_byte(b);
        let tail = esc_bytes(rest);
        assert(whole == e0 + tail);
        assert(whole.len() == e0.len() + tail.len());
        if b == 34 || b == 92 {
            assert(e0 == seq![92u8, b]);
            assert(bs[i] == 92) by {
                assert(bs.subrange(i, i + whole.len())[0] == whole[0]);
            }
            assert(bs[i + 1] == b) by {
                assert(bs.subrange(i, i + whole.len())[1] == whole[1]);
            }
            assert(bs.subrange(i + 2, i + 2 + tail.len()) =~= tail) by {
                assert forall|k: int| 0 <= k < tail.len() implies bs.subrange(
                    i + 2,
                    i + 2 + tail.len(),
                )[k] == tail[k] by {
                    assert(bs.subrange(i, i + whole.len())[2 + k] == whole[2 + k]);
                }
            }
            lemma_parse_escaped(bs, i + 2, rest);
            assert(seq![b] + rest =~= s);
        } else {
            assert(e0 == seq![b]);
            assert(bs[i] == b) by {
                assert(bs.subrange(i, i + whole.len())[0] == whole[0]);
            }
            assert(bs.subrange(i + 1, i + 1 + tail.len()) =~= tail) by {
                assert forall|k: int| 0 <= k < tail.len() implies bs.subrange(
                    i + 1,
                    i + 1 + tail.len(),
                )[k] == tail[k] by {
                    assert(bs.subrange(i, i + whole.len())[1 + k] == whole[1 + k]);
                }
            }
            lemma_parse_escaped(bs, i + 1, rest);
            assert(seq![b] + rest =~= s);
        }
    }
}

proof fn lemma_parse_enc_string(bs: Seq<u8>, i: int, s: Seq<u8>)
    requires
        0 <= i,
        i + enc_string(s).len() <= bs.len(),
        bs.subrange(i, i + enc_string(s).len()) == enc_string(s),
    ensures
        parse_string(bs, i) == Some((s, i + enc_string(s).len())),
{
    let whole = enc_string(s);
    let inner = esc_bytes(s);
    assert(whole.len() == inner.len() + 2);
    assert(bs[i] == 34) by {
        assert(bs.subrange(i, i + whole.len())[0] == whole[0]);
    }
    assert(bs.subrange(i + 1, i + 1 + inner.len()) =~= inner) by {
        assert forall|k: int| 0 <= k < inner.len() implies bs.subrange(
            i + 1,
            i + 1 + inner.len(),
        )[k] == inner[k] by {
            assert(bs.subrange(i, i + whole.len())[1 + k] == whole[1 + k]);
        }
    }
    assert(bs[i + 1 + inner.len()] == 34) by {
        assert(bs.subrange(i, i + whole.len())[1 + inner.len() as int] == whole[1 + inner.len() as int]);
    }
    lemma_parse_escaped(bs, i + 1, s);
}

proof fn lemma_enc_entries_head(ps: Seq<(Seq<u8>, Seq<u8>)>)
    requires
        ps.len() >= 2,
    ensures
        enc_entries(ps) == enc_entry(ps[0]) + seq![44u8] + enc_entries(ps.drop_first()),
    decreases ps.len(),
{
    if ps.len() == 2 {
        assert(ps.drop_last()[0] == ps[0]);
        assert(ps.drop_last().len() == 1);
        assert(enc_entries(ps.drop_last()) == enc_entry(ps[0]));
        assert(ps.drop_first().len() == 1);
        assert(ps.drop_first()[0] == ps[1]);
        assert(enc_entries(ps.drop_first()) == enc_entry(ps[1]));
        assert(ps.last() == ps[1]);
    } else {
        let dl = ps.drop_last();
        lemma_enc_entries_head(dl);
        assert(dl[0] == ps[0]);
        assert(dl.drop_first() =~= ps.drop_first().drop_last());
        assert(ps.drop_first().len() >= 2);
        assert(ps.drop_first().last() == ps.last());
        assert(enc_entries(ps.drop_first()) == enc_entries(ps.drop_first().drop_last()) + seq![
            44u8,
        ] + enc_entry(ps.last()));
        assert(enc_entry(ps[0]) + seq![44u8] + (enc_entries(dl.drop_first()) + seq![44u8]
            + enc_entry(ps.last())) =~= enc_entry(ps[0]) + seq![44u8] + enc_entries(
            dl.drop_first(),
        ) + seq![44u8] + enc_entry(ps.last()));
    }
}

proof fn lemma_parse_enc_entries(bs: Seq<u8>, i: int, ps: Seq<(Seq<u8>, Seq<u8>)>)
    requires
        0 <= i,
        i + enc_entries(ps).len() + 1 <= bs.len(),
        bs.subrange(i, i + enc_entries(ps).len()) == enc_entries(ps),
        bs[i + enc_entries(ps).len()] == 125,
    ensures
        parse_entries(bs, i) == Some((ps, i + enc_entries(ps).len() + 1)),
    decreases ps.len(),
{
    let whole = enc_entries(ps);
    if ps.len() == 0 {
        assert(whole.len() == 0);
        assert(bs[i] == 125);
    } else {
        let entry = enc_entry(ps[0]);
        let ks = enc_string(ps[0].0);
        let vs = enc_string(ps[0].1);
        assert(entry == ks + seq![58u8] + vs);
        if ps.len() == 1 {
            assert(whole == entry);
        } else {
            lemma_enc_entries_head(ps);
            assert(whole == entry + seq![44u8] + enc_entries(ps.drop_first()));
        }
        // the key string
        assert(bs.subrange(i, i + ks.len()) =~= ks) by {
            assert forall|k: int| 0 <= k < ks.len() implies bs.subrange(i, i + ks.len())[k]
                == ks[k] by {
                assert(bs.subrange(i, i + whole.len())[k] == whole[k]);
                assert(whole[k] == entry[k]);
                assert(entry[k] == (ks + seq![58u8])[k]);
            }
        }
        lemma_parse_enc_string(bs, i, ps[0].0);
        let j = i + ks.len();
        assert(bs[j] == 58) by {
            assert(bs.subrange(i, i + whole.len())[ks.len() as int] == whole[ks.len() as int]);
            assert(whole[ks.len() as int] == entry[ks.len() as int]);
            assert(entry[ks.len() as int] == (ks + seq![58u8] + vs)[ks.len() as int]);
        }
        // the value string
        assert(bs.subrange(j + 1, j + 1 + vs.len()) =~= vs) by {
            assert forall|k: int| 0 <= k < vs.len() implies bs.subrange(j + 1, j + 1 + vs.len())[k]
                == vs[k] by {
                assert(bs.subrange(i, i + whole.len())[ks.len() + 1 + k] == whole[ks.len() + 1
                    + k]);
                assert(whole[ks.len() + 1 + k] == entry[ks.len() + 1 + k]);
                assert(entry[ks.len() + 1 + k] == vs[k]);
            }
        }
        lemma_parse_enc_string(bs, j + 1, ps[0].1);
        let m = j + 1 + vs.len();
        assert(m == i + entry.len());
        if ps.len() == 1 {
            assert(bs[m] == 125);
            assert(parse_entries(bs, i) == Some((seq![(ps[0].0, ps[0].1)], m + 1)));
            assert(seq![(ps[0].0, ps[0].1)] =~= ps);
        } else {
            let tail = enc_entries(ps.drop_first());
            assert(bs[m] == 44) by {
                assert(bs.subrange(i, i + whole.len())[entry.len() as int] == whole[entry.len()
                    as int]);
            }
            assert(bs.subrange(m + 1, m + 1 + tail.len()) =~= tail) by {
                assert forall|k: int| 0 <= k < tail.len() implies bs.subrange(
                    m + 1,
                    m + 1 + tail.len(),
                )[k] == tail[k] by {
                    assert(bs.subrange(i, i + whole.len())[entry.len() + 1 + k] == whole[entry.len()
                        + 1 + k]);
                }
            }
            assert(bs[m + 1 + tail.len()] == 125);
            lemma_parse_enc_entries(bs, m + 1, ps.drop_first());
            assert(seq![(ps[0].0, ps[0].1)] + ps.drop_first() =~= ps);
        }
    }
}

/// Parsing what the serializer produced returns the same table exactly:
/// for any two pair lists, `parse_cache` applied to `enc_cache` of them
/// yields them back. With the contracts of `to_bytes` and `from_bytes`,
/// a table written at shutdown is recovered at the next startup.
#[verifier::rlimit(100)]
pub proof fn lemma_cache_file_round_trip(
    tracks: Seq<(Seq<u8>, Seq<u8>)>,
    videos: Seq<(Seq<u8>, Seq<u8>)>,
)
    ensures
        parse_cache(enc_cache(tracks, videos)) == Some((tracks, videos)),
{
    let bs = enc_cache(tracks, videos);
    let lt = enc_entries(tracks).len() as int;
    let lv = enc_entries(videos).len() as int;
    assert(bs.len() == 25 + lt + lv);
    assert(bs.subrange(0, 11) =~= open_tracks());
    assert(bs.subrange(11, 11 + lt) =~= enc_entries(tracks));
    assert(bs[11 + lt] == 125);
    lemma_parse_enc_entries(bs, 11, tracks);
    assert(parse_entries(bs, 11) == Some((tracks, 12 + lt)));
    assert(bs.subrange(12 + lt, 23 + lt) =~= open_videos());
    assert(bs.subrange(23 + lt, 23 + lt + lv) =~= enc_entries(videos));
    assert(bs[23 + lt + lv] == 125);
    lemma_parse_enc_entries(bs, 23 + lt, videos);
    assert(parse_entries(bs, 23 + lt) == Some((videos, 24 + lt + lv)));
    assert(bs[24 + lt + lv] == 125);
}


/// A well-formed namespace persists unambiguously: its byte-level keys are
/// pairwise distinct and every key and value is valid UTF-8. Together with
/// [`lemma_cache_file_round_trip`] and the contract of [`Cache::from_bytes`],
/// parsing what [`Cache::to_bytes`] wrote recovers a table with exactly the
/// same entries.
pub proof fn lemma_wf_byte_pairs(s: Seq<(String, String)>)
    requires
        entry_keys_unique(s),
    ensures
        bkeys_unique(byte_pairs(s)),
        pairs_utf8_valid(byte_pairs(s)),
{
    let ps = byte_pairs(s);
    assert forall|i: int, j: int| 0 <= i < j < ps.len() implies ps[i].0 != ps[j].0 by {
        if ps[i].0 == ps[j].0 {
            vstd::utf8::encode_utf8_decode_utf8(s[i].0@);
            vstd::utf8::encode_utf8_decode_utf8(s[j].0@);
        }
    }
    assert forall|i: int| 0 <= i < ps.len() implies valid_utf8(#[trigger] ps[i].0) && valid_utf8(
        ps[i].1,
    ) by {
        vstd::utf8::encode_utf8_valid_utf8(s[i].0@);
        vstd::utf8::encode_utf8_valid_utf8(s[i].1@);
    }
}

} // verus!
