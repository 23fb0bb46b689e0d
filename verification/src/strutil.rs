//! Small verified helpers over `&str` and `String`.
//!
//! The resolver and the orchestration layer work on character sequences;
//! these helpers give them exact, view-level contracts for equality,
//! prefix tests and trimming.

use vstd::prelude::*;

verus! {

/// Character-wise equality of two string slices.
pub fn str_eq(a: &str, b: &str) -> (r: bool)
    ensures
        r == (a@ == b@),
{
    let alen = a.unicode_len();
    let blen = b.unicode_len();
    if alen != blen {
        assert(a@ != b@) by {
            assert(a@.len() != b@.len());
        }
        return false;
    }
    let mut i: usize = 0;
    while i < alen
        invariant
            alen == a@.len(),
            alen == b@.len(),
            i <= alen,
            forall|j: int| 0 <= j < i ==> a@[j] == b@[j],
        decreases alen - i,
    {
        if a.get_char(i) != b.get_char(i) {
            return false;
        }
        i += 1;
    }
    proof {
        assert(a@ =~= b@);
    }
    true
}

/// Whether `s` begins with `prefix`, stated over the character views.
pub open spec fn starts_with_spec(s: Seq<char>, prefix: Seq<char>) -> bool {
    prefix.len() <= s.len() && s.subrange(0, prefix.len() as int) == prefix
}

/// Prefix test over characters.
pub fn starts_with(s: &str, prefix: &str) -> (r: bool)
    ensures
        r == starts_with_spec(s@, prefix@),
{
    let slen = s.unicode_len();
    let plen = prefix.unicode_len();
    if plen > slen {
        return false;
    }
    let mut i: usize = 0;
    while i < plen
        invariant
            slen == s@.len(),
            plen == prefix@.len(),
            plen <= slen,
            i <= plen,
            forall|j: int| 0 <= j < i ==> s@[j] == prefix@[j],
        decreases plen - i,
    {
        if s.get_char(i) != prefix.get_char(i) {
            assert(s@.subrange(0, plen as int)[i as int] != prefix@[i as int]);
            return false;
        }
        i += 1;
    }
    proof {
        assert(s@.subrange(0, plen as int) =~= prefix@);
    }
    true
}

/// The whitespace characters that trimming strips at either end.
pub open spec fn is_space(c: char) -> bool {
    c == ' ' || c == '\t' || c == '\n' || c == '\r'
}

fn is_space_char(c: char) -> (r: bool)
    ensures
        r == is_space(c),
{
    c == ' ' || c == '\t' || c == '\n' || c == '\r'
}

pub open spec fn trim_start_spec(s: Seq<char>) -> Seq<char>
    decreases s.len(),
{
    if s.len() > 0 && is_space(s[0]) {
        trim_start_spec(s.drop_first())
    } else {
        s
    }
}

pub open spec fn trim_end_spec(s: Seq<char>) -> Seq<char>
    decreases s.len(),
{
    if s.len() > 0 && is_space(s.last()) {
        trim_end_spec(s.drop_last())
    } else {
        s
    }
}

/// The characters of `s` with leading and trailing whitespace removed.
pub open spec fn trim_spec(s: Seq<char>) -> Seq<char> {
    trim_end_spec(trim_start_spec(s))
}

proof fn lemma_trim_start(s: Seq<char>, a: int)
    requires
        0 <= a <= s.len(),
        forall|j: int| 0 <= j < a ==> is_space(s[j]),
        a < s.len() ==> !is_space(s[a]),
    ensures
        trim_start_spec(s) =~= s.skip(a),
    decreases a,
{
    if a == 0 {
        assert(s.skip(0) =~= s);
    } else {
        lemma_trim_start(s.drop_first(), a - 1);
        assert(s.skip(a) =~= s.drop_first().skip(a - 1));
    }
}

proof fn lemma_trim_end(s: Seq<char>, b: int)
    requires
        0 <= b <= s.len(),
        forall|j: int| b <= j < s.len() ==> is_space(s[j]),
        b > 0 ==> !is_space(s[b - 1]),
    ensures
        trim_end_spec(s) =~= s.take(b),
    decreases s.len(),
{
    if b == s.len() {
        if s.len() > 0 {
            assert(!is_space(s.last()));
        }
        assert(s.take(b) =~= s);
    } else {
        assert(is_space(s.last()));
        lemma_trim_end(s.drop_last(), b);
        assert(s.drop_last().take(b) =~= s.take(b));
    }
}

/// Strip leading and trailing whitespace.
pub fn trim(s: &str) -> (r: &str)
    ensures
        r@ == trim_spec(s@),
{
    let len = s.unicode_len();
    let mut a: usize = 0;
    while a < len && is_space_char(s.get_char(a))
        invariant
            len == s@.len(),
            a <= len,
            forall|j: int| 0 <= j < a ==> is_space(s@[j]),
        decreases len - a,
    {
        a += 1;
    }
    let mut b: usize = len;
    while b > a && is_space_char(s.get_char(b - 1))
        invariant
            len == s@.len(),
            a <= b <= len,
            forall|j: int| b <= j < len ==> is_space(s@[j]),
        decreases b,
    {
        b -= 1;
    }
    proof {
        lemma_trim_start(s@, a as int);
        let t = s@.skip(a as int);
        lemma_trim_end(t, b - a);
        assert(t.take(b - a) =~= s@.subrange(a as int, b as int));
    }
    s.substring_char(a, b)
}

/// The characters of `s` after `prefix`, when `s` begins with it.
pub fn strip_prefix<'a>(s: &'a str, prefix: &str) -> (r: Option<&'a str>)
    ensures
        match r {
            Some(rest) => starts_with_spec(s@, prefix@) && rest@ == s@.skip(prefix@.len() as int),
            None => !starts_with_spec(s@, prefix@),
        },
{
    if starts_with(s, prefix) {
        let plen = prefix.unicode_len();
        let slen = s.unicode_len();
        Some(s.substring_char(plen, slen))
    } else {
        None
    }
}

} // verus!
