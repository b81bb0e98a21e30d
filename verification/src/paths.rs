//! Derivation of storage paths from identifiers and from request
//! paths: one file per blob, named by the identifier's canonical
//! string, no extension. A dot-suffix on a request path is stripped
//! before lookup and carries no meaning.

use vstd::prelude::*;
use vstd::utf8::encode_utf8;
use crate::codec::all_digit_bytes;
use crate::codec::chars_of_bytes;
use crate::codec::is_digit_byte;
use crate::codec::lemma_decode_encode_round_trip;
use crate::codec::lemma_utf8_of_digit_bytes;
use crate::codec::spec_canonical;
use crate::codec::spec_decode_sat;

verus! {

/// Index of the first `.` in `s`, or `s.len()` when there is none.
pub open spec fn dot_pos(s: Seq<u8>) -> int
    decreases s.len(),
{
    if s.len() == 0 {
        0
    } else if s[0] == 46 {
        0
    } else {
        1 + dot_pos(s.drop_first())
    }
}

/// The part of `s` a dot-suffix truncation keeps: everything before
/// the first `.`, or all of `s` when there is none.
pub open spec fn before_dot(s: Seq<u8>) -> Seq<u8> {
    s.subrange(0, dot_pos(s))
}

/// `s` without one leading `/`.
pub open spec fn strip_leading_slash(s: Seq<u8>) -> Seq<u8> {
    if s.len() > 0 && s[0] == 47 {
        s.drop_first()
    } else {
        s
    }
}

/// The candidate identifier string named by a request path: the path
/// without its leading separator and without any dot-suffix.
pub open spec fn spec_lookup_key(p: Seq<u8>) -> Seq<u8> {
    before_dot(strip_leading_slash(p))
}

/// The storage path a GET on request path `p` reads under the root
/// `dir`: the root followed by the canonical string of the decoded
/// identifier, or nothing when the key does not decode.
pub open spec fn spec_lookup_path(dir: Seq<char>, p: Seq<u8>) -> Option<Seq<char>> {
    if all_digit_bytes(spec_lookup_key(p)) {
        Some(dir + chars_of_bytes(spec_canonical(spec_decode_sat(spec_lookup_key(p)) as nat)))
    } else {
        None
    }
}

/// Where `dot_pos` points: past a dot-free prefix, at a dot when one
/// exists.
pub proof fn lemma_dot_pos_characterization(s: Seq<u8>)
    ensures
        0 <= dot_pos(s) <= s.len(),
        forall|j: int| 0 <= j < dot_pos(s) ==> s[j] != 46,
        dot_pos(s) < s.len() ==> s[dot_pos(s)] == 46,
    decreases s.len(),
{
    if s.len() > 0 && s[0] != 46 {
        let t = s.drop_first();
        lemma_dot_pos_characterization(t);
        assert forall|j: int| 0 <= j < dot_pos(s) implies s[j] != 46 by {
            if j > 0 {
                assert(s[j] == t[j - 1]);
            }
        }
    }
}

/// A dot-free prefix followed by the end or a dot pins down `dot_pos`.
pub proof fn lemma_dot_pos_at(s: Seq<u8>, i: int)
    requires
        0 <= i <= s.len(),
        forall|j: int| 0 <= j < i ==> s[j] != 46,
        i < s.len() ==> s[i] == 46,
    ensures
        dot_pos(s) == i,
    decreases i,
{
    if s.len() > 0 {
        if i > 0 {
            lemma_dot_pos_at(s.drop_first(), i - 1);
        }
    }
}

/// The prefix of `name` before its first `.`, as owned bytes.
pub fn strip_extension_bytes(s: &[u8]) -> (r: Vec<u8>)
    ensures
        r@ == before_dot(s@),
{
    let n = s.len();
    let mut r: Vec<u8> = Vec::new();
    let mut i: usize = 0;
    while i < n
        invariant
            i <= n == s@.len(),
            forall|j: int| 0 <= j < i ==> s@[j] != 46,
            r@ =~= s@.subrange(0, i as int),
        decreases n - i,
    {
        let b = s[i];
        if b == 46 {
            proof {
                lemma_dot_pos_at(s@, i as int);
            }
            return r;
        }
        r.push(b);
        i = i + 1;
    }
    proof {
        lemma_dot_pos_at(s@, n as int);
    }
    r
}

/// Appending a dot suffix to a dot-free name leaves its truncation
/// unchanged.
pub proof fn lemma_before_dot_of_suffixed(a: Seq<u8>, ext: Seq<u8>)
    requires
        !a.contains(46),
    ensures
        before_dot(a + seq![46u8] + ext) =~= a,
        before_dot(a) =~= a,
{
    let s = a + seq![46u8] + ext;
    assert forall|j: int| 0 <= j < a.len() implies s[j] != 46 by {
        assert(s[j] == a[j]);
        assert(!a.contains(s[j]) ==> s[j] != 46) by {
            if a[j] == 46 {
                assert(a.contains(46u8));
            }
        }
    }
    assert(s[a.len() as int] == 46);
    lemma_dot_pos_at(s, a.len() as int);
    assert forall|j: int| 0 <= j < a.len() implies a[j] != 46 by {
        if a[j] == 46 {
            assert(a.contains(46u8));
        }
    }
    lemma_dot_pos_at(a, a.len() as int);
}

/// Law: the storage path an upload writes the blob to is exactly the
/// path a GET on `/` followed by the returned identifier string reads
/// from afterwards — the upload's answer really addresses the blob.
pub proof fn lemma_upload_then_get(dir: Seq<char>, id: u64)
    ensures
        spec_lookup_path(
            dir,
            seq![47u8] + encode_utf8(chars_of_bytes(spec_canonical(id as nat))),
        ) == Some(dir + chars_of_bytes(spec_canonical(id as nat))),
{
    lemma_decode_encode_round_trip(id);
    let b = spec_canonical(id as nat);
    lemma_utf8_of_digit_bytes(b);
    let p = seq![47u8] + encode_utf8(chars_of_bytes(b));
    assert(strip_leading_slash(p) =~= b);
    assert(!b.contains(46)) by {
        if b.contains(46) {
            let k = choose|k: int| 0 <= k < b.len() && b[k] == 46;
            assert(is_digit_byte(b[k]));
        }
    }
    lemma_before_dot_of_suffixed(b, Seq::empty());
    assert(spec_lookup_key(p) == b);
}

/// Law: a dot suffix on a request path does not change which storage
/// path a lookup derives — `path-for-lookup(p + "." + ext)` equals
/// `path-for-lookup(p)` for every dot-free `p` and every root.
pub proof fn lemma_lookup_ignores_extension(dir: Seq<char>, p: Seq<u8>, ext: Seq<u8>)
    requires
        !p.contains(46),
    ensures
        spec_lookup_key(p + seq![46u8] + ext) == spec_lookup_key(p),
        spec_lookup_path(dir, p + seq![46u8] + ext) == spec_lookup_path(dir, p),
{
    let s = p + seq![46u8] + ext;
    if p.len() > 0 && p[0] == 47 {
        let q = p.drop_first();
        assert(strip_leading_slash(s) =~= q + seq![46u8] + ext);
        assert forall|j: int| 0 <= j < q.len() implies q[j] != 46 by {
            assert(q[j] == p[j + 1]);
            if p[j + 1] == 46 {
                assert(p.contains(46u8));
            }
        }
        assert(!q.contains(46)) by {
            if q.contains(46) {
                let k = choose|k: int| 0 <= k < q.len() && q[k] == 46;
                assert(q[k] != 46);
            }
        }
        lemma_before_dot_of_suffixed(q, ext);
        assert(strip_leading_slash(p) == q);
    } else {
        assert(strip_leading_slash(s) =~= p + seq![46u8] + ext);
        lemma_before_dot_of_suffixed(p, ext);
        assert(strip_leading_slash(p) == p);
    }
}

} // verus!
