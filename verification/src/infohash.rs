//! Torrent info-hash derivation.
//!
//! A magnet link yields its hash from the `xt` query parameter: a value of
//! at most 32 characters is base32, longer values are hexadecimal already;
//! the body of a fetched torrent file yields it as the SHA-1 digest of its
//! re-encoded `info` dictionary. The result is always 40 lowercase hex
//! characters when the input is well formed.
//!
//! The magnet query is read literally, character for character, with no
//! percent-decoding: an info hash never needs any.

use vstd::prelude::*;
use vstd::string::StrSliceExecFns;
use crate::strutil::{
    ascii_lower, concat_str, eq_str, hex_lower, spec_ascii_lower, spec_hex_lower,
    spec_starts_with, starts_with_sub,
};

verus! {

/// Index of the first occurrence of `ch` in `s` at or after `i`; the
/// length of `s` when there is none.
pub open spec fn find_char(s: Seq<char>, ch: char, i: int) -> int
    decreases s.len() - i,
{
    if i < 0 || i >= s.len() {
        s.len() as int
    } else if s[i] == ch {
        i
    } else {
        find_char(s, ch, i + 1)
    }
}

/// Bounds and meaning of [`find_char`].
pub proof fn lemma_find_char(s: Seq<char>, ch: char, i: int)
    requires
        0 <= i <= s.len(),
    ensures
        i <= find_char(s, ch, i) <= s.len(),
        find_char(s, ch, i) < s.len() ==> s[find_char(s, ch, i)] == ch,
        forall|j: int| i <= j < find_char(s, ch, i) ==> s[j] != ch,
    decreases s.len() - i,
{
    if i < s.len() && s[i] != ch {
        lemma_find_char(s, ch, i + 1);
    }
}

#[via_fn]
proof fn xt_value_from_decreases(q: Seq<char>, i: int) {
    if 0 <= i <= q.len() {
        lemma_find_char(q, '&', i);
    }
}

/// The value of the first `xt` parameter of the query `q`, scanning from
/// position `i`: pairs are separated by `&`, a pair's key ends at its
/// first `=`, and a pair without `=` has an empty value.
pub open spec fn xt_value_from(q: Seq<char>, i: int) -> Option<Seq<char>>
    decreases q.len() - i,
        via xt_value_from_decreases
{
    if i < 0 || i > q.len() {
        None
    } else {
        let e = find_char(q, '&', i);
        let eq = find_char(q, '=', i);
        let key = if eq < e {
            q.subrange(i, eq)
        } else {
            q.subrange(i, e)
        };
        let val = if eq < e {
            q.subrange(eq + 1, e)
        } else {
            Seq::empty()
        };
        if key == "xt"@ {
            Some(val)
        } else if e >= q.len() {
            None
        } else {
            xt_value_from(q, e + 1)
        }
    }
}

/// The `urn:btih:` payload of a link: present when the link carries the
/// magnet scheme and its first `xt` parameter starts with `urn:btih:`.
pub open spec fn spec_magnet_btih(s: Seq<char>) -> Option<Seq<char>> {
    if !spec_starts_with(s, "magnet:?"@) {
        None
    } else {
        match xt_value_from(s.skip("magnet:?"@.len() as int), 0) {
            None => None,
            Some(v) => if spec_starts_with(v, "urn:btih:"@) {
                Some(v.skip("urn:btih:"@.len() as int))
            } else {
                None
            },
        }
    }
}

/// What `base32::decode` returns for `s` with the RFC 4648 alphabet,
/// padding permitted.
pub uninterp spec fn base32_decoded(s: Seq<char>) -> Option<Seq<u8>>;

/// Relies on `base32::decode` with the RFC 4648 alphabet and padding
/// permitted: the result depends on the characters alone, and a decoded
/// byte string is never longer than its base32 spelling (five bytes out
/// of every eight characters).
#[verifier::external_body]
fn base32_decode(s: &str) -> (r: Option<Vec<u8>>)
    ensures
        r is Some <==> base32_decoded(s@) is Some,
        r is Some ==> r->0@ == base32_decoded(s@)->0 && r->0@.len() <= s@.len(),
{
    base32::decode(base32::Alphabet::Rfc4648 { padding: true }, s)
}

/// The info hash a magnet link yields: the `urn:btih:` payload, decoded
/// from base32 when it has at most 32 characters, taken as hexadecimal
/// and lowercased otherwise.
pub open spec fn spec_magnet_info_hash(s: Seq<char>) -> Option<Seq<char>> {
    match spec_magnet_btih(s) {
        None => None,
        Some(h) => if h.len() <= 32 {
            match base32_decoded(h) {
                Some(bytes) => Some(spec_hex_lower(bytes)),
                None => None,
            }
        } else {
            Some(spec_ascii_lower(h))
        },
    }
}

/// Finds the first occurrence of `ch` at or after `i`.
fn find_char_at(s: &str, len: usize, ch: char, i: usize) -> (e: usize)
    requires
        len == s@.len(),
        i <= len,
    ensures
        i <= e <= len,
        e as int == find_char(s@, ch, i as int),
{
    let mut j = i;
    while j < len && s.get_char(j) != ch
        invariant
            len == s@.len(),
            i <= j <= len,
            find_char(s@, ch, i as int) == find_char(s@, ch, j as int),
        decreases len - j,
    {
        proof {
            assert(find_char(s@, ch, j as int) == find_char(s@, ch, j + 1));
        }
        j = j + 1;
    }
    proof {
        if j < len {
            assert(find_char(s@, ch, j as int) == j);
        } else {
            assert(find_char(s@, ch, j as int) == s@.len());
        }
    }
    j
}

/// Extracts the value of the first `xt` parameter of a magnet link's
/// query, reading the query literally.
pub fn magnet_xt_value(url: &str) -> (r: Option<String>)
    ensures
        r.deep_view() == (if spec_starts_with(url@, "magnet:?"@) {
            xt_value_from(url@.skip("magnet:?"@.len() as int), 0)
        } else {
            None::<Seq<char>>
        }),
{
    proof {
        reveal_strlit("magnet:?");
    }
    if !starts_with_sub(url, "magnet:?") {
        return None;
    }
    let len = url.unicode_len();
    let q = url.substring_char(8, len);
    let ghost qv = url@.skip(8);
    proof {
        assert(q@ =~= qv);
    }
    let qlen = q.unicode_len();
    let mut i: usize = 0;
    loop
        invariant
            qlen == q@.len(),
            q@ == qv,
            i <= qlen,
            spec_starts_with(url@, "magnet:?"@),
            qv == url@.skip("magnet:?"@.len() as int),
            xt_value_from(qv, 0) == xt_value_from(qv, i as int),
        decreases qlen - i,
    {
        let e = find_char_at(q, qlen, '&', i);
        let eq = find_char_at(q, qlen, '=', i);
        proof {
            lemma_find_char(qv, '&', i as int);
            lemma_find_char(qv, '=', i as int);
        }
        let key_end = if eq < e {
            eq
        } else {
            e
        };
        let key = q.substring_char(i, key_end);
        proof {
            reveal_strlit("xt");
        }
        if eq_str(key, "xt") {
            let val = if eq < e {
                q.substring_char(eq + 1, e)
            } else {
                q.substring_char(i, i)
            };
            proof {
                if eq < e {
                    assert(val@ =~= qv.subrange(eq + 1, e as int));
                } else {
                    assert(val@ =~= Seq::<char>::empty());
                }
                assert(xt_value_from(qv, i as int) == Some(val@));
            }
            return Some(String::from_str(val));
        }
        proof {
            assert(key@ != "xt"@);
        }
        if e >= qlen {
            proof {
                assert(xt_value_from(qv, i as int) is None);
            }
            return None;
        }
        proof {
            assert(xt_value_from(qv, i as int) == xt_value_from(qv, e + 1));
        }
        i = e + 1;
    }
}

/// Derives the info hash of a magnet link, as [`spec_magnet_info_hash`]
/// describes; `None` for any other url or when the base32 payload does
/// not decode.
pub fn magnet_info_hash(url: &str) -> (r: Option<String>)
    ensures
        r.deep_view() == spec_magnet_info_hash(url@),
{
    match magnet_xt_value(url) {
        None => None,
        Some(v) => {
            proof {
                reveal_strlit("urn:btih:");
            }
            if !starts_with_sub(v.as_str(), "urn:btih:") {
                return None;
            }
            let vlen = v.as_str().unicode_len();
            let h = v.as_str().substring_char(9, vlen);
            proof {
                assert(h@ =~= v@.skip(9));
            }
            let hlen = h.unicode_len();
            if hlen <= 32 {
                match base32_decode(h) {
                    Some(bytes) => Some(hex_lower(bytes.as_slice())),
                    None => None,
                }
            } else {
                Some(ascii_lower(h))
            }
        },
    }
}

/// What re-parsing a torrent file and re-encoding its `info` dictionary
/// canonically returns for this byte string.
pub uninterp spec fn bencoded_info_of(bytes: Seq<u8>) -> Option<Seq<u8>>;

/// What the SHA-1 digest of a byte string is.
pub uninterp spec fn sha1_of(bytes: Seq<u8>) -> Seq<u8>;

/// Relies on `serde_bencode::from_bytes` and `serde_bencode::to_bytes`:
/// decodes a bencoded dictionary, looks its `info` entry up and re-encodes
/// that entry canonically (the encoder writes dictionary keys sorted, so
/// the result depends on the bytes alone); `None` when the input is not a
/// bencoded dictionary with an `info` entry.
#[verifier::external_body]
fn bencode_info(bytes: &[u8]) -> (r: Option<Vec<u8>>)
    ensures
        r is Some <==> bencoded_info_of(bytes@) is Some,
        r is Some ==> r->0@ == bencoded_info_of(bytes@)->0,
{
    let parsed: serde_bencode::value::Value = match serde_bencode::from_bytes(bytes) {
        Ok(v) => v,
        Err(_) => return None,
    };
    match parsed {
        serde_bencode::value::Value::Dict(d) => match d.get("info".as_bytes()) {
            Some(info) => serde_bencode::to_bytes(info).ok(),
            None => None,
        },
        _ => None,
    }
}

/// Relies on `Sha1::digest` of the sha1 crate: the 20-byte SHA-1 digest
/// of the input, a function of the bytes alone.
#[verifier::external_body]
fn sha1_digest(bytes: &[u8]) -> (r: Vec<u8>)
    ensures
        r@ == sha1_of(bytes@),
        r@.len() == 20,
{
    <sha1::Sha1 as sha1::Digest>::digest(bytes).to_vec()
}

/// The info hash carried by a fetched torrent file: the lowercase hex
/// SHA-1 digest of its re-encoded `info` dictionary.
pub open spec fn spec_torrent_info_hash(bytes: Seq<u8>) -> Option<Seq<char>> {
    match bencoded_info_of(bytes) {
        None => None,
        Some(info) => Some(spec_hex_lower(sha1_of(info))),
    }
}

/// Derives the info hash out of the body of a torrent file.
pub fn torrent_info_hash(bytes: &[u8]) -> (r: Option<String>)
    ensures
        r.deep_view() == spec_torrent_info_hash(bytes@),
{
    match bencode_info(bytes) {
        None => None,
        Some(info) => {
            let digest = sha1_digest(info.as_slice());
            Some(hex_lower(digest.as_slice()))
        },
    }
}

/// A lowercase hexadecimal character.
pub open spec fn is_lower_hex_char(c: char) -> bool {
    ('0' <= c && c <= '9') || ('a' <= c && c <= 'f')
}

/// A string of lowercase hexadecimal characters.
pub open spec fn spec_is_lower_hex(s: Seq<char>) -> bool {
    forall|i: int| 0 <= i < s.len() ==> is_lower_hex_char(#[trigger] s[i])
}

/// Writes the magnet link that carries a given info hash.
pub fn derive_back(hash: &str) -> (r: String)
    ensures
        r@ == "magnet:?xt=urn:btih:"@ + hash@,
{
    concat_str("magnet:?xt=urn:btih:", hash)
}

/// Deriving the info hash back out of the magnet link written for a
/// 40-character lowercase hex hash returns that hash.
pub proof fn lemma_derive_round_trip(h: Seq<char>)
    requires
        h.len() == 40,
        spec_is_lower_hex(h),
    ensures
        spec_magnet_info_hash("magnet:?xt=urn:btih:"@ + h) == Some(h),
{
    reveal_strlit("magnet:?xt=urn:btih:");
    reveal_strlit("magnet:?");
    reveal_strlit("xt");
    reveal_strlit("urn:btih:");
    let s = "magnet:?xt=urn:btih:"@ + h;
    assert(s.subrange(0, 8) =~= "magnet:?"@);
    assert(spec_starts_with(s, "magnet:?"@));
    let q = s.skip(8);
    assert(q.len() == 12 + 40);
    assert forall|j: int| 0 <= j < h.len() implies !(('g' <= #[trigger] h[j] && h[j] <= 'z') || h[j]
        == '&' || h[j] == '=') by {
        assert(is_lower_hex_char(h[j]));
    }
    assert(forall|j: int| 3 <= j < q.len() ==> #[trigger] q[j] != '&') by {
        assert forall|j: int| 3 <= j < q.len() implies #[trigger] q[j] != '&' by {
            if j < 12 {
                assert(q[j] == s[j + 8]);
            } else {
                assert(q[j] == h[j - 12]);
            }
        }
    }
    assert(q[0] == 'x' && q[1] == 't' && q[2] == '=');
    assert(find_char(q, '&', 3) == q.len() as int) by {
        lemma_find_char_absent(q, '&', 3);
    }
    assert(find_char(q, '&', 0) == q.len() as int) by {
        assert(find_char(q, '&', 2) == find_char(q, '&', 3));
        assert(find_char(q, '&', 1) == find_char(q, '&', 2));
        assert(find_char(q, '&', 0) == find_char(q, '&', 1));
    }
    assert(find_char(q, '=', 2) == 2);
    assert(find_char(q, '=', 1) == 2);
    assert(find_char(q, '=', 0) == 2);
    assert(q.subrange(0, 2) =~= "xt"@);
    let val = q.subrange(3, q.len() as int);
    assert(xt_value_from(q, 0) == Some(val));
    assert(val.subrange(0, 9) =~= "urn:btih:"@);
    assert(spec_starts_with(val, "urn:btih:"@));
    let payload = val.skip(9);
    assert(payload =~= h);
    assert(h.len() > 32);
    assert(spec_ascii_lower(h) =~= h) by {
        assert forall|i: int| 0 <= i < h.len() implies spec_ascii_lower(h)[i] == h[i] by {
            assert(is_lower_hex_char(h[i]));
            assert(crate::strutil::spec_ascii_lower_char(h[i]) == h[i]);
        }
    }
}

/// When `ch` does not occur at or after `i`, the search runs to the end.
proof fn lemma_find_char_absent(s: Seq<char>, ch: char, i: int)
    requires
        0 <= i <= s.len(),
        forall|j: int| i <= j < s.len() ==> #[trigger] s[j] != ch,
    ensures
        find_char(s, ch, i) == s.len() as int,
    decreases s.len() - i,
{
    if i < s.len() {
        lemma_find_char_absent(s, ch, i + 1);
    }
}

} // verus!
