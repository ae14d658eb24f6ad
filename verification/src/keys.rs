//! The text formats that tie a forward to its registry entry, its hosts-file
//! block and its helper pod.

use vstd::prelude::*;
use crate::numeric::{
    decimal, digits_of, format_i64, is_digit, lemma_digits_of_value, lemma_parse_decimal,
    parse_i64, parse_i64_spec,
};
use crate::text::{
    extend_chars, extend_str, find_from, first_index, from_chars, lemma_first_index_is,
    slice_chars, to_chars,
};

verus! {

/// The registry key of the forward `id` to `service`: the identifier in
/// decimal, a `_`, and the service name.
pub open spec fn composite_key_spec(id: int, service: Seq<char>) -> Seq<char> {
    decimal(id) + seq!['_'] + service
}

/// What every registry key of the configuration written `id_text` begins
/// with.
pub open spec fn key_prefix_spec(id_text: Seq<char>) -> Seq<char> {
    id_text + seq!['_']
}

/// The two halves of a registry key, split at its first `_`; `None` where
/// the key holds no `_`.
pub open spec fn split_key_spec(key: Seq<char>) -> Option<(Seq<char>, Seq<char>)> {
    let i = first_index(key, '_');
    if 0 <= i < key.len() {
        Some((key.subrange(0, i), key.skip(i + 1)))
    } else {
        None
    }
}

/// The identifier that a key's first half stands for: the number it reads
/// as, or 0 where it does not read as a signed 64-bit integer.
pub open spec fn key_id_spec(id_text: Seq<char>) -> int {
    match parse_i64_spec(id_text) {
        Some(v) => v,
        None => 0,
    }
}

/// The comment that marks the hosts-file block of a forward.
pub open spec fn hosts_marker_spec(service: Seq<char>, id_text: Seq<char>) -> Seq<char> {
    "kftray custom host for "@ + service + " - "@ + id_text
}

/// What the name of every helper pod begins with whose user is written
/// `username` in it.
pub open spec fn pod_prefix_spec(username: Seq<char>) -> Seq<char> {
    "kftray-forward-"@ + username
}

/// The label selector that finds the helper pods of configuration `id`.
pub open spec fn label_selector_spec(id: int) -> Seq<char> {
    "config_id="@ + decimal(id)
}

/// A registry key taken apart.
pub struct KeyParts {
    /// The first half, as written in the key.
    pub id_text: String,
    /// The second half: the service name.
    pub service: String,
    /// The identifier that the first half stands for.
    pub id: i64,
}

/// The registry key of the forward `id` to `service`.
pub fn composite_key(id: i64, service: &str) -> (key: String)
    ensures
        key@ == composite_key_spec(id as int, service@),
{
    let mut out = format_i64(id);
    out.push('_');
    extend_str(&mut out, service);
    assert(out@ =~= composite_key_spec(id as int, service@));
    from_chars(&out)
}

/// What every registry key of the configuration written `config_id` begins
/// with.
pub fn key_prefix(config_id: &str) -> (prefix: String)
    ensures
        prefix@ == key_prefix_spec(config_id@),
{
    let mut out = to_chars(config_id);
    out.push('_');
    assert(out@ =~= key_prefix_spec(config_id@));
    from_chars(&out)
}

/// The identifier that `id_text` stands for, 0 where it stands for none.
pub fn key_id(id_text: &str) -> (id: i64)
    ensures
        id as int == key_id_spec(id_text@),
{
    let chars = to_chars(id_text);
    match parse_i64(&chars) {
        Some(v) => v,
        None => 0,
    }
}

/// Takes a registry key apart at its first `_`. A key without `_` is
/// malformed and gives `None`.
pub fn split_key(key: &str) -> (parts: Option<KeyParts>)
    ensures
        parts.is_some() == split_key_spec(key@).is_some(),
        parts matches Some(p) ==> split_key_spec(key@) == Some((p.id_text@, p.service@))
            && p.id as int == key_id_spec(p.id_text@),
{
    let chars = to_chars(key);
    let at = find_from(&chars, '_', 0);
    assert(chars@.skip(0) =~= chars@);
    if at == chars.len() {
        return None;
    }
    let head = slice_chars(&chars, 0, at);
    let tail = slice_chars(&chars, at + 1, chars.len());
    assert(tail@ =~= key@.skip(at + 1));
    let id: i64 = match parse_i64(&head) {
        Some(v) => v,
        None => 0,
    };
    Some(KeyParts { id_text: from_chars(&head), service: from_chars(&tail), id })
}

/// The comment that marks the hosts-file block of the forward to `service`
/// whose identifier is written `id_text`.
pub fn hosts_marker(service: &str, id_text: &str) -> (marker: String)
    ensures
        marker@ == hosts_marker_spec(service@, id_text@),
{
    let mut out = to_chars("kftray custom host for ");
    extend_str(&mut out, service);
    extend_str(&mut out, " - ");
    extend_str(&mut out, id_text);
    from_chars(&out)
}

/// What the name of every helper pod begins with whose user is written
/// `username` in it.
pub fn pod_prefix(username: &str) -> (prefix: String)
    ensures
        prefix@ == pod_prefix_spec(username@),
{
    let mut out = to_chars("kftray-forward-");
    extend_str(&mut out, username);
    from_chars(&out)
}

/// The label selector that finds the helper pods of configuration `id`.
pub fn label_selector(id: i64) -> (selector: String)
    ensures
        selector@ == label_selector_spec(id as int),
{
    let mut out = to_chars("config_id=");
    let digits = format_i64(id);
    extend_chars(&mut out, &digits);
    from_chars(&out)
}

/// The decimal text of a number holds no `_`.
pub proof fn lemma_decimal_has_no_separator(n: int)
    ensures
        !decimal(n).contains('_'),
{
    let s = decimal(n);
    if s.contains('_') {
        let k = choose|k: int| 0 <= k < s.len() && s[k] == '_';
        if n < 0 {
            let body = digits_of((-n) as nat);
            lemma_digits_of_value((-n) as nat);
            if k > 0 {
                assert(s[k] == body[k - 1]);
                assert(is_digit(body[k - 1]));
            }
        } else {
            lemma_digits_of_value(n as nat);
            assert(is_digit(s[k]));
        }
    }
}

/// Taking apart the key made of an identifier and a service name gives both
/// back: the identifier's decimal text, the number it stands for, and the
/// service name, whatever characters the name holds.
pub proof fn lemma_key_round_trip(id: int, service: Seq<char>)
    requires
        -0x8000_0000_0000_0000 <= id <= 0x7fff_ffff_ffff_ffff,
    ensures
        split_key_spec(composite_key_spec(id, service)) == Some((decimal(id), service)),
        key_id_spec(decimal(id)) == id,
        key_prefix_spec(decimal(id)).is_prefix_of(composite_key_spec(id, service)),
{
    let d = decimal(id);
    let key = composite_key_spec(id, service);
    lemma_decimal_has_no_separator(id);
    assert forall|j: int| 0 <= j < d.len() implies key[j] != '_' by {
        assert(key[j] == d[j]);
        assert(d.contains(d[j]));
    }
    assert(key[d.len() as int] == '_');
    lemma_first_index_is(key, '_', d.len() as int);
    assert(key.subrange(0, d.len() as int) =~= d);
    assert(key.skip(d.len() as int + 1) =~= service);
    lemma_parse_decimal(id, true, -0x8000_0000_0000_0000, 0x7fff_ffff_ffff_ffff);
    assert(key.subrange(0, key_prefix_spec(d).len() as int) =~= key_prefix_spec(d));
}

/// The hosts-file marker computed when a forward stops, from the halves of
/// its registry key, is the marker computed when it started.
pub proof fn lemma_marker_survives_key(id: int, service: Seq<char>)
    requires
        -0x8000_0000_0000_0000 <= id <= 0x7fff_ffff_ffff_ffff,
    ensures
        split_key_spec(composite_key_spec(id, service)) matches Some(halves)
            && hosts_marker_spec(halves.1, halves.0) == hosts_marker_spec(service, decimal(id)),
{
    lemma_key_round_trip(id, service);
}

} // verus!
