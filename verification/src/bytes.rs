//! Byte-string helpers: equality, prefixes and ESDT token identifiers.

use vstd::prelude::*;

verus! {

/// `p` is a prefix of `s`.
pub open spec fn has_prefix(s: Seq<u8>, p: Seq<u8>) -> bool {
    p.len() <= s.len() && s.subrange(0, p.len() as int) == p
}

/// Byte-wise equality of two buffers.
pub fn bytes_eq(a: &Vec<u8>, b: &Vec<u8>) -> (r: bool)
    ensures
        r == (a@ == b@),
{
    if a.len() != b.len() {
        return false;
    }
    let n = a.len();
    let mut i: usize = 0;
    while i < n
        invariant
            n == a@.len(),
            n == b@.len(),
            i <= n,
            forall|j: int| 0 <= j < i ==> a@[j] == b@[j],
        decreases n - i,
    {
        if a[i] != b[i] {
            return false;
        }
        i = i + 1;
    }
    assert(a@ =~= b@);
    true
}

/// A fresh copy of a buffer.
pub fn copy_bytes(a: &Vec<u8>) -> (r: Vec<u8>)
    ensures
        r@ == a@,
{
    let mut r: Vec<u8> = Vec::new();
    let n = a.len();
    let mut i: usize = 0;
    while i < n
        invariant
            n == a@.len(),
            i <= n,
            r@ == a@.subrange(0, i as int),
        decreases n - i,
    {
        r.push(a[i]);
        i = i + 1;
        assert(r@ =~= a@.subrange(0, i as int));
    }
    assert(a@.subrange(0, n as int) =~= a@);
    r
}

/// Appends `tail` to `r`.
pub fn append_bytes(r: &mut Vec<u8>, tail: &Vec<u8>)
    ensures
        final(r)@ == old(r)@ + tail@,
{
    let ghost start = r@;
    let n = tail.len();
    let mut i: usize = 0;
    while i < n
        invariant
            n == tail@.len(),
            i <= n,
            r@ == start + tail@.subrange(0, i as int),
        decreases n - i,
    {
        r.push(tail[i]);
        i = i + 1;
        assert(r@ =~= start + tail@.subrange(0, i as int));
    }
    assert(tail@.subrange(0, n as int) =~= tail@);
}

/// Whether `buf` begins with `prefix`.
pub fn starts_with(buf: &Vec<u8>, prefix: &Vec<u8>) -> (r: bool)
    ensures
        r == has_prefix(buf@, prefix@),
{
    if prefix.len() > buf.len() {
        return false;
    }
    let n = prefix.len();
    let mut i: usize = 0;
    while i < n
        invariant
            n == prefix@.len(),
            n <= buf@.len(),
            i <= n,
            forall|j: int| 0 <= j < i ==> buf@[j] == prefix@[j],
        decreases n - i,
    {
        if buf[i] != prefix[i] {
            assert(buf@.subrange(0, n as int)[i as int] != prefix@[i as int]);
            return false;
        }
        i = i + 1;
    }
    assert(buf@.subrange(0, n as int) =~= prefix@);
    true
}

/// The ticker of a token identifier: everything before the dash and the six
/// random characters; `None` when the identifier is too short to have one.
pub open spec fn ticker_of(id: Seq<u8>) -> Option<Seq<u8>> {
    if id.len() >= 7 {
        Some(id.subrange(0, id.len() - 7))
    } else {
        None
    }
}

/// The ticker part of a token identifier (`WINTER` for `WINTER-a1b2c3`).
pub fn token_ticker(id: &Vec<u8>) -> (r: Option<Vec<u8>>)
    ensures
        match r {
            Some(t) => ticker_of(id@) == Some(t@),
            None => ticker_of(id@) is None,
        },
{
    if id.len() < 7 {
        return None;
    }
    let n = id.len() - 7;
    let mut t: Vec<u8> = Vec::new();
    let mut i: usize = 0;
    while i < n
        invariant
            n + 7 == id@.len(),
            i <= n,
            t@ == id@.subrange(0, i as int),
        decreases n - i,
    {
        t.push(id[i]);
        i = i + 1;
        assert(t@ =~= id@.subrange(0, i as int));
    }
    Some(t)
}

pub open spec fn is_upper_alnum(c: u8) -> bool {
    (65 <= c <= 90) || (48 <= c <= 57)
}

pub open spec fn is_lower_alnum(c: u8) -> bool {
    (97 <= c <= 122) || (48 <= c <= 57)
}

/// A well-formed ESDT identifier: a ticker of 3 to 10 upper-case letters or
/// digits, a dash, and 6 lower-case letters or digits.
pub open spec fn valid_esdt_identifier(id: Seq<u8>) -> bool {
    &&& 10 <= id.len() <= 17
    &&& forall|i: int| 0 <= i < id.len() - 7 ==> is_upper_alnum(#[trigger] id[i])
    &&& id[id.len() - 7] == 45
    &&& forall|i: int| id.len() - 6 <= i < id.len() ==> is_lower_alnum(#[trigger] id[i])
}

/// Checks that `id` is a well-formed ESDT identifier.
pub fn is_valid_esdt_identifier(id: &Vec<u8>) -> (r: bool)
    ensures
        r == valid_esdt_identifier(id@),
{
    let len = id.len();
    if len < 10 || len > 17 {
        return false;
    }
    let ticker_len = len - 7;
    let mut i: usize = 0;
    while i < ticker_len
        invariant
            ticker_len + 7 == len,
            len == id@.len(),
            i <= ticker_len,
            forall|j: int| 0 <= j < i ==> is_upper_alnum(#[trigger] id@[j]),
        decreases ticker_len - i,
    {
        let c = id[i];
        if !((65 <= c && c <= 90) || (48 <= c && c <= 57)) {
            assert(!is_upper_alnum(id@[i as int]));
            return false;
        }
        i = i + 1;
    }
    if id[ticker_len] != 45 {
        return false;
    }
    let mut k: usize = len - 6;
    while k < len
        invariant
            len == id@.len(),
            len >= 10,
            len - 6 <= k <= len,
            forall|j: int| 0 <= j < len - 7 ==> is_upper_alnum(#[trigger] id@[j]),
            forall|j: int| len - 6 <= j < k ==> is_lower_alnum(#[trigger] id@[j]),
        decreases len - k,
    {
        let c = id[k];
        if !((97 <= c && c <= 122) || (48 <= c && c <= 57)) {
            assert(!is_lower_alnum(id@[k as int]));
            return false;
        }
        k = k + 1;
    }
    true
}

} // verus!
