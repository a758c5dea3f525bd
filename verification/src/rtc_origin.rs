//! The HTTP origin of the real-time server, derived from its WebSocket URL.
//!
//! The real-time server is configured by the URL its WebSocket connects to; its HTTP
//! endpoints live at the same host and port, under the matching HTTP scheme: `wss` maps
//! to `https` and `ws` to `http`. Any path, query or fragment is dropped.

use vstd::prelude::*;
use crate::repos::has_prefix;
use crate::text::{chars_of, has_prefix_in};

verus! {

/// Whether `c` ends the authority part of a URL.
pub open spec fn ends_authority(c: char) -> bool {
    c == '/' || c == '?' || c == '#'
}

/// The authority part of `rest`, the text after a URL's `scheme://`: everything up to the
/// first `/`, `?` or `#`.
pub open spec fn authority(rest: Seq<char>) -> Seq<char>
    decreases rest.len(),
{
    if rest.len() == 0 || ends_authority(rest[0]) {
        Seq::empty()
    } else {
        seq![rest[0]] + authority(rest.drop_first())
    }
}

/// The origin `scheme://authority` for the text `rest` after a WebSocket scheme, if the
/// authority is not empty.
pub open spec fn origin_with(scheme: Seq<char>, rest: Seq<char>) -> Option<Seq<char>> {
    if authority(rest).len() > 0 {
        Some(scheme + authority(rest))
    } else {
        None
    }
}

/// The HTTP origin for the WebSocket URL `url`: `https://` for a `wss://` URL and
/// `http://` for a `ws://` one, followed by its non-empty authority. Anything else has
/// none.
pub open spec fn http_origin(url: Seq<char>) -> Option<Seq<char>> {
    if has_prefix(url, "wss://"@) {
        origin_with("https://"@, url.skip("wss://"@.len() as int))
    } else if has_prefix(url, "ws://"@) {
        origin_with("http://"@, url.skip("ws://"@.len() as int))
    } else {
        None
    }
}

/// The end of the authority of `chars[start..]`.
fn authority_end(chars: &Vec<char>, start: usize) -> (r: usize)
    requires
        start <= chars@.len(),
    ensures
        start <= r <= chars@.len(),
        chars@.subrange(start as int, r as int) == authority(chars@.skip(start as int)),
{
    let mut i: usize = chars.len();
    // Scan back from the end, remembering the leftmost authority terminator seen so far.
    let mut end: usize = chars.len();
    while i > start
        invariant
            start <= i <= end <= chars@.len(),
            end == chars@.len() || ends_authority(chars@[end as int]),
            forall|j: int| i <= j < end ==> !ends_authority(#[trigger] chars@[j]),
        decreases i - start,
    {
        i = i - 1;
        let c = chars[i];
        if c == '/' || c == '?' || c == '#' {
            end = i;
        }
    }
    proof {
        lemma_authority_of(chars@.skip(start as int), end - start);
        assert(chars@.skip(start as int).take(end - start) =~= chars@.subrange(
            start as int,
            end as int,
        ));
    }
    end
}

/// The authority of `s` is its first `k` characters when none of them ends it and the
/// next one, if any, does.
proof fn lemma_authority_of(s: Seq<char>, k: int)
    requires
        0 <= k <= s.len(),
        forall|j: int| 0 <= j < k ==> !ends_authority(#[trigger] s[j]),
        k == s.len() || ends_authority(s[k]),
    ensures
        authority(s) == s.take(k),
    decreases k,
{
    if k == 0 {
        assert(s.take(0) =~= Seq::<char>::empty());
    } else {
        let t = s.drop_first();
        assert forall|j: int| 0 <= j < k - 1 implies !ends_authority(#[trigger] t[j]) by {
            assert(t[j] == s[j + 1]);
        }
        if k < s.len() {
            assert(t[k - 1] == s[k]);
        }
        lemma_authority_of(t, k - 1);
        assert(s.take(k) =~= seq![s[0]] + t.take(k - 1));
    }
}

/// The origin `scheme` + the authority of `chars[start..]`, if that authority is not
/// empty.
fn origin_from(url: &str, chars: &Vec<char>, start: usize, scheme: &str) -> (r: Option<String>)
    requires
        chars@ == url@,
        start <= chars@.len(),
    ensures
        match origin_with(scheme@, chars@.skip(start as int)) {
            Some(o) => r matches Some(s) && s@ == o,
            None => r is None,
        },
{
    let end = authority_end(chars, start);
    if end == start {
        return None;
    }
    let mut origin = String::from_str(scheme);
    origin.append(url.substring_char(start, end));
    Some(origin)
}

/// Derives the HTTP origin of the real-time server from its WebSocket URL: the scheme
/// becomes `https` for `wss` and `http` for `ws`, the host and port are kept, and the
/// path is dropped. Returns `None` for anything that is not a WebSocket URL with a host.
pub fn derive_http_origin_from_ws_url(url: &str) -> (r: Option<String>)
    ensures
        match http_origin(url@) {
            Some(o) => r matches Some(s) && s@ == o,
            None => r is None,
        },
{
    let chars = chars_of(url);
    let n = chars.len();
    proof {
        reveal_strlit("wss://");
        reveal_strlit("ws://");
    }
    if has_prefix_in(&chars, 0, n, "wss://") {
        assert(chars@.subrange(0, 6) == chars@.take(6));
        return origin_from(url, &chars, "wss://".unicode_len(), "https://");
    }
    assert(!has_prefix(url@, "wss://"@)) by {
        assert(chars@.subrange(0, 6) =~= chars@.take(6));
    }
    if has_prefix_in(&chars, 0, n, "ws://") {
        assert(chars@.subrange(0, 5) == chars@.take(5));
        return origin_from(url, &chars, "ws://".unicode_len(), "http://");
    }
    assert(!has_prefix(url@, "ws://"@)) by {
        assert(chars@.subrange(0, 5) =~= chars@.take(5));
    }
    None
}

} // verus!
