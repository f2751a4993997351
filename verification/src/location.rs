//! Parsing of source/destination strings into typed locations.
//!
//! Two remote grammars are tried in order, and anything that matches neither
//! is a local path, verbatim:
//!
//! 1. `s3://<bucket>(/<key>)?` — the bucket is everything up to the first
//!    `/` after the scheme; the key is everything after that `/`, empty when
//!    the `/` is absent.
//! 2. `<host>:<port>/<bucket>(/<key>)?` — the host part contains neither `/`
//!    nor `:`, the port is a run of digits, and the stored host string is the
//!    literal `<host>:<port>`.
//!
//! Parsing is total: it never fails and never panics.

use vstd::prelude::*;
use vstd::string::StrSliceExecFns;
use vstd::string::StringExecFns;

verus! {

/// Mathematical model of a parsed location: the same shape as [`Location`],
/// over character sequences.
pub enum LocationModel {
    Remote { host: Option<Seq<char>>, bucket: Seq<char>, key: Seq<char> },
    Local { path: Seq<char> },
}

/// A parsed source/destination endpoint: a remote bucket and key, optionally
/// qualified by a literal `host:port` endpoint address, or a local
/// filesystem path kept verbatim.
#[derive(Debug, Clone)]
pub enum Location {
    Remote { host: Option<String>, bucket: String, key: String },
    Local { path: String },
}

impl View for Location {
    type V = LocationModel;

    open spec fn view(&self) -> LocationModel {
        match self {
            Location::Remote { host, bucket, key } => LocationModel::Remote {
                host: match host {
                    Some(h) => Some(h@),
                    None => None,
                },
                bucket: bucket@,
                key: key@,
            },
            Location::Local { path } => LocationModel::Local { path: path@ },
        }
    }
}

impl PartialEq for Location {
    fn eq(&self, other: &Location) -> (r: bool) {
        match (self, other) {
            (
                Location::Remote { host: h1, bucket: b1, key: k1 },
                Location::Remote { host: h2, bucket: b2, key: k2 },
            ) => {
                let hosts_eq = match (h1, h2) {
                    (Some(x), Some(y)) => *x == *y,
                    (None, None) => true,
                    _ => false,
                };
                hosts_eq && *b1 == *b2 && *k1 == *k2
            },
            (Location::Local { path: p1 }, Location::Local { path: p2 }) => *p1 == *p2,
            _ => false,
        }
    }
}

impl vstd::std_specs::cmp::PartialEqSpecImpl for Location {
    open spec fn obeys_eq_spec() -> bool {
        true
    }

    open spec fn eq_spec(&self, other: &Location) -> bool {
        self@ == other@
    }
}

impl Eq for Location {}

/// The characters of the `s3://` scheme prefix.
pub open spec fn scheme_chars() -> Seq<char> {
    seq!['s', '3', ':', '/', '/']
}

/// Index of the first occurrence of `c` in `s` at or after position `i`.
pub open spec fn find_from(s: Seq<char>, i: int, c: char) -> Option<int>
    decreases s.len() - i,
{
    if i < 0 || i >= s.len() {
        None
    } else if s[i] == c {
        Some(i)
    } else {
        find_from(s, i + 1, c)
    }
}

/// A decimal digit.
pub open spec fn is_digit(c: char) -> bool {
    '0' <= c && c <= '9'
}

/// First position at or after `i` whose character is not a decimal digit,
/// or the end of the sequence.
pub open spec fn digit_run_end(s: Seq<char>, i: int) -> int
    decreases s.len() - i,
{
    if i < 0 {
        0
    } else if i >= s.len() {
        s.len() as int
    } else if is_digit(s[i]) {
        digit_run_end(s, i + 1)
    } else {
        i
    }
}

/// The bucket part of a remote tail: everything up to the first `/`, or the
/// whole tail when there is none.
pub open spec fn bucket_of(t: Seq<char>) -> Seq<char> {
    match find_from(t, 0, '/') {
        Some(i) => t.take(i),
        None => t,
    }
}

/// The key part of a remote tail: everything after the first `/`, or empty
/// when there is none.
pub open spec fn key_of(t: Seq<char>) -> Seq<char> {
    match find_from(t, 0, '/') {
        Some(i) => t.skip(i + 1),
        None => Seq::empty(),
    }
}

/// The string starts with the `s3://` scheme.
pub open spec fn is_s3_uri(s: Seq<char>) -> bool {
    s.len() >= 5 && s.take(5) == scheme_chars()
}

/// No `/` occurs before position `p`.
pub open spec fn no_slash_before(s: Seq<char>, p: int) -> bool {
    forall|j: int| 0 <= j < p ==> s[j] != '/'
}

/// The string matches `<host>:<port>/<bucket>(/<key>)?`: its first `:` is
/// preceded by no `/`, and the digit run after that `:` ends at a `/`.
pub open spec fn is_host_qualified(s: Seq<char>) -> bool {
    match find_from(s, 0, ':') {
        Some(p) => no_slash_before(s, p) && digit_run_end(s, p + 1) < s.len() && s[digit_run_end(
            s,
            p + 1,
        )] == '/',
        None => false,
    }
}

/// End of the `<host>:<port>` part of a host-qualified string.
pub open spec fn host_end(s: Seq<char>) -> int {
    digit_run_end(s, find_from(s, 0, ':')->0 + 1)
}

/// What parsing returns for any input string: the `s3://` grammar first,
/// then the host-qualified grammar, then a local path verbatim.
pub open spec fn parse_spec(s: Seq<char>) -> LocationModel {
    if is_s3_uri(s) {
        LocationModel::Remote { host: None, bucket: bucket_of(s.skip(5)), key: key_of(s.skip(5)) }
    } else if is_host_qualified(s) {
        LocationModel::Remote {
            host: Some(s.take(host_end(s))),
            bucket: bucket_of(s.skip(host_end(s) + 1)),
            key: key_of(s.skip(host_end(s) + 1)),
        }
    } else {
        LocationModel::Local { path: s }
    }
}

/// What a found index means: the character there is `c` and no earlier
/// position at or after `i` holds it; a miss means no position holds it.
pub proof fn lemma_find_from_props(s: Seq<char>, i: int, c: char)
    requires
        0 <= i,
    ensures
        find_from(s, i, c) is Some ==> i <= find_from(s, i, c)->0 < s.len() && s[find_from(
            s,
            i,
            c,
        )->0] == c && forall|k: int| i <= k < find_from(s, i, c)->0 ==> s[k] != c,
        find_from(s, i, c) is None ==> forall|k: int| i <= k < s.len() ==> s[k] != c,
    decreases s.len() - i,
{
    if i < s.len() && s[i] != c {
        lemma_find_from_props(s, i + 1, c);
    }
}

/// Conversely, a position holding `c` with none before it is what
/// `find_from` returns.
pub proof fn lemma_find_from_found(s: Seq<char>, i: int, j: int, c: char)
    requires
        0 <= i <= j < s.len(),
        s[j] == c,
        forall|k: int| i <= k < j ==> s[k] != c,
    ensures
        find_from(s, i, c) == Some(j),
    decreases j - i,
{
    if i < j {
        lemma_find_from_found(s, i + 1, j, c);
    }
}

/// A sequence free of `c` from `i` on has no occurrence to find.
pub proof fn lemma_find_from_none(s: Seq<char>, i: int, c: char)
    requires
        0 <= i,
        forall|k: int| i <= k < s.len() ==> s[k] != c,
    ensures
        find_from(s, i, c) is None,
    decreases s.len() - i,
{
    if i < s.len() {
        lemma_find_from_none(s, i + 1, c);
    }
}

/// A tail holding no `/` is all bucket, with an empty key.
proof fn lemma_bucket_key_whole(t: Seq<char>)
    requires
        !t.contains('/'),
    ensures
        bucket_of(t) == t,
        key_of(t) == Seq::<char>::empty(),
{
    assert(forall|j: int| 0 <= j < t.len() ==> t[j] != '/');
    lemma_find_from_none(t, 0, '/');
}

/// A tail of the shape `<bucket>/<key>` splits at its first `/`.
proof fn lemma_bucket_key_split(t: Seq<char>, b: Seq<char>, k: Seq<char>)
    requires
        t == b + seq!['/'] + k,
        !b.contains('/'),
    ensures
        bucket_of(t) == b,
        key_of(t) == k,
{
    assert(t[b.len() as int] == '/');
    assert forall|j: int| 0 <= j < b.len() implies t[j] != '/' by {
        assert(t[j] == b[j]);
    }
    lemma_find_from_found(t, 0, b.len() as int, '/');
    assert(t.take(b.len() as int) =~= b);
    assert(t.skip(b.len() as int + 1) =~= k);
}

/// Law: `s3://B` and `s3://B/` both parse to the bucket root of `B`: no
/// host, bucket `B`, empty key.
pub proof fn lemma_parse_s3_bucket_root(s: Seq<char>, b: Seq<char>)
    requires
        s == scheme_chars() + b || s == scheme_chars() + b + seq!['/'],
        !b.contains('/'),
    ensures
        parse_spec(s) == (LocationModel::Remote {
            host: None,
            bucket: b,
            key: Seq::<char>::empty(),
        }),
{
    assert(s.take(5) =~= scheme_chars());
    if s == scheme_chars() + b {
        assert(s.skip(5) =~= b);
        lemma_bucket_key_whole(b);
    } else {
        assert(s.skip(5) =~= b + seq!['/'] + Seq::<char>::empty());
        lemma_bucket_key_split(s.skip(5), b, Seq::<char>::empty());
    }
}

/// Law: `s3://B/K` parses to no host, bucket `B`, key `K` — the key is
/// everything after the first `/` past the scheme, slashes and all.
pub proof fn lemma_parse_s3_bucket_key(s: Seq<char>, b: Seq<char>, k: Seq<char>)
    requires
        s == scheme_chars() + b + seq!['/'] + k,
        !b.contains('/'),
    ensures
        parse_spec(s) == (LocationModel::Remote { host: None, bucket: b, key: k }),
{
    assert(s.take(5) =~= scheme_chars());
    assert(s.skip(5) =~= b + seq!['/'] + k);
    lemma_bucket_key_split(s.skip(5), b, k);
}

/// A run of digits ending at a non-digit (or at the end) is exactly what
/// `digit_run_end` measures.
proof fn lemma_digit_run(s: Seq<char>, i: int, e: int)
    requires
        0 <= i <= e <= s.len(),
        forall|j: int| i <= j < e ==> is_digit(s[j]),
        e == s.len() || !is_digit(s[e]),
    ensures
        digit_run_end(s, i) == e,
    decreases e - i,
{
    if i < e {
        lemma_digit_run(s, i + 1, e);
    }
}

/// Law: `H:P/B/K` with `H` free of `/` and `:` and `P` numeric parses to
/// host `H:P`, bucket `B`, key `K`. Strings that also begin with the
/// `s3://` scheme are claimed by that grammar first and are excluded here.
pub proof fn lemma_parse_host_qualified(
    s: Seq<char>,
    h: Seq<char>,
    p: Seq<char>,
    b: Seq<char>,
    k: Seq<char>,
)
    requires
        s == h + seq![':'] + p + seq!['/'] + b + seq!['/'] + k,
        !h.contains('/'),
        !h.contains(':'),
        forall|i: int| 0 <= i < p.len() ==> is_digit(p[i]),
        !b.contains('/'),
        !is_s3_uri(s),
    ensures
        parse_spec(s) == (LocationModel::Remote {
            host: Some(h + seq![':'] + p),
            bucket: b,
            key: k,
        }),
{
    let hl = h.len() as int;
    let e = hl + 1 + p.len();
    assert(s[hl] == ':');
    assert forall|j: int| 0 <= j < hl implies s[j] != ':' && s[j] != '/' by {
        assert(s[j] == h[j]);
    }
    lemma_find_from_found(s, 0, hl, ':');
    assert forall|j: int| hl + 1 <= j < e implies is_digit(s[j]) by {
        assert(s[j] == p[j - (hl + 1)]);
    }
    assert(s[e] == '/');
    assert(!is_digit('/'));
    lemma_digit_run(s, hl + 1, e);
    assert(is_host_qualified(s));
    assert(host_end(s) == e);
    assert(s.take(e) =~= h + seq![':'] + p);
    assert(s.skip(e + 1) =~= b + seq!['/'] + k);
    lemma_bucket_key_split(s.skip(e + 1), b, k);
}

/// Law: a string matching neither remote grammar parses to a local path,
/// verbatim.
pub proof fn lemma_parse_fallback_local(s: Seq<char>)
    requires
        !is_s3_uri(s),
        !is_host_qualified(s),
    ensures
        parse_spec(s) == (LocationModel::Local { path: s }),
{
}

/// First occurrence of `c` in `s` at or after byte-independent character
/// position `from`.
fn find_char(s: &str, from: usize, c: char) -> (r: Option<usize>)
    requires
        from <= s@.len(),
    ensures
        r is Some ==> find_from(s@, from as int, c) == Some(r->0 as int),
        r is None ==> find_from(s@, from as int, c) is None,
{
    let n = s.unicode_len();
    let mut i = from;
    while i < n
        invariant
            from <= i <= n,
            n == s@.len(),
            find_from(s@, from as int, c) == find_from(s@, i as int, c),
        decreases n - i,
    {
        if s.get_char(i) == c {
            return Some(i);
        }
        i = i + 1;
    }
    None
}

/// Length of the digit run starting at character position `from`.
fn scan_digits(s: &str, from: usize) -> (r: usize)
    requires
        from <= s@.len(),
    ensures
        r == digit_run_end(s@, from as int),
        from <= r <= s@.len(),
{
    let n = s.unicode_len();
    let mut i = from;
    while i < n
        invariant
            from <= i <= n,
            n == s@.len(),
            digit_run_end(s@, from as int) == digit_run_end(s@, i as int),
        decreases n - i,
    {
        let ch = s.get_char(i);
        if !('0' <= ch && ch <= '9') {
            return i;
        }
        i = i + 1;
    }
    n
}

/// Split the tail of `s` that starts at `start` into bucket and key at its
/// first `/`.
fn split_bucket_key(s: &str, start: usize) -> (r: (String, String))
    requires
        start <= s@.len(),
    ensures
        r.0@ == bucket_of(s@.skip(start as int)),
        r.1@ == key_of(s@.skip(start as int)),
{
    let ghost t = s@.skip(start as int);
    let n = s.unicode_len();
    match find_char(s, start, '/') {
        Some(i) => {
            proof {
                lemma_find_from_props(s@, start as int, '/');
                lemma_find_from_found(t, 0, i - start as int, '/');
                assert(t.take(i - start as int) =~= s@.subrange(start as int, i as int));
                assert(t.skip(i - start as int + 1) =~= s@.subrange(i + 1, n as int));
            }
            let b = s.substring_char(start, i);
            let k = s.substring_char(i + 1, n);
            (String::from_str(b), String::from_str(k))
        },
        None => {
            proof {
                lemma_find_from_props(s@, start as int, '/');
                lemma_find_from_none(t, 0, '/');
                assert(t.take(t.len() as int) =~= s@.subrange(start as int, n as int));
                assert(t =~= t.take(t.len() as int));
            }
            let b = s.substring_char(start, n);
            (String::from_str(b), String::new())
        },
    }
}

impl Location {
    /// Parse a raw source/destination string. Total: every string yields a
    /// location, unrecognized ones as a verbatim local path.
    pub fn parse(raw: &str) -> (r: Location)
        ensures
            r@ == parse_spec(raw@),
    {
        let n = raw.unicode_len();
        let has_scheme = n >= 5 && raw.get_char(0) == 's' && raw.get_char(1) == '3'
            && raw.get_char(2) == ':' && raw.get_char(3) == '/' && raw.get_char(4) == '/';
        if has_scheme {
            proof {
                assert(raw@.take(5) =~= scheme_chars());
            }
            let (bucket, key) = split_bucket_key(raw, 5);
            return Location::Remote { host: None, bucket, key };
        }
        proof {
            assert(!is_s3_uri(raw@)) by {
                if is_s3_uri(raw@) {
                    assert(raw@.take(5)[0] == raw@[0] && raw@.take(5)[1] == raw@[1] && raw@.take(
                        5,
                    )[2] == raw@[2] && raw@.take(5)[3] == raw@[3] && raw@.take(5)[4] == raw@[4]);
                }
            }
        }
        let colon = find_char(raw, 0, ':');
        match colon {
            Some(p) => {
                proof {
                    lemma_find_from_props(raw@, 0, ':');
                }
                let slash = find_char(raw, 0, '/');
                let slash_before_colon = match slash {
                    Some(q) => q < p,
                    None => false,
                };
                proof {
                    lemma_find_from_props(raw@, 0, '/');
                }
                if slash_before_colon {
                    return Location::Local { path: String::from_str(raw) };
                }
                let e = scan_digits(raw, p + 1);
                if e < n && raw.get_char(e) == '/' {
                    let host = raw.substring_char(0, e);
                    let (bucket, key) = split_bucket_key(raw, e + 1);
                    proof {
                        assert(raw@.take(e as int) =~= raw@.subrange(0, e as int));
                    }
                    return Location::Remote {
                        host: Some(String::from_str(host)),
                        bucket,
                        key,
                    };
                }
                Location::Local { path: String::from_str(raw) }
            },
            None => Location::Local { path: String::from_str(raw) },
        }
    }
}

} // verus!
