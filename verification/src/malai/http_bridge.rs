//! Bridge from a local HTTP socket to a peer: the head of each request
//! received locally is parsed into an [`HttpRequest`] that is sent along when
//! the peer-to-peer connection is opened.
//!
//! The received bytes are decoded as UTF-8 (invalid sequences replaced), cut
//! into lines, the first line split at white space into method, path and
//! version, and each following line up to the first empty one read as a
//! `Name: value` header.  A header named twice keeps its last value.

use vstd::prelude::*;
use crate::text::{
    chars_of, concat, lines, split_colon_space, split_lines, split_once_colon_space, split_words, str_eq,
    string_from_chars, views, words,
};

verus! {

/// Protocol definition for HTTP proxying.
#[derive(Clone, Copy, Debug, PartialEq, Eq, Structural)]
pub enum HttpProtocol {
    Forward,
}

/// HTTP request metadata sent when the connection is opened.  Header names
/// occur at most once.
#[derive(Debug)]
pub struct HttpRequest {
    pub method: String,
    pub path: String,
    pub headers: Vec<(String, String)>,
    pub version: String,
}

/// The mathematical value of an [`HttpRequest`]: its headers as a map.
pub struct HttpRequestSpec {
    pub method: Seq<char>,
    pub path: Seq<char>,
    pub headers: Map<Seq<char>, Seq<char>>,
    pub version: Seq<char>,
}

/// The views of name/value pairs.
pub open spec fn pairs_view(v: Seq<(String, String)>) -> Seq<(Seq<char>, Seq<char>)> {
    v.map_values(|p: (String, String)| (p.0@, p.1@))
}

/// The map that a sequence of name/value pairs describes (a later pair wins).
pub open spec fn pairs_map(s: Seq<(Seq<char>, Seq<char>)>) -> Map<Seq<char>, Seq<char>>
    decreases s.len(),
{
    if s.len() == 0 {
        Map::empty()
    } else {
        pairs_map(s.drop_last()).insert(s.last().0, s.last().1)
    }
}

/// No name occurs twice.
pub open spec fn names_unique(s: Seq<(Seq<char>, Seq<char>)>) -> bool {
    forall|i: int, j: int| 0 <= i < j < s.len() ==> #[trigger] s[i].0 != #[trigger] s[j].0
}

impl View for HttpRequest {
    type V = HttpRequestSpec;

    open spec fn view(&self) -> HttpRequestSpec {
        HttpRequestSpec {
            method: self.method@,
            path: self.path@,
            headers: pairs_map(pairs_view(self.headers@)),
            version: self.version@,
        }
    }
}

/// Errors of the bridge, each with the text of what went wrong.
#[derive(Debug)]
pub enum BridgeError {
    Http(String),
    P2P(String),
    Io(String),
}

/// The message of a [`BridgeError`].
pub open spec fn bridge_error_message(e: BridgeError) -> Seq<char> {
    match e {
        BridgeError::Http(m) => "HTTP error: "@ + m@,
        BridgeError::P2P(m) => "P2P error: "@ + m@,
        BridgeError::Io(m) => "IO error: "@ + m@,
    }
}

impl BridgeError {
    /// The message of this error.
    pub fn to_string(&self) -> (s: String)
        ensures
            s@ == bridge_error_message(*self),
    {
        match self {
            BridgeError::Http(m) => concat("HTTP error: ", m.as_str()),
            BridgeError::P2P(m) => concat("P2P error: ", m.as_str()),
            BridgeError::Io(m) => concat("IO error: ", m.as_str()),
        }
    }
}

/// The header lines: the lines up to (not including) the first empty one.
pub open spec fn header_lines(ls: Seq<Seq<char>>) -> Seq<Seq<char>>
    decreases ls.len(),
{
    if ls.len() == 0 || ls[0].len() == 0 {
        Seq::empty()
    } else {
        seq![ls[0]] + header_lines(ls.drop_first())
    }
}

/// The headers that header lines give: each line holding `": "` names a
/// header, a later line replacing an earlier one of the same name; other
/// lines are ignored.
pub open spec fn header_map(hl: Seq<Seq<char>>) -> Map<Seq<char>, Seq<char>>
    decreases hl.len(),
{
    if hl.len() == 0 {
        Map::empty()
    } else {
        let m = header_map(hl.drop_last());
        match split_colon_space(hl.last()) {
            Some((k, v)) => m.insert(k, v),
            None => m,
        }
    }
}

/// The request that the text of a request head describes, if its first line
/// has at least three words.
pub open spec fn http_head_text(text: Seq<char>) -> Option<HttpRequestSpec> {
    let ls = lines(text);
    if ls.len() == 0 {
        None
    } else {
        let ws = words(ls[0]);
        if ws.len() < 3 {
            None
        } else {
            Some(
                HttpRequestSpec {
                    method: ws[0],
                    path: ws[1],
                    version: ws[2],
                    headers: header_map(header_lines(ls.drop_first())),
                },
            )
        }
    }
}

/// The text that `String::from_utf8_lossy` makes of `bytes`.
pub uninterp spec fn utf8_lossy(bytes: Seq<u8>) -> Seq<char>;

/// `String::from_utf8_lossy`: the text of `bytes`, with each invalid UTF-8
/// sequence replaced by U+FFFD, as `utf8_lossy` names; valid UTF-8 is
/// decoded as it stands.
#[verifier::external_body]
fn decode_lossy(bytes: &[u8]) -> (s: String)
    ensures
        s@ == utf8_lossy(bytes@),
        vstd::utf8::valid_utf8(bytes@) ==> s@ == vstd::utf8::decode_utf8(bytes@),
{
    String::from_utf8_lossy(bytes).into_owned()
}

/// The request that the bytes received for a request describe: none for no
/// bytes, otherwise that of their text.
pub open spec fn http_head(bytes: Seq<u8>) -> Option<HttpRequestSpec> {
    if bytes.len() == 0 {
        None
    } else {
        http_head_text(utf8_lossy(bytes))
    }
}

proof fn lemma_pairs_map_update(s: Seq<(Seq<char>, Seq<char>)>, i: int, v: Seq<char>)
    requires
        names_unique(s),
        0 <= i < s.len(),
    ensures
        names_unique(s.update(i, (s[i].0, v))),
        pairs_map(s.update(i, (s[i].0, v))) == pairs_map(s).insert(s[i].0, v),
    decreases s.len(),
{
    let u = s.update(i, (s[i].0, v));
    assert(names_unique(u)) by {
        assert forall|a: int, b: int| 0 <= a < b < u.len() implies #[trigger] u[a].0 != #[trigger] u[b].0 by {
            assert(s[a].0 != s[b].0);
        }
    }
    if i == s.len() - 1 {
        assert(u.drop_last() =~= s.drop_last());
        assert(pairs_map(u) =~= pairs_map(s).insert(s[i].0, v));
    } else {
        let d = s.drop_last();
        assert(names_unique(d)) by {
            assert forall|a: int, b: int| 0 <= a < b < d.len() implies #[trigger] d[a].0 != #[trigger] d[b].0 by {
                assert(s[a].0 != s[b].0);
            }
        }
        lemma_pairs_map_update(d, i, v);
        assert(u.drop_last() =~= d.update(i, (s[i].0, v)));
        assert(s[i].0 != s.last().0);
        assert(pairs_map(u) =~= pairs_map(s).insert(s[i].0, v));
    }
}

/// Sets header `key` to `value`, replacing an earlier value of that name.
fn set_header(headers: &mut Vec<(String, String)>, key: String, value: String)
    requires
        names_unique(pairs_view(old(headers)@)),
    ensures
        names_unique(pairs_view(final(headers)@)),
        pairs_map(pairs_view(final(headers)@)) == pairs_map(pairs_view(old(headers)@)).insert(key@, value@),
{
    let ghost old_pairs = pairs_view(headers@);
    let mut i: usize = 0;
    while i < headers.len()
        invariant
            i <= headers.len(),
            headers@ == old(headers)@,
            old_pairs == pairs_view(headers@),
            names_unique(old_pairs),
            forall|j: int| 0 <= j < i ==> #[trigger] old_pairs[j].0 != key@,
        decreases headers.len() - i,
    {
        if str_eq(headers[i].0.as_str(), key.as_str()) {
            proof {
                lemma_pairs_map_update(old_pairs, i as int, value@);
            }
            headers.set(i, (key, value));
            assert(pairs_view(headers@) =~= old_pairs.update(i as int, (old_pairs[i as int].0, value@)));
            return;
        }
        i = i + 1;
    }
    let ghost kv = key@;
    let ghost vv = value@;
    headers.push((key, value));
    assert(pairs_view(headers@) =~= old_pairs.push((kv, vv)));
    assert(pairs_view(headers@).drop_last() =~= old_pairs);
}

proof fn lemma_header_lines_prefix(ls: Seq<Seq<char>>, k: int)
    requires
        0 <= k <= ls.len(),
        forall|j: int| 0 <= j < k ==> (#[trigger] ls[j]).len() > 0,
    ensures
        header_lines(ls).len() >= k,
        header_lines(ls).take(k) == ls.take(k),
        (k == ls.len() || ls[k].len() == 0) ==> header_lines(ls) == ls.take(k),
    decreases k,
{
    if k == 0 {
        assert(ls.take(0) =~= Seq::<Seq<char>>::empty());
        assert(header_lines(ls).take(0) =~= Seq::<Seq<char>>::empty());
    } else {
        let rest = ls.drop_first();
        assert forall|j: int| 0 <= j < k - 1 implies (#[trigger] rest[j]).len() > 0 by {
            assert(rest[j] == ls[j + 1]);
        }
        lemma_header_lines_prefix(rest, k - 1);
        assert(ls[0].len() > 0);
        let h = header_lines(ls);
        let hr = header_lines(rest);
        assert(h == seq![ls[0]] + hr);
        assert forall|j: int| 0 <= j < k implies #[trigger] h[j] == ls[j] by {
            if j > 0 {
                assert(h[j] == hr[j - 1]);
                assert(hr.take(k - 1)[j - 1] == rest.take(k - 1)[j - 1]);
            }
        }
        assert(h.take(k) =~= ls.take(k));
        if k == ls.len() || ls[k].len() == 0 {
            assert(k - 1 == rest.len() || rest[k - 1].len() == 0);
            assert(header_lines(ls) =~= ls.take(k));
        }
    }
}

/// Parses the text of a request head.
pub fn parse_http_head_text(text: &str) -> (r: Option<HttpRequest>)
    ensures
        match r {
            Some(req) => http_head_text(text@) == Some(req@) && names_unique(pairs_view(req.headers@)),
            None => http_head_text(text@) is None,
        },
{
    let chars = chars_of(text);
    let ls = split_lines(&chars);
    let ghost lsv = lines(text@);
    assert(views(ls@) == lsv);
    if ls.len() == 0 {
        return None;
    }
    assert(ls@[0]@ == lsv[0]);
    let ws = split_words(&ls[0]);
    if ws.len() < 3 {
        return None;
    }
    let method = string_from_chars(ws[0].as_slice());
    let path = string_from_chars(ws[1].as_slice());
    let version = string_from_chars(ws[2].as_slice());
    assert(ws@[0]@ == words(lsv[0])[0] && ws@[1]@ == words(lsv[0])[1] && ws@[2]@ == words(lsv[0])[2]);
    let ghost rest = lsv.drop_first();
    let mut headers: Vec<(String, String)> = Vec::new();
    let mut i: usize = 1;
    assert(rest.take(0) =~= Seq::<Seq<char>>::empty());
    assert(pairs_map(pairs_view(headers@)) =~= header_map(rest.take(0)));
    while i < ls.len() && ls[i].len() > 0
        invariant
            1 <= i <= ls.len(),
            views(ls@) == lsv,
            rest == lsv.drop_first(),
            forall|j: int| 0 <= j < i - 1 ==> (#[trigger] rest[j]).len() > 0,
            names_unique(pairs_view(headers@)),
            pairs_map(pairs_view(headers@)) == header_map(rest.take(i - 1)),
        decreases ls.len() - i,
    {
        assert(ls@[i as int]@ == rest[i - 1]);
        assert(rest.take(i as int).drop_last() =~= rest.take(i - 1));
        assert(rest.take(i as int).last() == rest[i - 1]);
        match split_once_colon_space(&ls[i]) {
            Some((k, v)) => {
                let key = string_from_chars(k.as_slice());
                let value = string_from_chars(v.as_slice());
                set_header(&mut headers, key, value);
            },
            None => {},
        }
        i = i + 1;
    }
    proof {
        assert forall|j: int| 0 <= j < i - 1 implies (#[trigger] rest[j]).len() > 0 by {}
        assert(i - 1 == rest.len() || rest[i - 1].len() == 0) by {
            if i < ls.len() {
                assert(ls@[i as int]@ == rest[i - 1]);
            }
        }
        lemma_header_lines_prefix(rest, i - 1);
    }
    Some(HttpRequest { method, path, headers, version })
}

/// Parses the bytes received for a request: none for no bytes, otherwise
/// the head of their text.
pub fn parse_http_head(request: &[u8]) -> (r: Option<HttpRequest>)
    ensures
        match r {
            Some(req) => http_head(request@) == Some(req@) && names_unique(pairs_view(req.headers@)),
            None => http_head(request@) is None,
        },
{
    if request.len() == 0 {
        return None;
    }
    let text = decode_lossy(request);
    parse_http_head_text(text.as_str())
}

} // verus!
