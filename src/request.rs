//! The request model: request line fields and a case-insensitive header table.
use vstd::prelude::*;
use crate::text::{
    chars_of, find, find_char, lemma_find, lower_of, lowercase, split_words, string_of, trim, trimmed, words,
};

verus! {

/// A header table as name/value pairs in insertion order.
pub type HeaderSeq = Seq<(Seq<char>, Seq<char>)>;

/// The value of the last pair named `k`; later pairs override earlier ones.
pub open spec fn last_value(hs: HeaderSeq, k: Seq<char>) -> Option<Seq<char>>
    decreases hs.len(),
{
    if hs.len() == 0 {
        None
    } else if hs.last().0 == k {
        Some(hs.last().1)
    } else {
        last_value(hs.drop_last(), k)
    }
}

/// The view of a list of string pairs.
pub open spec fn pairs_view(v: Seq<(String, String)>) -> HeaderSeq {
    v.map_values(|p: (String, String)| (p.0@, p.1@))
}

/// Method, path, protocol name and protocol version of a request line: exactly
/// three white-space separated tokens, the last with exactly one `/`.
pub open spec fn parse_request_line(l: Seq<char>) -> Option<(Seq<char>, Seq<char>, Seq<char>, Seq<char>)> {
    let w = words(l);
    if w.len() != 3 {
        None
    } else {
        let p = find(w[2], '/');
        if p < 0 || find(w[2].skip(p + 1), '/') >= 0 {
            None
        } else {
            Some((w[0], w[1], w[2].take(p), w[2].skip(p + 1)))
        }
    }
}

/// Name and value of a header line, split on its first `:`: the name
/// lower-cased, the value trimmed.
pub open spec fn parse_header_line(l: Seq<char>) -> Option<(Seq<char>, Seq<char>)> {
    let p = find(l, ':');
    if p < 0 {
        None
    } else {
        Some((lower_of(l.take(p)), trim(l.skip(p + 1))))
    }
}

/// The lines of a request, as text.
pub open spec fn lines_view(v: Seq<String>) -> Seq<Seq<char>> {
    v.map_values(|l: String| l@)
}

/// True when the lines form a request: a request line, then header lines.
pub open spec fn well_formed(ls: Seq<Seq<char>>) -> bool {
    &&& ls.len() >= 1
    &&& parse_request_line(ls[0]) is Some
    &&& forall|i: int| 1 <= i < ls.len() ==> (#[trigger] parse_header_line(ls[i])) is Some
}

/// The header table of well-formed lines, in line order.
pub open spec fn parsed_headers(ls: Seq<Seq<char>>) -> HeaderSeq {
    ls.skip(1).map_values(|l: Seq<char>| parse_header_line(l)->0)
}

/// An HTTP request as the handshake reads it.
pub struct Request {
    method: String,
    path: String,
    protocol_name: String,
    protocol_version: String,
    headers: Vec<(String, String)>,
}

impl Request {
    pub closed spec fn method_view(&self) -> Seq<char> {
        self.method@
    }

    pub closed spec fn path_view(&self) -> Seq<char> {
        self.path@
    }

    pub closed spec fn protocol_name_view(&self) -> Seq<char> {
        self.protocol_name@
    }

    pub closed spec fn protocol_version_view(&self) -> Seq<char> {
        self.protocol_version@
    }

    /// Header pairs in insertion order, names already lower-cased.
    pub closed spec fn header_seq(&self) -> HeaderSeq {
        pairs_view(self.headers@)
    }

    /// What a case-insensitive lookup of `key` finds.
    pub open spec fn header_spec(&self, key: Seq<char>) -> Option<Seq<char>> {
        last_value(self.header_seq(), lower_of(key))
    }

    /// Builds a request from its lines (request line first, then header
    /// lines, without the blank line that ends them). `None` when the lines
    /// do not form a request.
    pub fn parse(lines: &Vec<String>) -> (r: Option<Request>)
        ensures
            r is Some <==> well_formed(lines_view(lines@)),
            r matches Some(req) ==> {
                let (m, p, n, v) = parse_request_line(lines@[0]@)->0;
                &&& req.method_view() == m
                &&& req.path_view() == p
                &&& req.protocol_name_view() == n
                &&& req.protocol_version_view() == v
                &&& req.header_seq() == parsed_headers(lines_view(lines@))
            },
    {
        let ghost ls = lines_view(lines@);
        if lines.len() == 0 {
            return None;
        }
        let first = chars_of(lines[0].as_str());
        let w = split_words(first.as_slice());
        if w.len() != 3 {
            return None;
        }
        let proto = &w[2];
        let slash = match find_char(proto.as_slice(), '/') {
            Some(p) => p,
            None => {
                return None;
            },
        };
        proof {
            lemma_find(proto@, '/');
        }
        let plen: usize = proto.len();
        assert(slash < plen);
        let mut version: Vec<char> = Vec::new();
        let mut j: usize = slash + 1;
        while j < proto.len()
            invariant
                slash < j <= proto@.len(),
                version@ == proto@.subrange(slash + 1, j as int),
            decreases proto@.len() - j,
        {
            version.push(proto[j]);
            j = j + 1;
            assert(version@ =~= proto@.subrange(slash + 1, j as int));
        }
        assert(version@ =~= proto@.skip(slash + 1));
        if find_char(version.as_slice(), '/').is_some() {
            return None;
        }
        let mut name: Vec<char> = Vec::new();
        let mut j: usize = 0;
        while j < slash
            invariant
                j <= slash < proto@.len(),
                name@ == proto@.take(j as int),
            decreases slash - j,
        {
            name.push(proto[j]);
            j = j + 1;
            assert(name@ =~= proto@.take(j as int));
        }
        let mut headers: Vec<(String, String)> = Vec::new();
        let mut i: usize = 1;
        while i < lines.len()
            invariant
                1 <= i <= lines@.len(),
                ls == lines_view(lines@),
                forall|k: int| 1 <= k < i ==> (#[trigger] parse_header_line(ls[k])) is Some,
                pairs_view(headers@) == parsed_headers(ls.take(i as int)),
            decreases lines@.len() - i,
        {
            let line = chars_of(lines[i].as_str());
            let colon = match find_char(line.as_slice(), ':') {
                Some(c) => c,
                None => {
                    assert(ls[i as int] == line@);
                    return None;
                },
            };
            proof {
                lemma_find(line@, ':');
            }
            let mut key: Vec<char> = Vec::new();
            let mut j: usize = 0;
            while j < colon
                invariant
                    j <= colon < line@.len(),
                    key@ == line@.take(j as int),
                decreases colon - j,
            {
                key.push(line[j]);
                j = j + 1;
                assert(key@ =~= line@.take(j as int));
            }
            let n: usize = line.len();
            let value = trimmed(line.as_slice(), colon + 1);
            let ghost before = pairs_view(headers@);
            let name_text = lowercase(string_of(key.as_slice()).as_str());
            let value_text = string_of(value.as_slice());
            proof {
                assert(ls[i as int] == line@);
                assert(parse_header_line(ls[i as int]) == Some((name_text@, value_text@)));
                assert(ls.take(i + 1).skip(1) =~= ls.take(i as int).skip(1).push(ls[i as int]));
                assert(parsed_headers(ls.take(i + 1)) =~= parsed_headers(ls.take(i as int)).push(
                    (name_text@, value_text@),
                ));
            }
            let ghost pair = (name_text@, value_text@);
            headers.push((name_text, value_text));
            i = i + 1;
            assert(pairs_view(headers@) =~= before.push(pair));
        }
        assert(ls.take(i as int) =~= ls);
        let req = Request {
            method: string_of(w[0].as_slice()),
            path: string_of(w[1].as_slice()),
            protocol_name: string_of(name.as_slice()),
            protocol_version: string_of(version.as_slice()),
            headers,
        };
        Some(req)
    }

    pub fn is_get(&self) -> (r: bool)
        ensures
            r == (self.method_view() == "GET"@),
    {
        self.method == "GET".to_owned()
    }

    pub fn is_http(&self) -> (r: bool)
        ensures
            r == (self.protocol_name_view() == "HTTP"@),
    {
        self.protocol_name == "HTTP".to_owned()
    }

    pub fn meets_version(&self, version: &str) -> (r: bool)
        ensures
            r == (self.protocol_version_view() == version@),
    {
        self.protocol_version == version.to_owned()
    }

    /// Looks `key` up case-insensitively; the last header of that name wins.
    pub fn header(&self, key: &str) -> (r: Option<&String>)
        ensures
            match r {
                Some(v) => self.header_spec(key@) == Some(v@),
                None => self.header_spec(key@) is None,
            },
    {
        let k = lowercase(key);
        let ghost hs = self.header_seq();
        let mut i: usize = self.headers.len();
        assert(hs.take(i as int) =~= hs);
        while i > 0
            invariant
                i <= self.headers@.len(),
                hs == self.header_seq(),
                k@ == lower_of(key@),
                last_value(hs, k@) == last_value(hs.take(i as int), k@),
            decreases i,
        {
            i = i - 1;
            assert(hs.take(i + 1).drop_last() =~= hs.take(i as int));
            if self.headers[i].0 == k {
                return Some(&self.headers[i].1);
            }
        }
        assert(hs.take(0) =~= Seq::<(Seq<char>, Seq<char>)>::empty());
        None
    }
}

/// Header lookup ignores case: the value last set under `name` is found
/// under every `query` with the same lower-case form.
pub proof fn lemma_lookup_ignores_case(
    req: Request,
    name: Seq<char>,
    value: Seq<char>,
    query: Seq<char>,
)
    requires
        req.header_seq().len() > 0,
        req.header_seq().last() == (lower_of(name), value),
        lower_of(name) == lower_of(query),
    ensures
        req.header_spec(query) == Some(value),
{
}

/// Assembles a [`Request`] field by field.
pub struct Builder {
    method: String,
    path: String,
    protocol_name: String,
    protocol_version: String,
    headers: Vec<(String, String)>,
}

impl Builder {
    pub closed spec fn method_view(&self) -> Seq<char> {
        self.method@
    }

    pub closed spec fn path_view(&self) -> Seq<char> {
        self.path@
    }

    pub closed spec fn protocol_name_view(&self) -> Seq<char> {
        self.protocol_name@
    }

    pub closed spec fn protocol_version_view(&self) -> Seq<char> {
        self.protocol_version@
    }

    pub closed spec fn header_seq(&self) -> HeaderSeq {
        pairs_view(self.headers@)
    }

    /// A builder with empty fields and no headers.
    pub fn new() -> (r: Builder)
        ensures
            r.method_view() == Seq::<char>::empty(),
            r.path_view() == Seq::<char>::empty(),
            r.protocol_name_view() == Seq::<char>::empty(),
            r.protocol_version_view() == Seq::<char>::empty(),
            r.header_seq() == HeaderSeq::empty(),
    {
        let r = Builder {
            method: String::new(),
            path: String::new(),
            protocol_name: String::new(),
            protocol_version: String::new(),
            headers: Vec::new(),
        };
        assert(r.header_seq() =~= HeaderSeq::empty());
        r
    }

    pub fn method(self, method: &str) -> (r: Builder)
        ensures
            r.method_view() == method@,
            r.path_view() == self.path_view(),
            r.protocol_name_view() == self.protocol_name_view(),
            r.protocol_version_view() == self.protocol_version_view(),
            r.header_seq() == self.header_seq(),
    {
        Builder { method: method.to_owned(), ..self }
    }

    pub fn path(self, path: &str) -> (r: Builder)
        ensures
            r.method_view() == self.method_view(),
            r.path_view() == path@,
            r.protocol_name_view() == self.protocol_name_view(),
            r.protocol_version_view() == self.protocol_version_view(),
            r.header_seq() == self.header_seq(),
    {
        Builder { path: path.to_owned(), ..self }
    }

    pub fn protocol_name(self, protocol_name: &str) -> (r: Builder)
        ensures
            r.method_view() == self.method_view(),
            r.path_view() == self.path_view(),
            r.protocol_name_view() == protocol_name@,
            r.protocol_version_view() == self.protocol_version_view(),
            r.header_seq() == self.header_seq(),
    {
        Builder { protocol_name: protocol_name.to_owned(), ..self }
    }

    pub fn protocol_version(self, protocol_version: &str) -> (r: Builder)
        ensures
            r.method_view() == self.method_view(),
            r.path_view() == self.path_view(),
            r.protocol_name_view() == self.protocol_name_view(),
            r.protocol_version_view() == protocol_version@,
            r.header_seq() == self.header_seq(),
    {
        Builder { protocol_version: protocol_version.to_owned(), ..self }
    }

    /// Adds a header; its name is stored lower-cased, so lookups ignore case.
    pub fn header(self, key: &str, value: &str) -> (r: Builder)
        ensures
            r.method_view() == self.method_view(),
            r.path_view() == self.path_view(),
            r.protocol_name_view() == self.protocol_name_view(),
            r.protocol_version_view() == self.protocol_version_view(),
            r.header_seq() == self.header_seq().push((lower_of(key@), value@)),
    {
        let mut b = self;
        let name = lowercase(key);
        b.headers.push((name, value.to_owned()));
        assert(b.header_seq() =~= self.header_seq().push((lower_of(key@), value@)));
        b
    }

    pub fn build(self) -> (r: Request)
        ensures
            r.method_view() == self.method_view(),
            r.path_view() == self.path_view(),
            r.protocol_name_view() == self.protocol_name_view(),
            r.protocol_version_view() == self.protocol_version_view(),
            r.header_seq() == self.header_seq(),
    {
        Request {
            method: self.method,
            path: self.path,
            protocol_name: self.protocol_name,
            protocol_version: self.protocol_version,
            headers: self.headers,
        }
    }
}

} // verus!
