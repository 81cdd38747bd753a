//! The response builder and the wire format it writes.
use vstd::prelude::*;
use vstd::utf8::*;
use crate::request::{HeaderSeq, pairs_view};
use crate::status_code::{StatusCode, reason_of};
use crate::text::{chars_of, find, lemma_find, string_of};

verus! {

/// Index of the last pair named `k`, or -1.
pub open spec fn index_of(hs: HeaderSeq, k: Seq<char>) -> int
    decreases hs.len(),
{
    if hs.len() == 0 {
        -1
    } else if hs.last().0 == k {
        hs.len() - 1
    } else {
        index_of(hs.drop_last(), k)
    }
}

/// Sets `k` to `v`: replaces the pair named `k` in place, or appends one.
pub open spec fn put(hs: HeaderSeq, k: Seq<char>, v: Seq<char>) -> HeaderSeq {
    let i = index_of(hs, k);
    if i >= 0 {
        hs.update(i, (k, v))
    } else {
        hs.push((k, v))
    }
}

/// No two pairs share a name.
pub open spec fn unique_names(hs: HeaderSeq) -> bool {
    forall|i: int, j: int| 0 <= i < j < hs.len() ==> hs[i].0 != hs[j].0
}

pub proof fn lemma_index_of(hs: HeaderSeq, k: Seq<char>)
    ensures
        -1 <= index_of(hs, k) < hs.len(),
        index_of(hs, k) >= 0 ==> hs[index_of(hs, k)].0 == k,
        index_of(hs, k) == -1 ==> forall|j: int| 0 <= j < hs.len() ==> hs[j].0 != k,
    decreases hs.len(),
{
    if hs.len() > 0 && hs.last().0 != k {
        lemma_index_of(hs.drop_last(), k);
        if index_of(hs, k) == -1 {
            assert forall|j: int| 0 <= j < hs.len() implies hs[j].0 != k by {
                if j < hs.len() - 1 {
                    assert(hs.drop_last()[j] == hs[j]);
                }
            }
        }
    }
}

/// Setting a name keeps names unique.
pub proof fn lemma_put_unique(hs: HeaderSeq, k: Seq<char>, v: Seq<char>)
    requires
        unique_names(hs),
    ensures
        unique_names(put(hs, k, v)),
{
    lemma_index_of(hs, k);
}

/// `"HTTP/1.1 "`.
pub open spec fn status_prefix() -> Seq<char> {
    seq!['H', 'T', 'T', 'P', '/', '1', '.', '1', ' ']
}

pub open spec fn crlf() -> Seq<char> {
    seq!['\r', '\n']
}

pub open spec fn name_separator() -> Seq<char> {
    seq![':', ' ']
}

pub open spec fn digit_char(d: nat) -> char {
    ((48 + d) as u8) as char
}

/// Decimal digits of `n`, most significant first, without leading zeros.
pub open spec fn decimal(n: nat) -> Seq<char>
    decreases n,
{
    if n < 10 {
        seq![digit_char(n)]
    } else {
        decimal(n / 10).push(digit_char(n % 10))
    }
}

/// `"<name>: <value>\r\n"` for each pair, in order.
pub open spec fn header_lines(hs: HeaderSeq) -> Seq<char>
    decreases hs.len(),
{
    if hs.len() == 0 {
        Seq::empty()
    } else {
        header_lines(hs.drop_last()) + hs.last().0 + name_separator() + hs.last().1 + crlf()
    }
}

/// The serialized response: status line, then one line per header.
pub open spec fn response_text(code: u16, reason: Seq<char>, hs: HeaderSeq) -> Seq<char> {
    status_prefix() + decimal(code as nat) + seq![' '] + reason + crlf() + header_lines(hs)
}

/// The value of a run of decimal digits.
pub open spec fn digits_value(s: Seq<char>) -> nat
    decreases s.len(),
{
    if s.len() == 0 {
        0
    } else {
        digits_value(s.drop_last()) * 10 + ((s.last() as u32) - 48) as nat
    }
}

pub open spec fn is_digit(c: char) -> bool {
    '0' <= c <= '9'
}

/// The code of a status line `HTTP/1.1 <digits> <reason>`.
pub open spec fn split_status_line(line: Seq<char>) -> Option<nat> {
    if line.len() < 9 || line.take(9) != status_prefix() {
        None
    } else {
        let rest = line.skip(9);
        let sp = find(rest, ' ');
        if sp <= 0 || !(forall|i: int| 0 <= i < sp ==> is_digit(#[trigger] rest[i])) {
            None
        } else {
            Some(digits_value(rest.take(sp)))
        }
    }
}

/// Header lines `<name>: <value>` ended by CR LF, each split on its first `:`.
pub open spec fn split_header_lines(t: Seq<char>) -> Option<HeaderSeq>
    decreases t.len(),
{
    if t.len() == 0 {
        Some(HeaderSeq::empty())
    } else {
        let p = find(t, '\r');
        if p < 0 || p + 1 >= t.len() || t[p + 1] != '\n' {
            None
        } else {
            let line = t.take(p);
            let c = find(line, ':');
            if c < 0 || c + 1 >= line.len() || line[c + 1] != ' ' {
                None
            } else {
                match split_header_lines(t.skip(p + 2)) {
                    Some(rest) => Some(seq![(line.take(c), line.skip(c + 2))] + rest),
                    None => None,
                }
            }
        }
    }
}

/// Reads a response back: the status code from the first line and the
/// header pairs from the lines after it.
pub open spec fn split_response(t: Seq<char>) -> Option<(nat, HeaderSeq)> {
    let p = find(t, '\r');
    if p < 0 || p + 1 >= t.len() || t[p + 1] != '\n' {
        None
    } else {
        match (split_status_line(t.take(p)), split_header_lines(t.skip(p + 2))) {
            (Some(code), Some(hs)) => Some((code, hs)),
            _ => None,
        }
    }
}

/// Names free of `:` and CR, values free of CR: what a line-based reader
/// can split back.
pub open spec fn splittable(hs: HeaderSeq) -> bool {
    forall|i: int, j: int|
        0 <= i < hs.len() ==> {
            &&& (0 <= j < hs[i].0.len() ==> hs[i].0[j] != ':' && hs[i].0[j] != '\r')
            &&& (0 <= j < hs[i].1.len() ==> hs[i].1[j] != '\r')
        }
}

proof fn lemma_find_at(s: Seq<char>, c: char, p: int)
    requires
        0 <= p < s.len(),
        s[p] == c,
        forall|j: int| 0 <= j < p ==> s[j] != c,
    ensures
        find(s, c) == p,
{
    lemma_find(s, c);
}

proof fn lemma_header_lines_front(hs: HeaderSeq)
    requires
        hs.len() > 0,
    ensures
        header_lines(hs) == hs[0].0 + name_separator() + hs[0].1 + crlf() + header_lines(
            hs.drop_first(),
        ),
    decreases hs.len(),
{
    if hs.len() == 1 {
        assert(hs.drop_last() =~= HeaderSeq::empty());
        assert(hs.drop_first() =~= HeaderSeq::empty());
        assert(header_lines(hs) =~= hs[0].0 + name_separator() + hs[0].1 + crlf() + header_lines(
            hs.drop_first(),
        ));
    } else {
        lemma_header_lines_front(hs.drop_last());
        assert(hs.drop_last().drop_first() =~= hs.drop_first().drop_last());
        assert(hs.drop_last()[0] == hs[0]);
        assert(hs.drop_first().last() == hs.last());
        assert(header_lines(hs) =~= hs[0].0 + name_separator() + hs[0].1 + crlf() + header_lines(
            hs.drop_first(),
        ));
    }
}

proof fn lemma_split_header_lines(hs: HeaderSeq)
    requires
        splittable(hs),
    ensures
        split_header_lines(header_lines(hs)) == Some(hs),
    decreases hs.len(),
{
    if hs.len() == 0 {
        assert(hs =~= HeaderSeq::empty());
    } else {
        let name = hs[0].0;
        let value = hs[0].1;
        let rest = hs.drop_first();
        assert(splittable(rest)) by {
            assert forall|i: int, j: int| 0 <= i < rest.len() implies {
                &&& (0 <= j < rest[i].0.len() ==> rest[i].0[j] != ':' && rest[i].0[j] != '\r')
                &&& (0 <= j < rest[i].1.len() ==> rest[i].1[j] != '\r')
            } by {
                assert(rest[i] == hs[i + 1]);
            }
        }
        lemma_split_header_lines(rest);
        lemma_header_lines_front(hs);
        let line = name + name_separator() + value;
        let t = header_lines(hs);
        assert(t =~= line + crlf() + header_lines(rest));
        let p = line.len() as int;
        assert forall|j: int| 0 <= j < p implies t[j] != '\r' by {
            assert(t[j] == line[j]);
            if j < name.len() {
                assert(line[j] == name[j]);
                assert(hs[0].0[j] != '\r');
            } else if j >= name.len() + 2 {
                assert(line[j] == value[j - name.len() - 2]);
                assert(hs[0].1[j - name.len() - 2] != '\r');
            }
        }
        lemma_find_at(t, '\r', p);
        assert(t.take(p) =~= line);
        assert(t.skip(p + 2) =~= header_lines(rest));
        let c = name.len() as int;
        assert forall|j: int| 0 <= j < c implies line[j] != ':' by {
            assert(line[j] == name[j]);
            assert(hs[0].0[j] != ':');
        }
        lemma_find_at(line, ':', c);
        assert(line.take(c) =~= name);
        assert(line.skip(c + 2) =~= value);
        assert(seq![(name, value)] + rest =~= hs);
    }
}

proof fn lemma_decimal(n: nat)
    ensures
        decimal(n).len() > 0,
        forall|i: int| 0 <= i < decimal(n).len() ==> is_digit(#[trigger] decimal(n)[i]),
        digits_value(decimal(n)) == n,
    decreases n,
{
    assert(forall|d: nat| d < 10 ==> (digit_char(d) as u32) == 48 + d && is_digit(
        #[trigger] digit_char(d),
    )) by {
        assert forall|d: nat| d < 10 implies (digit_char(d) as u32) == 48 + d && is_digit(
            #[trigger] digit_char(d),
        ) by {
            assert(((48 + d) as u8) as char as u32 == 48 + d);
        }
    }
    if n >= 10 {
        lemma_decimal(n / 10);
        let s = decimal(n);
        assert(s.drop_last() =~= decimal(n / 10));
        assert forall|i: int| 0 <= i < s.len() implies is_digit(#[trigger] s[i]) by {
            if i < s.len() - 1 {
                assert(s[i] == decimal(n / 10)[i]);
            }
        }
        assert(s.last() == digit_char(n % 10));
        assert((digit_char((n % 10) as nat) as u32) == 48 + n % 10);
        assert(digits_value(s) == digits_value(decimal(n / 10)) * 10 + n % 10);
        assert((n / 10) * 10 + n % 10 == n) by (nonlinear_arith);
    } else {
        let s = decimal(n);
        assert(s.drop_last() =~= Seq::<char>::empty());
        assert(s.last() == digit_char(n));
        assert((digit_char(n) as u32) == 48 + n);
        assert(digits_value(s) == digits_value(s.drop_last()) * 10 + n);
    }
}

/// Reading the built response back line by line yields the status code and
/// the header pairs that were set, provided no name holds `:` or CR and no
/// value holds CR.
pub proof fn lemma_response_round_trip(code: u16, hs: HeaderSeq)
    requires
        reason_of(code) is Some,
        splittable(hs),
    ensures
        split_response(decode_utf8(encode_utf8(response_text(code, reason_of(code)->0, hs))))
            == Some((code as nat, hs)),
{
    let reason = reason_of(code)->0;
    reveal_strlit("Switching Protocols");
    let t = response_text(code, reason, hs);
    encode_utf8_decode_utf8(t);
    lemma_decimal(code as nat);
    lemma_split_header_lines(hs);
    let d = decimal(code as nat);
    let line = status_prefix() + d + seq![' '] + reason;
    assert(t =~= line + crlf() + header_lines(hs));
    let p = line.len() as int;
    assert forall|j: int| 0 <= j < p implies t[j] != '\r' by {
        assert(t[j] == line[j]);
        if 9 <= j < 9 + d.len() {
            assert(line[j] == d[j - 9]);
            assert(is_digit(d[j - 9]));
        }
    }
    lemma_find_at(t, '\r', p);
    assert(t.take(p) =~= line);
    assert(t.skip(p + 2) =~= header_lines(hs));
    assert(line.take(9) =~= status_prefix());
    let rest = line.skip(9);
    assert(rest =~= d + seq![' '] + reason);
    assert forall|j: int| 0 <= j < d.len() implies rest[j] != ' ' by {
        assert(rest[j] == d[j]);
        assert(is_digit(d[j]));
    }
    lemma_find_at(rest, ' ', d.len() as int);
    assert(rest.take(d.len() as int) =~= d);
}

/// Accumulates a status and headers, then writes the response.
pub struct Builder {
    status: Option<StatusCode>,
    headers: Vec<(String, String)>,
}

fn push_str(out: &mut Vec<char>, s: &str)
    ensures
        final(out)@ == old(out)@ + s@,
{
    let cs = chars_of(s);
    let mut i: usize = 0;
    while i < cs.len()
        invariant
            i <= cs@.len(),
            cs@ == s@,
            out@ == old(out)@ + cs@.take(i as int),
        decreases cs@.len() - i,
    {
        out.push(cs[i]);
        i = i + 1;
        assert(cs@.take(i as int) =~= cs@.take(i - 1).push(cs@[i - 1]));
    }
    assert(cs@.take(i as int) =~= cs@);
}

fn push_decimal(out: &mut Vec<char>, n: u16)
    ensures
        final(out)@ == old(out)@ + decimal(n as nat),
    decreases n,
{
    if n >= 10 {
        push_decimal(out, n / 10);
    }
    let d: u8 = (n % 10) as u8;
    out.push((48 + d) as char);
    assert(out@ =~= old(out)@ + decimal(n as nat));
}

impl Builder {
    #[verifier::type_invariant]
    spec fn names_unique(&self) -> bool {
        unique_names(pairs_view(self.headers@))
    }

    pub closed spec fn status_view(&self) -> Option<u16> {
        match self.status {
            Some(s) => Some(s.code_spec()),
            None => None,
        }
    }

    /// Header pairs in the order in which their names were first set.
    pub closed spec fn header_seq(&self) -> HeaderSeq {
        pairs_view(self.headers@)
    }

    /// A builder with no status and no headers.
    pub fn new() -> (r: Builder)
        ensures
            r.status_view() is None,
            r.header_seq() == HeaderSeq::empty(),
    {
        let r = Builder { status: None, headers: Vec::new() };
        assert(r.header_seq() =~= HeaderSeq::empty());
        r
    }

    pub fn status(self, code: StatusCode) -> (r: Builder)
        ensures
            r.status_view() == Some(code.code_spec()),
            r.header_seq() == self.header_seq(),
    {
        proof {
            use_type_invariant(&self);
        }
        Builder { status: Some(code), headers: self.headers }
    }

    /// Sets header `key` to `value`; a second set of the same name replaces the first.
    pub fn header(self, key: &str, value: &str) -> (r: Builder)
        ensures
            r.status_view() == self.status_view(),
            r.header_seq() == put(self.header_seq(), key@, value@),
            unique_names(r.header_seq()),
    {
        proof {
            use_type_invariant(&self);
        }
        let ghost hs = self.header_seq();
        let ghost st = self.status_view();
        let Builder { status, mut headers } = self;
        let k = key.to_owned();
        let v = value.to_owned();
        proof {
            lemma_index_of(hs, k@);
            lemma_put_unique(hs, k@, v@);
        }
        let mut i: usize = headers.len();
        assert(hs.take(i as int) =~= hs);
        while i > 0
            invariant
                i <= headers@.len(),
                hs == pairs_view(headers@),
                hs == self.header_seq(),
                st == self.status_view(),
                k@ == key@,
                v@ == value@,
                st == match status {
                    Some(c) => Some(c.code_spec()),
                    None => None,
                },
                unique_names(put(hs, k@, v@)),
                index_of(hs, k@) == index_of(hs.take(i as int), k@),
            decreases i,
        {
            i = i - 1;
            assert(hs.take(i + 1).drop_last() =~= hs.take(i as int));
            if headers[i].0 == k {
                assert(hs.take(i + 1).last() == hs[i as int]);
                assert(index_of(hs, k@) == i);
                headers.set(i, (k, v));
                assert(pairs_view(headers@) =~= put(hs, key@, value@));
                let r = Builder { status, headers };
                return r;
            }
        }
        assert(hs.take(0) =~= HeaderSeq::empty());
        headers.push((k, v));
        assert(pairs_view(headers@) =~= put(hs, key@, value@));
        let r = Builder { status, headers };
        r
    }

    /// Writes the status line and one line per header, as UTF-8.
    pub fn build(self) -> (r: Vec<u8>)
        requires
            self.status_view() is Some,
        ensures
            r@ == encode_utf8(
                response_text(
                    self.status_view()->0,
                    reason_of(self.status_view()->0)->0,
                    self.header_seq(),
                ),
            ),
    {
        let status = self.status.unwrap();
        let mut out: Vec<char> = Vec::new();
        out.push('H');
        out.push('T');
        out.push('T');
        out.push('P');
        out.push('/');
        out.push('1');
        out.push('.');
        out.push('1');
        out.push(' ');
        push_decimal(&mut out, status.code());
        out.push(' ');
        push_str(&mut out, status.text().as_str());
        out.push('\r');
        out.push('\n');
        let ghost head = out@;
        let ghost hs = self.header_seq();
        let mut i: usize = 0;
        while i < self.headers.len()
            invariant
                i <= self.headers@.len(),
                hs == pairs_view(self.headers@),
                out@ == head + header_lines(hs.take(i as int)),
            decreases self.headers@.len() - i,
        {
            push_str(&mut out, self.headers[i].0.as_str());
            out.push(':');
            out.push(' ');
            push_str(&mut out, self.headers[i].1.as_str());
            out.push('\r');
            out.push('\n');
            i = i + 1;
            assert(hs.take(i as int).drop_last() =~= hs.take(i - 1));
            assert(out@ =~= head + header_lines(hs.take(i as int)));
        }
        assert(hs.take(i as int) =~= hs);
        assert(out@ =~= response_text(
            self.status_view()->0,
            reason_of(self.status_view()->0)->0,
            hs,
        ));
        let s = string_of(out.as_slice());
        vstd::slice::slice_to_vec(s.as_str().as_bytes())
    }
}

} // verus!
