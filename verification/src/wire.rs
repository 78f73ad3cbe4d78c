//! Wire format of the harness: the JSON bodies it sends and receives and the
//! headers it attaches to every request.
//!
//! The target API exchanges two JSON shapes: a login/creation body
//! `{"user_id":"...","password":"..."}` and a token payload `{"token":"..."}`.
//! Both are specified here over sequences of characters, with string escaping
//! for `"` and `\`, and the executable encoder and parser are proved against
//! those specifications.

use vstd::prelude::*;
use vstd::string::StrSliceExecFns;
use vstd::string::StringExecFns;

verus! {

/// Relies on std's `String::push`: appends exactly one character at the end.
pub assume_specification[ String::push ](s: &mut String, c: char)
    ensures
        final(s)@ == old(s)@.push(c),
;

/// How one character is written inside a JSON string: `"` and `\` are
/// escaped with a backslash, every other character stands for itself.
pub open spec fn escaped_char(c: char) -> Seq<char> {
    if c == '"' {
        seq!['\\', '"']
    } else if c == '\\' {
        seq!['\\', '\\']
    } else {
        seq![c]
    }
}

/// The escaped form of a whole string.
pub open spec fn json_escape(t: Seq<char>) -> Seq<char>
    decreases t.len(),
{
    if t.len() == 0 {
        Seq::empty()
    } else {
        escaped_char(t[0]) + json_escape(t.skip(1))
    }
}

/// Decodes the contents of a JSON string: `None` on a stray `"`, a stray
/// trailing `\`, or an escape other than `\"` and `\\`.
pub open spec fn json_unescape(m: Seq<char>) -> Option<Seq<char>>
    decreases m.len(),
{
    if m.len() == 0 {
        Some(Seq::empty())
    } else if m[0] == '\\' {
        if m.len() >= 2 && (m[1] == '"' || m[1] == '\\') {
            match json_unescape(m.skip(2)) {
                Some(r) => Some(seq![m[1]] + r),
                None => None,
            }
        } else {
            None
        }
    } else if m[0] == '"' {
        None
    } else {
        match json_unescape(m.skip(1)) {
            Some(r) => Some(seq![m[0]] + r),
            None => None,
        }
    }
}

/// Escaping distributes over concatenation.
pub proof fn lemma_escape_append(a: Seq<char>, b: Seq<char>)
    ensures
        json_escape(a + b) == json_escape(a) + json_escape(b),
    decreases a.len(),
{
    if a.len() == 0 {
        assert(a + b =~= b);
        assert(json_escape(a) + json_escape(b) =~= json_escape(b));
    } else {
        assert((a + b).len() > 0 && (a + b)[0] == a[0]);
        assert((a + b).skip(1) =~= a.skip(1) + b);
        lemma_escape_append(a.skip(1), b);
        assert(json_escape(a + b) =~= escaped_char(a[0]) + (json_escape(a.skip(1)) + json_escape(
            b,
        )));
        assert(escaped_char(a[0]) + (json_escape(a.skip(1)) + json_escape(b)) =~= (escaped_char(
            a[0],
        ) + json_escape(a.skip(1))) + json_escape(b));
    }
}

/// Decoding inverts escaping.
pub proof fn lemma_unescape_escape(t: Seq<char>)
    ensures
        json_unescape(json_escape(t)) == Some(t),
    decreases t.len(),
{
    if t.len() == 0 {
    } else {
        let m = json_escape(t);
        lemma_unescape_escape(t.skip(1));
        if t[0] == '"' || t[0] == '\\' {
            assert(m.len() >= 2 && m[0] == '\\' && m[1] == t[0]);
            assert(m.skip(2) =~= json_escape(t.skip(1)));
            assert(json_unescape(m) == Some(seq![t[0]] + t.skip(1)));
        } else {
            assert(m[0] == t[0]);
            assert(m.skip(1) =~= json_escape(t.skip(1)));
            assert(json_unescape(m) == Some(seq![t[0]] + t.skip(1)));
        }
        assert(seq![t[0]] + t.skip(1) =~= t);
    }
}

/// A string that decodes came from escaping exactly one string: decoding is
/// injective into escaped forms.
pub proof fn lemma_escape_unescape(m: Seq<char>)
    ensures
        json_unescape(m) matches Some(t) ==> json_escape(t) == m,
    decreases m.len(),
{
    if m.len() == 0 {
    } else if m[0] == '\\' {
        if m.len() >= 2 && (m[1] == '"' || m[1] == '\\') {
            lemma_escape_unescape(m.skip(2));
            if let Some(r) = json_unescape(m.skip(2)) {
                let t = seq![m[1]] + r;
                assert(t[0] == m[1]);
                assert(t.skip(1) =~= r);
                assert(json_escape(t) =~= escaped_char(m[1]) + json_escape(r));
                assert(escaped_char(m[1]) =~= seq!['\\', m[1]]);
                assert(escaped_char(m[1]) + json_escape(r) =~= m);
            }
        }
    } else if m[0] == '"' {
    } else {
        lemma_escape_unescape(m.skip(1));
        if let Some(r) = json_unescape(m.skip(1)) {
            let t = seq![m[0]] + r;
            assert(t[0] == m[0]);
            assert(t.skip(1) =~= r);
            assert(json_escape(t) =~= escaped_char(m[0]) + json_escape(r));
            assert(escaped_char(m[0]) + json_escape(r) =~= m);
        }
    }
}

/// Escaping a single character yields its escaped form.
pub proof fn lemma_escape_singleton(c: char)
    ensures
        json_escape(seq![c]) == escaped_char(c),
{
    assert(seq![c].skip(1) =~= Seq::<char>::empty());
    assert(json_escape(Seq::<char>::empty()) == Seq::<char>::empty());
    assert(escaped_char(c) + Seq::<char>::empty() =~= escaped_char(c));
}

/// Appends `s` to `dst` in escaped form.
pub fn append_json_escaped(dst: &mut String, s: &str)
    ensures
        final(dst)@ == old(dst)@ + json_escape(s@),
{
    let n = s.unicode_len();
    let mut i: usize = 0;
    while i < n
        invariant
            n == s@.len(),
            i <= n,
            dst@ == old(dst)@ + json_escape(s@.take(i as int)),
        decreases n - i,
    {
        let c = s.get_char(i);
        if c == '"' {
            dst.push('\\');
            dst.push('"');
        } else if c == '\\' {
            dst.push('\\');
            dst.push('\\');
        } else {
            dst.push(c);
        }
        proof {
            lemma_escape_append(s@.take(i as int), seq![s@[i as int]]);
            assert(s@.take(i as int) + seq![s@[i as int]] =~= s@.take(i as int + 1));
            lemma_escape_singleton(s@[i as int]);
            assert(dst@ =~= old(dst)@ + json_escape(s@.take(i as int + 1)));
        }
        i = i + 1;
    }
    proof {
        assert(s@.take(n as int) =~= s@);
    }
}

/// The login/creation body for a pair of credentials.
pub open spec fn login_body_of(user_id: Seq<char>, password: Seq<char>) -> Seq<char> {
    "{\"user_id\":\""@ + json_escape(user_id) + "\",\"password\":\""@ + json_escape(password)
        + "\"}"@
}

/// Encodes credentials as the JSON body of a login or user-creation request.
pub fn encode_login_body(user_id: &str, password: &str) -> (r: String)
    ensures
        r@ == login_body_of(user_id@, password@),
{
    let mut s = String::new();
    s.append("{\"user_id\":\"");
    append_json_escaped(&mut s, user_id);
    s.append("\",\"password\":\"");
    append_json_escaped(&mut s, password);
    s.append("\"}");
    proof {
        assert(s@ =~= login_body_of(user_id@, password@));
    }
    s
}

/// The exact body of a token response carrying token `t`.
pub open spec fn token_payload_of(t: Seq<char>) -> Seq<char> {
    "{\"token\":\""@ + json_escape(t) + "\"}"@
}

/// What parsing a token response yields: the decoded token if the body has
/// exactly the shape `{"token":"..."}`, and nothing otherwise.
pub open spec fn parse_token_spec(s: Seq<char>) -> Option<Seq<char>> {
    if s.len() >= 12 && s.subrange(0, 10) == "{\"token\":\""@ && s.subrange(
        s.len() - 2,
        s.len() as int,
    ) == "\"}"@ {
        json_unescape(s.subrange(10, s.len() - 2))
    } else {
        None
    }
}

/// Parsing recovers exactly what the payload encodes.
pub proof fn lemma_parse_payload_roundtrip(t: Seq<char>)
    ensures
        parse_token_spec(token_payload_of(t)) == Some(t),
{
    reveal_strlit("{\"token\":\"");
    reveal_strlit("\"}");
    let s = token_payload_of(t);
    let e = json_escape(t);
    assert(s.len() == 12 + e.len());
    assert(s.subrange(0, 10) =~= "{\"token\":\""@);
    assert(s.subrange(s.len() - 2, s.len() as int) =~= "\"}"@);
    assert(s.subrange(10, s.len() - 2) =~= e);
    lemma_unescape_escape(t);
}

/// A body that parses is the payload of the token it parses to.
pub proof fn lemma_parse_payload_exact(s: Seq<char>)
    ensures
        parse_token_spec(s) matches Some(t) ==> s == token_payload_of(t),
{
    reveal_strlit("{\"token\":\"");
    reveal_strlit("\"}");
    if let Some(t) = parse_token_spec(s) {
        let m = s.subrange(10, s.len() - 2);
        lemma_escape_unescape(m);
        assert(json_escape(t) == m);
        assert(s =~= s.subrange(0, 10) + m + s.subrange(s.len() - 2, s.len() as int));
        assert(token_payload_of(t) =~= "{\"token\":\""@ + m + "\"}"@);
    }
}

/// Parses a token response body, returning the token when the body has
/// exactly the shape `{"token":"..."}`.
pub fn parse_token_payload(body: &str) -> (r: Option<String>)
    ensures
        match r {
            Some(t) => parse_token_spec(body@) == Some(t@),
            None => parse_token_spec(body@) is None,
        },
{
    proof {
        reveal_strlit("{\"token\":\"");
        reveal_strlit("\"}");
    }
    let n = body.unicode_len();
    if n < 12 {
        return None;
    }
    let frame_ok = body.get_char(0) == '{' && body.get_char(1) == '"' && body.get_char(2) == 't'
        && body.get_char(3) == 'o' && body.get_char(4) == 'k' && body.get_char(5) == 'e'
        && body.get_char(6) == 'n' && body.get_char(7) == '"' && body.get_char(8) == ':'
        && body.get_char(9) == '"' && body.get_char(n - 2) == '"' && body.get_char(n - 1) == '}';
    if !frame_ok {
        proof {
            assert(!(body@.subrange(0, 10) == "{\"token\":\""@ && body@.subrange(
                body@.len() - 2,
                body@.len() as int,
            ) == "\"}"@)) by {
                if body@.subrange(0, 10) == "{\"token\":\""@ && body@.subrange(
                    body@.len() - 2,
                    body@.len() as int,
                ) == "\"}"@ {
                    assert("{\"token\":\""@[0] == '{' && "{\"token\":\""@[1] == '"'
                        && "{\"token\":\""@[2] == 't' && "{\"token\":\""@[3] == 'o'
                        && "{\"token\":\""@[4] == 'k' && "{\"token\":\""@[5] == 'e'
                        && "{\"token\":\""@[6] == 'n' && "{\"token\":\""@[7] == '"'
                        && "{\"token\":\""@[8] == ':' && "{\"token\":\""@[9] == '"');
                    assert("\"}"@[0] == '"' && "\"}"@[1] == '}');
                    assert(body@.subrange(0, 10)[0] == body@[0]);
                    assert(body@.subrange(0, 10)[1] == body@[1]);
                    assert(body@.subrange(0, 10)[2] == body@[2]);
                    assert(body@.subrange(0, 10)[3] == body@[3]);
                    assert(body@.subrange(0, 10)[4] == body@[4]);
                    assert(body@.subrange(0, 10)[5] == body@[5]);
                    assert(body@.subrange(0, 10)[6] == body@[6]);
                    assert(body@.subrange(0, 10)[7] == body@[7]);
                    assert(body@.subrange(0, 10)[8] == body@[8]);
                    assert(body@.subrange(0, 10)[9] == body@[9]);
                    assert(body@.subrange(body@.len() - 2, body@.len() as int)[0] == body@[body@.len()
                        - 2]);
                    assert(body@.subrange(body@.len() - 2, body@.len() as int)[1] == body@[body@.len()
                        - 1]);
                    assert(false);
                }
            }
        }
        return None;
    }
    proof {
        assert(body@.subrange(0, 10) =~= "{\"token\":\""@);
        assert(body@.subrange(body@.len() - 2, body@.len() as int) =~= "\"}"@);
    }
    let ghost mid = body@.subrange(10, n as int - 2);
    let end = n - 2;
    let mut out = String::new();
    let mut i: usize = 10;
    proof {
        assert(mid.skip(0) =~= mid);
        if let Some(rest) = json_unescape(mid) {
            assert(out@ + rest =~= rest);
        }
    }
    while i < end
        invariant
            10 <= i <= end,
            end == n - 2,
            n == body@.len(),
            n >= 12,
            mid == body@.subrange(10, n as int - 2),
            parse_token_spec(body@) == json_unescape(mid),
            json_unescape(mid) == match json_unescape(mid.skip(i as int - 10)) {
                Some(rest) => Some(out@ + rest),
                None => None::<Seq<char>>,
            },
        decreases end - i,
    {
        proof {
            assert(mid.skip(i as int - 10)[0] == mid[i as int - 10] == body@[i as int]);
        }
        let c = body.get_char(i);
        if c == '\\' {
            if i + 1 < end {
                proof {
                    assert(mid.skip(i as int - 10)[1] == mid[i as int - 9] == body@[i as int + 1]);
                }
                let c2 = body.get_char(i + 1);
                if c2 == '"' || c2 == '\\' {
                    let ghost prev = out@;
                    out.push(c2);
                    proof {
                        assert(mid.skip(i as int - 10).skip(2) =~= mid.skip(i as int + 2 - 10));
                        if let Some(rest) = json_unescape(mid.skip(i as int + 2 - 10)) {
                            assert(json_unescape(mid.skip(i as int - 10)) == Some(
                                seq![c2] + rest,
                            ));
                            assert(out@ + rest =~= (prev + (seq![c2] + rest)));
                        }
                    }
                    i = i + 2;
                } else {
                    return None;
                }
            } else {
                proof {
                    assert(mid.skip(i as int - 10).len() == 1);
                }
                return None;
            }
        } else if c == '"' {
            return None;
        } else {
            let ghost prev = out@;
            out.push(c);
            proof {
                assert(mid.skip(i as int - 10).skip(1) =~= mid.skip(i as int + 1 - 10));
                if let Some(rest) = json_unescape(mid.skip(i as int + 1 - 10)) {
                    assert(json_unescape(mid.skip(i as int - 10)) == Some(seq![c] + rest));
                    assert(out@ + rest =~= (prev + (seq![c] + rest)));
                }
            }
            i = i + 1;
        }
    }
    proof {
        assert(mid.skip(i as int - 10) =~= Seq::<char>::empty());
        assert(out@ + Seq::<char>::empty() =~= out@);
    }
    Some(out)
}

/// The character for one decimal digit.
pub open spec fn decimal_digit(d: int) -> char {
    if d == 0 {
        '0'
    } else if d == 1 {
        '1'
    } else if d == 2 {
        '2'
    } else if d == 3 {
        '3'
    } else if d == 4 {
        '4'
    } else if d == 5 {
        '5'
    } else if d == 6 {
        '6'
    } else if d == 7 {
        '7'
    } else if d == 8 {
        '8'
    } else {
        '9'
    }
}

/// The decimal rendering of a number, most significant digit first.
pub open spec fn decimal_of(n: int) -> Seq<char>
    decreases n,
{
    if n < 10 {
        seq![decimal_digit(n)]
    } else {
        decimal_of(n / 10).push(decimal_digit(n % 10))
    }
}

fn digit_char_of(d: u64) -> (c: char)
    requires
        d < 10,
    ensures
        c == decimal_digit(d as int),
{
    if d == 0 {
        '0'
    } else if d == 1 {
        '1'
    } else if d == 2 {
        '2'
    } else if d == 3 {
        '3'
    } else if d == 4 {
        '4'
    } else if d == 5 {
        '5'
    } else if d == 6 {
        '6'
    } else if d == 7 {
        '7'
    } else if d == 8 {
        '8'
    } else {
        '9'
    }
}

/// Appends the decimal rendering of `n` to `dst`.
pub fn append_decimal(dst: &mut String, n: u64)
    ensures
        final(dst)@ == old(dst)@ + decimal_of(n as int),
    decreases n,
{
    if n < 10 {
        dst.push(digit_char_of(n));
        proof {
            assert(old(dst)@.push(decimal_digit(n as int)) =~= old(dst)@ + decimal_of(n as int));
        }
    } else {
        append_decimal(dst, n / 10);
        let d = n % 10;
        dst.push(digit_char_of(d));
        proof {
            assert((old(dst)@ + decimal_of(n as int / 10)).push(decimal_digit(n as int % 10))
                =~= old(dst)@ + decimal_of(n as int));
        }
    }
}

/// One HTTP header the harness attaches to a request.
pub struct Header {
    pub name: String,
    pub value: String,
}

/// The two headers sent on every request.
pub open spec fn base_headers_spec(h: Seq<Header>) -> bool {
    &&& h.len() == 2
    &&& h[0].name@ == "Content-Type"@
    &&& h[0].value@ == "application/json"@
    &&& h[1].name@ == "Connection"@
    &&& h[1].value@ == "keep-alive"@
}

/// The headers of an authorized request: the base headers plus a bearer
/// `Authorization` header carrying `token`.
pub open spec fn authorized_headers_spec(h: Seq<Header>, token: Seq<char>) -> bool {
    &&& h.len() == 3
    &&& base_headers_spec(h.take(2))
    &&& h[2].name@ == "Authorization"@
    &&& h[2].value@ == "Bearer "@ + token
}

/// Builds the headers attached to every request.
pub fn get_headers() -> (h: Vec<Header>)
    ensures
        base_headers_spec(h@),
{
    let mut v: Vec<Header> = Vec::new();
    v.push(Header { name: "Content-Type".to_owned(), value: "application/json".to_owned() });
    v.push(Header { name: "Connection".to_owned(), value: "keep-alive".to_owned() });
    v
}

/// Builds the headers of an authorized request for `token`.
pub fn authorized_headers(token: &str) -> (h: Vec<Header>)
    ensures
        authorized_headers_spec(h@, token@),
{
    let mut v = get_headers();
    let mut auth = String::new();
    auth.append("Bearer ");
    auth.append(token);
    v.push(Header { name: "Authorization".to_owned(), value: auth });
    proof {
        assert(v@.take(2) =~= v@.subrange(0, 2));
        assert(base_headers_spec(v@.take(2)));
    }
    v
}

} // verus!
