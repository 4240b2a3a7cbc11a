//! The control surface's parsing and formatting: request lines, header
//! lines, response text, and the JSON bodies of the two commands that
//! carry one. The transport (sockets, reading, writing) stays with the
//! caller; everything that decides or transforms text is verified here.

use vstd::prelude::*;
use vstd::string::StrSliceExecFns;
use vstd::string::StringExecFns;

verus! {

/// The request methods the control surface distinguishes.
#[derive(PartialEq, Eq, Structural, Clone, Copy, Debug)]
pub enum HttpMethod {
    Get,
    Post,
    Patch,
    Put,
    Delete,
}

/// The method a request-line token names.
pub open spec fn method_of(tok: Seq<char>) -> Option<HttpMethod> {
    if tok == "GET"@ {
        Some(HttpMethod::Get)
    } else if tok == "POST"@ {
        Some(HttpMethod::Post)
    } else if tok == "PATCH"@ {
        Some(HttpMethod::Patch)
    } else if tok == "PUT"@ {
        Some(HttpMethod::Put)
    } else if tok == "DELETE"@ {
        Some(HttpMethod::Delete)
    } else {
        None
    }
}

impl HttpMethod {
    /// Parses a method token.
    pub fn from_str(s: &str) -> (r: Result<HttpMethod, ()>)
        ensures
            r == match method_of(s@) {
                Some(m) => Ok::<HttpMethod, ()>(m),
                None => Err::<HttpMethod, ()>(()),
            },
    {
        let owned = s.to_owned();
        if owned == String::from_str("GET") {
            Ok(HttpMethod::Get)
        } else if owned == String::from_str("POST") {
            Ok(HttpMethod::Post)
        } else if owned == String::from_str("PATCH") {
            Ok(HttpMethod::Patch)
        } else if owned == String::from_str("PUT") {
            Ok(HttpMethod::Put)
        } else if owned == String::from_str("DELETE") {
            Ok(HttpMethod::Delete)
        } else {
            Err(())
        }
    }
}

/// Position of the first `sep` in `s` at or after `from`.
pub open spec fn find_char_spec(s: Seq<char>, sep: char, from: int) -> Option<int>
    decreases s.len() - from when 0 <= from
{
    if from >= s.len() {
        None
    } else if s[from] == sep {
        Some(from)
    } else {
        find_char_spec(s, sep, from + 1)
    }
}

/// A found position lies in range, holds `sep`, and nothing before it does.
pub proof fn lemma_find_char_spec_some(s: Seq<char>, sep: char, from: int, i: int)
    requires
        0 <= from,
        find_char_spec(s, sep, from) == Some(i),
    ensures
        from <= i < s.len(),
        s[i] == sep,
        forall|k: int| from <= k < i ==> s[k] != sep,
    decreases s.len() - from,
{
    if from < s.len() && s[from] != sep {
        lemma_find_char_spec_some(s, sep, from + 1, i);
    }
}

/// Finds the first `sep` in `s` at or after `from`; `n` is `s`'s length in
/// characters.
fn find_char_from(s: &str, n: usize, sep: char, from: usize) -> (r: Option<usize>)
    requires
        n == s@.len(),
    ensures
        match r {
            Some(i) => find_char_spec(s@, sep, from as int) == Some(i as int),
            None => find_char_spec(s@, sep, from as int) is None,
        },
{
    let mut i: usize = from;
    while i < n
        invariant
            from <= i,
            n == s@.len(),
            find_char_spec(s@, sep, from as int) == find_char_spec(s@, sep, i as int),
        decreases n - i,
    {
        if s.get_char(i) == sep {
            return Some(i);
        }
        i = i + 1;
    }
    None
}

/// The `(method token, path, version)` split of a request line: the first
/// two tokens, then the third, each delimited by a space or the line's end.
pub open spec fn parse_request_line_spec(line: Seq<char>) -> Option<
    (Seq<char>, Seq<char>, Seq<char>),
> {
    match find_char_spec(line, ' ', 0) {
        None => None,
        Some(i) => match find_char_spec(line, ' ', i + 1) {
            None => None,
            Some(j) => {
                let end = match find_char_spec(line, ' ', j + 1) {
                    Some(k) => k,
                    None => line.len() as int,
                };
                Some((line.take(i), line.subrange(i + 1, j), line.subrange(j + 1, end)))
            },
        },
    }
}

/// The `(name, value)` split of a header line: the name before the first
/// `": "`, the value up to the next `": "` or the line's end.
pub open spec fn parse_header_line_spec(line: Seq<char>) -> Option<(Seq<char>, Seq<char>)> {
    match find_sep_spec(line, 0) {
        None => None,
        Some(i) => {
            let end = match find_sep_spec(line, i + 2) {
                Some(k) => k,
                None => line.len() as int,
            };
            Some((line.take(i), line.subrange(i + 2, end)))
        },
    }
}

/// Position of the first `": "` in `s` at or after `from`.
pub open spec fn find_sep_spec(s: Seq<char>, from: int) -> Option<int>
    decreases s.len() - from when 0 <= from
{
    if from + 2 > s.len() {
        None
    } else if s[from] == ':' && s[from + 1] == ' ' {
        Some(from)
    } else {
        find_sep_spec(s, from + 1)
    }
}

/// A found separator lies in range and is the first one.
pub proof fn lemma_find_sep_spec_some(s: Seq<char>, from: int, i: int)
    requires
        0 <= from,
        find_sep_spec(s, from) == Some(i),
    ensures
        from <= i,
        i + 2 <= s.len(),
        s[i] == ':' && s[i + 1] == ' ',
    decreases s.len() - from,
{
    if from + 2 <= s.len() && !(s[from] == ':' && s[from + 1] == ' ') {
        lemma_find_sep_spec_some(s, from + 1, i);
    }
}

/// Finds the first `": "` in `s` at or after `from`.
fn find_sep_from(s: &str, n: usize, from: usize) -> (r: Option<usize>)
    requires
        n == s@.len(),
    ensures
        match r {
            Some(i) => find_sep_spec(s@, from as int) == Some(i as int),
            None => find_sep_spec(s@, from as int) is None,
        },
{
    if n < 2 {
        return None;
    }
    let mut i: usize = from;
    while i <= n - 2
        invariant
            from <= i,
            2 <= n == s@.len(),
            find_sep_spec(s@, from as int) == find_sep_spec(s@, i as int),
        decreases n - i,
    {
        if s.get_char(i) == ':' && s.get_char(i + 1) == ' ' {
            return Some(i);
        }
        i = i + 1;
    }
    None
}

/// The lowercase mapping of a character sequence; the result depends on
/// the characters alone.
pub uninterp spec fn lower_of(s: Seq<char>) -> Seq<char>;

/// Relies on str::to_lowercase: the lowercase mapping of the characters,
/// a function of the characters alone; an empty string stays empty.
#[verifier::external_body]
fn to_lowercase(s: &str) -> (r: String)
    ensures
        r@ == lower_of(s@),
        s@.len() == 0 ==> r@.len() == 0,
{
    s.to_lowercase()
}

/// A parsed control request: the header names are lowercased, in line
/// order; the body is what the caller read after the blank line.
pub struct HttpRequest {
    pub method: HttpMethod,
    pub path: String,
    pub version: String,
    pub headers: Vec<(String, String)>,
    pub body: String,
}

/// Every line of a request parses: the first as a request line with a
/// known method, the rest as header lines. An empty request parses to the
/// defaults.
pub open spec fn lines_parse_ok(lines: Seq<String>) -> bool {
    lines.len() == 0 || {
        &&& parse_request_line_spec(lines[0]@) is Some
        &&& method_of(parse_request_line_spec(lines[0]@).unwrap().0) is Some
        &&& forall|i: int| 1 <= i < lines.len() ==> parse_header_line_spec(#[trigger] lines[i]@) is Some
    }
}

impl HttpRequest {
    /// Parses the lines of a request head, already split at line ends by
    /// the caller: the request line, then one header per line. The body
    /// stays empty; the caller reads it afterwards, guided by
    /// `content_length`.
    pub fn from_lines(lines: &Vec<String>) -> (r: Result<HttpRequest, ()>)
        ensures
            r is Ok <==> lines_parse_ok(lines@),
            r matches Ok(req) ==> {
                &&& req.body@.len() == 0
                &&& req.headers@.len() == if lines@.len() == 0 {
                    0int
                } else {
                    lines@.len() - 1
                }
                &&& if lines@.len() == 0 {
                    &&& req.method == HttpMethod::Get
                    &&& req.path@.len() == 0
                    &&& req.version@.len() == 0
                } else {
                    let parts = parse_request_line_spec(lines@[0]@).unwrap();
                    &&& Some(req.method) == method_of(parts.0)
                    &&& req.path@ == parts.1
                    &&& req.version@ == parts.2
                }
                &&& forall|i: int|
                    1 <= i < lines@.len() ==> {
                        let kv = parse_header_line_spec(#[trigger] lines@[i]@).unwrap();
                        &&& req.headers@[i - 1].0@ == lower_of(kv.0)
                        &&& req.headers@[i - 1].1@ == kv.1
                    }
            },
    {
        let mut method = HttpMethod::Get;
        let mut path = String::new();
        let mut version = String::new();
        let mut headers: Vec<(String, String)> = Vec::new();

        let ln: usize = lines.len();
        if ln > 0 {
            let line0: &str = lines[0].as_str();
            let n0: usize = line0.unicode_len();
            let i = match find_char_from(line0, n0, ' ', 0) {
                Some(i) => i,
                None => {
                    return Err(());
                },
            };
            proof {
                lemma_find_char_spec_some(line0@, ' ', 0, i as int);
            }
            let j = match find_char_from(line0, n0, ' ', i + 1) {
                Some(j) => j,
                None => {
                    return Err(());
                },
            };
            proof {
                lemma_find_char_spec_some(line0@, ' ', i + 1, j as int);
            }
            let end = match find_char_from(line0, n0, ' ', j + 1) {
                Some(k) => {
                    proof {
                        lemma_find_char_spec_some(line0@, ' ', j + 1, k as int);
                    }
                    k
                },
                None => n0,
            };
            let method_tok = line0.substring_char(0, i);
            method = match HttpMethod::from_str(method_tok) {
                Ok(m) => m,
                Err(_) => {
                    return Err(());
                },
            };
            path = line0.substring_char(i + 1, j).to_owned();
            version = line0.substring_char(j + 1, end).to_owned();

            let mut li: usize = 1;
            while li < ln
                invariant
                    1 <= li <= ln,
                    ln == lines@.len(),
                    headers@.len() == li - 1,
                    forall|ii: int|
                        1 <= ii < li ==> parse_header_line_spec(#[trigger] lines@[ii]@) is Some,
                    forall|ii: int|
                        1 <= ii < li ==> {
                            let kv = parse_header_line_spec(#[trigger] lines@[ii]@).unwrap();
                            &&& headers@[ii - 1].0@ == lower_of(kv.0)
                            &&& headers@[ii - 1].1@ == kv.1
                        },
                decreases ln - li,
            {
                let line: &str = lines[li].as_str();
                let nl: usize = line.unicode_len();
                let si = match find_sep_from(line, nl, 0) {
                    Some(si) => si,
                    None => {
                        return Err(());
                    },
                };
                proof {
                    lemma_find_sep_spec_some(line@, 0, si as int);
                }
                let vend = match find_sep_from(line, nl, si + 2) {
                    Some(k) => {
                        proof {
                            lemma_find_sep_spec_some(line@, si + 2, k as int);
                        }
                        k
                    },
                    None => nl,
                };
                let key = to_lowercase(line.substring_char(0, si));
                let value = line.substring_char(si + 2, vend).to_owned();
                headers.push((key, value));
                li = li + 1;
            }
        }
        Ok(HttpRequest { method, path, version, headers, body: String::new() })
    }
}

/// The value of the last header with the given (lowercased) name.
pub open spec fn header_value(hs: Seq<(String, String)>, name: Seq<char>) -> Option<Seq<char>>
    decreases hs.len(),
{
    if hs.len() == 0 {
        None
    } else if hs.last().0@ == name {
        Some(hs.last().1@)
    } else {
        header_value(hs.drop_last(), name)
    }
}

/// `c` is a decimal digit.
pub open spec fn is_digit(c: char) -> bool {
    48 <= c as int <= 57
}

/// Every character of `s` is a decimal digit.
pub open spec fn all_digits(s: Seq<char>) -> bool {
    forall|i: int| 0 <= i < s.len() ==> is_digit(#[trigger] s[i])
}

/// The number the digit string denotes.
pub open spec fn dec_val(s: Seq<char>) -> int
    decreases s.len(),
{
    if s.len() == 0 {
        0
    } else {
        dec_val(s.drop_last()) * 10 + (s.last() as int - 48)
    }
}

/// A digit string denotes a non-negative number.
proof fn lemma_dec_val_nonneg(s: Seq<char>)
    requires
        all_digits(s),
    ensures
        dec_val(s) >= 0,
    decreases s.len(),
{
    if s.len() > 0 {
        assert(all_digits(s.drop_last()));
        lemma_dec_val_nonneg(s.drop_last());
    }
}

/// A longer digit prefix denotes at least as large a number.
proof fn lemma_dec_val_grows(s: Seq<char>, i: int, j: int)
    requires
        all_digits(s),
        0 <= i <= j <= s.len(),
    ensures
        dec_val(s.take(i)) <= dec_val(s.take(j)),
    decreases j - i,
{
    if i < j {
        lemma_dec_val_grows(s, i, j - 1);
        assert(s.take(j).drop_last() =~= s.take(j - 1));
        assert(all_digits(s.take(j - 1)));
        lemma_dec_val_nonneg(s.take(j - 1));
        assert(is_digit(s[j - 1]));
    }
}

/// Parses a decimal number: the digits' value when the whole string is
/// digits and the value fits, nothing otherwise.
pub fn parse_usize(s: &str) -> (r: Option<usize>)
    ensures
        match r {
            Some(n) => s@.len() > 0 && all_digits(s@) && n == dec_val(s@),
            None => s@.len() == 0 || !all_digits(s@) || dec_val(s@) > usize::MAX,
        },
{
    let n: usize = s.unicode_len();
    if n == 0 {
        return None;
    }
    let mut acc: u128 = 0;
    let mut i: usize = 0;
    while i < n
        invariant
            0 <= i <= n,
            n == s@.len(),
            all_digits(s@.take(i as int)),
            acc == dec_val(s@.take(i as int)),
            acc <= usize::MAX,
        decreases n - i,
    {
        let c = s.get_char(i);
        let v: u32 = c as u32;
        if v < 48 || v > 57 {
            assert(!is_digit(s@[i as int]));
            return None;
        }
        acc = acc * 10 + ((v - 48) as u128);
        proof {
            assert(s@.take(i + 1).drop_last() =~= s@.take(i as int));
            assert(s@.take(i + 1).last() == s@[i as int]);
        }
        if acc > usize::MAX as u128 {
            proof {
                if all_digits(s@) {
                    lemma_dec_val_grows(s@, i + 1, n as int);
                    assert(s@.take(n as int) =~= s@);
                }
            }
            return None;
        }
        i = i + 1;
    }
    proof {
        assert(s@.take(n as int) =~= s@);
    }
    Some(acc as usize)
}

impl HttpRequest {
    /// The body length the request announces, when it announces one that
    /// parses as a number.
    pub fn content_length(&self) -> (r: Option<usize>)
        ensures
            match header_value(self.headers@, "content-length"@) {
                None => r is None,
                Some(v) => match r {
                    Some(n) => v.len() > 0 && all_digits(v) && n == dec_val(v),
                    None => v.len() == 0 || !all_digits(v) || dec_val(v) > usize::MAX,
                },
            },
    {
        let name = String::from_str("content-length");
        let hn: usize = self.headers.len();
        proof {
            assert(self.headers@.take(hn as int) =~= self.headers@);
        }
        let mut i: usize = hn;
        while i > 0
            invariant
                0 <= i <= hn,
                hn == self.headers@.len(),
                header_value(self.headers@, name@) == header_value(
                    self.headers@.take(i as int),
                    name@,
                ),
                name@ == "content-length"@,
            decreases i,
        {
            proof {
                assert(self.headers@.take(i as int).drop_last() =~= self.headers@.take(i - 1));
                assert(self.headers@.take(i as int).last() == self.headers@[i - 1]);
            }
            if self.headers[i - 1].0 == name {
                return parse_usize(self.headers[i - 1].1.as_str());
            }
            i = i - 1;
        }
        None
    }
}

/// The outcomes the control surface answers with.
#[derive(PartialEq, Eq, Structural, Clone, Copy, Debug)]
pub enum HttpResponseCode {
    Okay,
    NotFound,
    InternalServerError,
    BadRequest,
}

/// The status text of a response code.
pub open spec fn status_text(c: HttpResponseCode) -> Seq<char> {
    match c {
        HttpResponseCode::Okay => "200 OK"@,
        HttpResponseCode::NotFound => "404 Not Found"@,
        HttpResponseCode::InternalServerError => "500 Internal Server Error"@,
        HttpResponseCode::BadRequest => "400 Bad Request"@,
    }
}

impl HttpResponseCode {
    /// The status line's text for this code.
    pub fn status_line(&self) -> (r: String)
        ensures
            r@ == status_text(*self),
    {
        match self {
            HttpResponseCode::Okay => String::from_str("200 OK"),
            HttpResponseCode::NotFound => String::from_str("404 Not Found"),
            HttpResponseCode::InternalServerError => String::from_str(
                "500 Internal Server Error",
            ),
            HttpResponseCode::BadRequest => String::from_str("400 Bad Request"),
        }
    }
}

/// The digit character of a value below ten.
pub open spec fn digit_char(d: int) -> char {
    if d == 0 {
        '0'
    } else if d == 1 {
        '1'
    } else if d == 2 {
        '2'
    } else if d == 3 {
        '3'
    } else if d == 4 {
        '4'
    } else if d == 5 {
        '5'
    } else if d == 6 {
        '6'
    } else if d == 7 {
        '7'
    } else if d == 8 {
        '8'
    } else {
        '9'
    }
}

/// The shortest decimal digit string of a non-negative number.
pub open spec fn dec_str(n: int) -> Seq<char>
    decreases n,
{
    if n < 10 {
        seq![digit_char(n)]
    } else {
        dec_str(n / 10).push(digit_char(n % 10))
    }
}

/// The one-character string of a digit value.
fn digit_string(d: usize) -> (r: String)
    requires
        d < 10,
    ensures
        r@ == seq![digit_char(d as int)],
{
    let r = if d == 0 {
        String::from_str("0")
    } else if d == 1 {
        String::from_str("1")
    } else if d == 2 {
        String::from_str("2")
    } else if d == 3 {
        String::from_str("3")
    } else if d == 4 {
        String::from_str("4")
    } else if d == 5 {
        String::from_str("5")
    } else if d == 6 {
        String::from_str("6")
    } else if d == 7 {
        String::from_str("7")
    } else if d == 8 {
        String::from_str("8")
    } else {
        String::from_str("9")
    };
    proof {
        reveal_strlit("0");
        reveal_strlit("1");
        reveal_strlit("2");
        reveal_strlit("3");
        reveal_strlit("4");
        reveal_strlit("5");
        reveal_strlit("6");
        reveal_strlit("7");
        reveal_strlit("8");
        reveal_strlit("9");
        assert(r@ =~= seq![digit_char(d as int)]);
    }
    r
}

/// The decimal text of a number.
pub fn usize_to_string(n: usize) -> (r: String)
    ensures
        r@ == dec_str(n as int),
    decreases n,
{
    if n < 10 {
        digit_string(n)
    } else {
        let mut s = usize_to_string(n / 10);
        let d = digit_string(n % 10);
        s.append(d.as_str());
        proof {
            assert(s@ =~= dec_str((n / 10) as int).push(digit_char((n % 10) as int)));
        }
        s
    }
}

/// The header block's text: one `name: value` line per pair, in order.
pub open spec fn cat_header_views(hs: Seq<(Seq<char>, Seq<char>)>) -> Seq<char>
    decreases hs.len(),
{
    if hs.len() == 0 {
        Seq::empty()
    } else {
        cat_header_views(hs.drop_last()) + hs.last().0 + ": "@ + hs.last().1 + "\r\n"@
    }
}

/// The views of a header list's pairs.
pub open spec fn header_views(hs: Seq<(String, String)>) -> Seq<(Seq<char>, Seq<char>)> {
    Seq::new(hs.len(), |i: int| (hs[i].0@, hs[i].1@))
}

/// The full text of a response: status line, headers (a JSON body adds its
/// content type and byte length), a blank line, and the body.
pub open spec fn response_text(
    code: HttpResponseCode,
    hs: Seq<(Seq<char>, Seq<char>)>,
    body: Option<Seq<char>>,
) -> Seq<char> {
    let all = match body {
        None => hs,
        Some(b) => hs + seq![
            ("Content-Type"@, "application/json"@),
            ("Content-Length"@, dec_str((vstd::utf8::encode_utf8(b).len() as usize) as int)),
        ],
    };
    "HTTP/1.1 "@ + status_text(code) + "\r\n"@ + cat_header_views(all) + "\r\n"@ + match body {
        None => Seq::<char>::empty(),
        Some(b) => b,
    }
}

/// Writes a response out as text, exactly as `response_text` lays it out.
pub fn format_response(
    code: &HttpResponseCode,
    headers: &Vec<(String, String)>,
    json_body: Option<&String>,
) -> (r: String)
    ensures
        r@ == response_text(
            *code,
            header_views(headers@),
            match json_body {
                None => None,
                Some(b) => Some(b@),
            },
        ),
{
    let mut all: Vec<(String, String)> = Vec::new();
    let hn: usize = headers.len();
    let mut i: usize = 0;
    while i < hn
        invariant
            0 <= i <= hn,
            hn == headers@.len(),
            all@.len() == i,
            forall|k: int|
                0 <= k < i ==> (#[trigger] all@[k]).0@ == headers@[k].0@ && all@[k].1@
                    == headers@[k].1@,
        decreases hn - i,
    {
        all.push((headers[i].0.clone(), headers[i].1.clone()));
        i = i + 1;
    }
    let body_text: Option<&String> = match json_body {
        Some(b) => {
            let blen: usize = b.as_str().len();
            all.push((String::from_str("Content-Type"), String::from_str("application/json")));
            all.push((String::from_str("Content-Length"), usize_to_string(blen)));
            Some(b)
        },
        None => None,
    };

    let mut r = String::from_str("HTTP/1.1 ");
    let status = code.status_line();
    r.append(status.as_str());
    r.append("\r\n");

    let an: usize = all.len();
    let ghost all_views = header_views(all@);
    let mut j: usize = 0;
    while j < an
        invariant
            0 <= j <= an,
            an == all@.len(),
            all_views == header_views(all@),
            r@ == "HTTP/1.1 "@ + status_text(*code) + "\r\n"@ + cat_header_views(
                all_views.take(j as int),
            ),
        decreases an - j,
    {
        r.append(all[j].0.as_str());
        r.append(": ");
        r.append(all[j].1.as_str());
        r.append("\r\n");
        proof {
            assert(all_views.take(j + 1).drop_last() =~= all_views.take(j as int));
            assert(all_views.take(j + 1).last() == all_views[j as int]);
        }
        j = j + 1;
    }
    proof {
        assert(all_views.take(an as int) =~= all_views);
    }
    r.append("\r\n");
    match body_text {
        Some(b) => {
            r.append(b.as_str());
        },
        None => {},
    }
    proof {
        let hvs = header_views(headers@);
        match json_body {
            None => {
                assert(all_views =~= hvs);
            },
            Some(b) => {
                let ct = all@[hn as int];
                let cl = all@[hn + 1];
                assert(ct.0@ == "Content-Type"@ && ct.1@ == "application/json"@);
                assert(cl.0@ == "Content-Length"@ && cl.1@ == dec_str(
                    (vstd::utf8::encode_utf8(b@).len() as usize) as int,
                ));
                assert(all_views =~= hvs + seq![
                    ("Content-Type"@, "application/json"@),
                    ("Content-Length"@, dec_str((vstd::utf8::encode_utf8(b@).len() as usize) as int)),
                ]);
            },
        }
        assert(r@ =~= response_text(
            *code,
            hvs,
            match json_body {
                None => None,
                Some(b) => Some(b@),
            },
        ));
    }
    r
}

/// The text of one server-sent event: its id, name and payload, each on
/// its own labelled line, closed by a blank line.
pub open spec fn sse_text(id: int, event: Seq<char>, data: Seq<char>) -> Seq<char> {
    "id: "@ + dec_str(id) + "\nevent: "@ + event + "\ndata: "@ + data + "\n\n"@
}

/// Writes one server-sent event out as text.
pub fn format_sse(id: usize, event: &str, data: &str) -> (r: String)
    ensures
        r@ == sse_text(id as int, event@, data@),
{
    let mut r = String::from_str("id: ");
    let id_text = usize_to_string(id);
    r.append(id_text.as_str());
    r.append("\nevent: ");
    r.append(event);
    r.append("\ndata: ");
    r.append(data);
    r.append("\n\n");
    r
}

/// The commands the control surface dispatches.
#[derive(PartialEq, Eq, Structural, Clone, Copy, Debug)]
pub enum Command {
    Status,
    Clear,
    Next,
    Pause,
    Play,
    Toggle,
    Add,
    SkipTo,
    NotFound,
}

/// The command a method and path name: reads ask for status, posts drive
/// the player, anything else is not found.
pub open spec fn route_spec(m: HttpMethod, path: Seq<char>) -> Command {
    if m == HttpMethod::Get && path == "/status"@ {
        Command::Status
    } else if m == HttpMethod::Post && path == "/clear"@ {
        Command::Clear
    } else if m == HttpMethod::Post && path == "/next"@ {
        Command::Next
    } else if m == HttpMethod::Post && path == "/pause"@ {
        Command::Pause
    } else if m == HttpMethod::Post && path == "/play"@ {
        Command::Play
    } else if m == HttpMethod::Post && path == "/toggle"@ {
        Command::Toggle
    } else if m == HttpMethod::Post && path == "/add"@ {
        Command::Add
    } else if m == HttpMethod::Post && path == "/skip-to"@ {
        Command::SkipTo
    } else {
        Command::NotFound
    }
}

/// Dispatches a request to its command.
pub fn route(method: &HttpMethod, path: &str) -> (c: Command)
    ensures
        c == route_spec(*method, path@),
{
    let owned = path.to_owned();
    let get = match method {
        HttpMethod::Get => true,
        _ => false,
    };
    let post = match method {
        HttpMethod::Post => true,
        _ => false,
    };
    if get && owned == String::from_str("/status") {
        Command::Status
    } else if post && owned == String::from_str("/clear") {
        Command::Clear
    } else if post && owned == String::from_str("/next") {
        Command::Next
    } else if post && owned == String::from_str("/pause") {
        Command::Pause
    } else if post && owned == String::from_str("/play") {
        Command::Play
    } else if post && owned == String::from_str("/toggle") {
        Command::Toggle
    } else if post && owned == String::from_str("/add") {
        Command::Add
    } else if post && owned == String::from_str("/skip-to") {
        Command::SkipTo
    } else {
        Command::NotFound
    }
}

/// What parsing the text as a JSON array of strings yields; the result
/// depends on the text alone.
pub uninterp spec fn json_string_array_of(s: Seq<char>) -> Option<Seq<Seq<char>>>;

/// Relies on serde_json::from_str::<Vec<String>>: whether the text parses
/// as a JSON array of strings, and to which strings, depends on the text
/// alone.
#[verifier::external_body]
fn json_parse_paths(s: &str) -> (r: Option<Vec<String>>)
    ensures
        match r {
            Some(v) => json_string_array_of(s@) == Some(v@.map_values(|x: String| x@)),
            None => json_string_array_of(s@) is None,
        },
{
    serde_json::from_str::<Vec<String>>(s).ok()
}

/// What parsing the text as a JSON index yields; the result depends on the
/// text alone.
pub uninterp spec fn json_index_of(s: Seq<char>) -> Option<usize>;

/// Relies on serde_json::from_str::<usize>: whether the text parses as an
/// unsigned index, and to which one, depends on the text alone.
#[verifier::external_body]
fn json_parse_index(s: &str) -> (r: Option<usize>)
    ensures
        r == json_index_of(s@),
{
    serde_json::from_str::<usize>(s).ok()
}

/// The paths an add command's body carries, or the client error a
/// malformed body earns: bad input mutates nothing.
pub fn decide_add(body: &str) -> (r: Result<Vec<String>, HttpResponseCode>)
    ensures
        match r {
            Ok(paths) => json_string_array_of(body@) == Some(
                paths@.map_values(|x: String| x@),
            ),
            Err(code) => json_string_array_of(body@) is None && code
                == HttpResponseCode::BadRequest,
        },
{
    match json_parse_paths(body) {
        Some(paths) => Ok(paths),
        None => Err(HttpResponseCode::BadRequest),
    }
}

/// The index a skip command's body carries, or the client error a
/// malformed body earns: bad input mutates nothing.
pub fn decide_skip_to(body: &str) -> (r: Result<usize, HttpResponseCode>)
    ensures
        match r {
            Ok(index) => json_index_of(body@) == Some(index),
            Err(code) => json_index_of(body@) is None && code == HttpResponseCode::BadRequest,
        },
{
    match json_parse_index(body) {
        Some(index) => Ok(index),
        None => Err(HttpResponseCode::BadRequest),
    }
}

} // verus!
