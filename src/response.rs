//! The outgoing response: status and headers that may change until the
//! response is sent, and the single message that sending produces.
use vstd::prelude::*;
use vstd::utf8::encode_utf8;

use crate::status::{arg_code, arg_reason, reason_text, HttpStatus, StatusArg};
use crate::strmap::{upsert, Pairs, StrMap};
use crate::text::push_char;

verus! {

/// The decimal digit for `d`.
pub open spec fn digit(d: nat) -> char {
    ((d + 48) as u8) as char
}

/// The decimal form of `n`, without leading zeros.
pub open spec fn decimal(n: nat) -> Seq<char>
    decreases n,
{
    if n < 10 {
        seq![digit(n)]
    } else {
        decimal(n / 10).push(digit(n % 10))
    }
}

/// Appends the decimal form of `n` to `s`.
fn push_decimal(s: &mut String, n: usize)
    ensures
        final(s)@ == old(s)@ + decimal(n as nat),
    decreases n,
{
    if n >= 10 {
        push_decimal(s, n / 10);
    }
    let d = (n % 10) as u8;
    push_char(s, (d + 48) as char);
    assert(old(s)@ + decimal(n as nat) =~= s@);
}

/// One header line: `Key: Value`.
pub open spec fn header_line(p: (Seq<char>, Seq<char>)) -> Seq<char> {
    p.0 + ": "@ + p.1
}

/// The header lines of `ps`, in order, joined by CRLF.
pub open spec fn header_block(ps: Pairs) -> Seq<char>
    decreases ps.len(),
{
    if ps.len() == 0 {
        Seq::empty()
    } else if ps.len() == 1 {
        header_line(ps[0])
    } else {
        header_block(ps.drop_last()) + "\r\n"@ + header_line(ps.last())
    }
}

/// Everything that is written before the body: the status line, the
/// headers, a `Content-Length` equal to the body's length in UTF-8 bytes,
/// and a blank line.
pub open spec fn wire_head(code: u16, reason: Seq<char>, ps: Pairs, body: Seq<char>) -> Seq<char> {
    "HTTP/1.1 "@ + decimal(code as nat) + " "@ + reason + "\r\n"@ + header_block(ps)
        + "\r\nContent-Length: "@ + decimal(encode_utf8(body).len()) + "\r\n\r\n"@
}

/// The body sent when a file cannot be read.
pub open spec fn missing_file_body(path: Seq<char>) -> Seq<char> {
    "<h2>Internal Server Error</h2>\n<p>No file found on "@ + path + "</p>"@
}

/// A response as values.
pub struct ResponseView {
    pub headers: Pairs,
    pub code: u16,
    pub reason: Seq<char>,
    pub sent: bool,
    /// Head and body of the message that was sent.
    pub output: Option<(Seq<char>, Seq<char>)>,
}

impl ResponseView {
    /// A response that is not sent yet may still change.
    pub open spec fn wf(self) -> bool {
        self.sent <==> self.output is Some
    }

    /// The status set to `code` and `reason`, unless the response was sent.
    pub open spec fn with_status(self, code: u16, reason: Seq<char>) -> ResponseView {
        if self.sent {
            self
        } else {
            ResponseView { code, reason, ..self }
        }
    }

    /// Header `k` set to `v`, unless the response was sent.
    pub open spec fn with_header(self, k: Seq<char>, v: Seq<char>) -> ResponseView {
        if self.sent {
            self
        } else {
            ResponseView { headers: upsert(self.headers, k, v), ..self }
        }
    }

    /// The response sent with content type `ctype` and `body`, unless it was
    /// sent already.
    pub open spec fn finish(self, ctype: Seq<char>, body: Seq<char>) -> ResponseView {
        if self.sent {
            self
        } else {
            let hs = upsert(self.headers, "Content-Type"@, ctype);
            ResponseView {
                headers: hs,
                sent: true,
                output: Some((wire_head(self.code, self.reason, hs, body), body)),
                ..self
            }
        }
    }

    /// The response serving a file from `path`, given what reading it gave.
    pub open spec fn serve_file(self, path: Seq<char>, contents: Option<Seq<char>>) -> ResponseView {
        match contents {
            Some(c) => self.finish(html_type(), c),
            None => self.with_status(500, reason_text(500)).finish(
                html_type(),
                missing_file_body(path),
            ),
        }
    }
}

/// Every change keeps a response sent exactly when it holds a message.
pub proof fn lemma_changes_keep_wf(
    r: ResponseView,
    code: u16,
    reason: Seq<char>,
    k: Seq<char>,
    v: Seq<char>,
    path: Seq<char>,
    contents: Option<Seq<char>>,
)
    requires
        r.wf(),
    ensures
        r.with_status(code, reason).wf(),
        r.with_header(k, v).wf(),
        r.finish(k, v).wf(),
        r.serve_file(path, contents).wf(),
{
}

/// A response is sent once: after a first send, a second send of any kind
/// changes nothing, so the connection gets exactly the message of the
/// first.
pub proof fn lemma_send_once(
    r: ResponseView,
    ctype1: Seq<char>,
    body1: Seq<char>,
    ctype2: Seq<char>,
    body2: Seq<char>,
)
    ensures
        r.finish(ctype1, body1).finish(ctype2, body2) == r.finish(ctype1, body1),
        !r.sent ==> r.finish(ctype1, body1).sent && r.finish(ctype1, body1).output == Some(
            (
                wire_head(r.code, r.reason, upsert(r.headers, "Content-Type"@, ctype1), body1),
                body1,
            ),
        ),
{
}

/// Serving a file that cannot be read sends the response, and when it was
/// not sent before, with status 500 whatever status it had.
pub proof fn lemma_missing_file(r: ResponseView, path: Seq<char>)
    ensures
        r.serve_file(path, None).sent,
        !r.sent ==> r.serve_file(path, None).code == 500 && r.serve_file(path, None).reason
            == reason_text(500),
{
}

/// The content type of an HTML body.
pub open spec fn html_type() -> Seq<char> {
    "text/html; charset=utf-8"@
}

/// The outgoing response of one request.
pub struct Response {
    headers: StrMap,
    status_code: u16,
    status_reason: String,
    sent: bool,
    output: Option<(String, String)>,
}

impl View for Response {
    type V = ResponseView;

    closed spec fn view(&self) -> ResponseView {
        ResponseView {
            headers: self.headers.pairs(),
            code: self.status_code,
            reason: self.status_reason@,
            sent: self.sent,
            output: match self.output {
                Some(o) => Some((o.0@, o.1@)),
                None => None,
            },
        }
    }
}

impl Response {
    /// A fresh response: status `200 OK`, one header naming the server, not
    /// sent.
    pub fn new() -> (r: Response)
        ensures
            r@ == (ResponseView {
                headers: seq![("HTTP-Server-Powered-By"@, "rxpress"@)],
                code: 200,
                reason: "OK"@,
                sent: false,
                output: None,
            }),
            r@.wf(),
    {
        let mut headers = StrMap::new();
        headers.insert("HTTP-Server-Powered-By".to_owned(), "rxpress".to_owned());
        assert(headers.pairs() =~= seq![("HTTP-Server-Powered-By"@, "rxpress"@)]);
        Response {
            headers,
            status_code: 200,
            status_reason: "OK".to_owned(),
            sent: false,
            output: None,
        }
    }

    /// Sets the status: by name, by code (reason looked up; empty for an
    /// unknown code), or as a code with its own reason. Ignored once the
    /// response was sent.
    pub fn status<'b, T: Into<StatusArg<'b>>>(&mut self, arg: T) -> (r: &mut Self)
        requires
            <T as vstd::std_specs::convert::IntoSpec<StatusArg<'b>>>::obeys_into_spec(),
        ensures
            *final(self) == *final(r),
            r@ == old(self)@.with_status(
                arg_code(<T as vstd::std_specs::convert::IntoSpec<StatusArg<'b>>>::into_spec(arg)),
                arg_reason(<T as vstd::std_specs::convert::IntoSpec<StatusArg<'b>>>::into_spec(arg)),
            ),
    {
        let a: StatusArg<'b> = arg.into();
        if !self.sent {
            let (code, reason) = match a {
                StatusArg::Enum(e) => {
                    let c = e.code();
                    (c, HttpStatus::reason(c).to_owned())
                },
                StatusArg::Code(c) => (c, HttpStatus::reason(c).to_owned()),
                StatusArg::CodeReason(c, r) => (c, r.to_owned()),
            };
            self.status_code = code;
            self.status_reason = reason;
        }
        self
    }

    /// Sets header `key` to `value`; a later value for the same key wins.
    /// Ignored once the response was sent.
    pub fn set_header(&mut self, key: &str, value: &str) -> (r: &mut Self)
        ensures
            *final(self) == *final(r),
            r@ == old(self)@.with_header(key@, value@),
    {
        if !self.sent {
            self.headers.insert(key.to_owned(), value.to_owned());
        }
        self
    }

    /// The head of the message for `body`: status line, headers,
    /// `Content-Length` and a blank line.
    fn head(&self, body: &str) -> (r: String)
        ensures
            r@ == wire_head(self@.code, self@.reason, self@.headers, body@),
    {
        let mut h = "HTTP/1.1 ".to_owned();
        push_decimal(&mut h, self.status_code as usize);
        h.append(" ");
        h.append(self.status_reason.as_str());
        h.append("\r\n");
        let ghost pre = h@;
        let ghost ps = self.headers.pairs();
        let n = self.headers.len();
        let mut i: usize = 0;
        assert(ps.take(0) =~= Pairs::empty());
        while i < n
            invariant
                ps == self.headers.pairs(),
                n == ps.len(),
                i <= n,
                h@ == pre + header_block(ps.take(i as int)),
            decreases n - i,
        {
            let (k, v) = self.headers.entry(i);
            let ghost before = h@;
            if i > 0 {
                h.append("\r\n");
            }
            h.append(k.as_str());
            h.append(": ");
            h.append(v.as_str());
            proof {
                let t = ps.take(i + 1);
                assert(t.drop_last() =~= ps.take(i as int));
                assert(t.last() == ps[i as int]);
                if i == 0 {
                    assert(header_block(ps.take(0)) =~= Seq::<char>::empty());
                    assert(h@ =~= pre + header_block(t));
                } else {
                    assert(h@ =~= pre + header_block(t));
                }
            }
            i = i + 1;
        }
        assert(ps.take(n as int) =~= ps);
        h.append("\r\nContent-Length: ");
        let len = body.as_bytes().len();
        assert(len as nat == encode_utf8(body@).len());
        push_decimal(&mut h, len);
        h.append("\r\n\r\n");
        assert(h@ =~= wire_head(self@.code, self@.reason, self@.headers, body@));
        h
    }

    /// Sends `body` with content type `ctype`, unless the response was sent.
    fn finish(&mut self, ctype: &str, body: &str)
        ensures
            final(self)@ == old(self)@.finish(ctype@, body@),
    {
        if self.sent {
            return;
        }
        self.headers.insert("Content-Type".to_owned(), ctype.to_owned());
        let head = self.head(body);
        self.sent = true;
        self.output = Some((head, body.to_owned()));
    }

    /// Sends `msg` as plain text. Only the first send of a response takes
    /// effect; later ones are ignored.
    pub fn send(&mut self, msg: &str)
        ensures
            final(self)@ == old(self)@.finish("text/plain"@, msg@),
    {
        self.finish("text/plain", msg);
    }

    /// Sends `msg` as JSON. Only the first send of a response takes effect.
    pub fn json(&mut self, msg: &str)
        ensures
            final(self)@ == old(self)@.finish("application/json"@, msg@),
    {
        self.finish("application/json", msg);
    }

    /// Sends `body` as HTML. Only the first send of a response takes effect.
    pub fn html(&mut self, body: &str)
        ensures
            final(self)@ == old(self)@.finish(html_type(), body@),
    {
        self.finish("text/html; charset=utf-8", body);
    }

    /// Sends the file at `path` as HTML, given what reading it gave: its
    /// text, or nothing when it could not be read, in which case the status
    /// becomes 500 and the body says which file was missing. Only the first
    /// send of a response takes effect.
    pub fn html_file(&mut self, path: &str, contents: Option<&str>)
        ensures
            final(self)@ == old(self)@.serve_file(
                path@,
                match contents {
                    Some(c) => Some(c@),
                    None => None,
                },
            ),
    {
        if self.sent {
            return;
        }
        match contents {
            Some(c) => self.finish("text/html; charset=utf-8", c),
            None => {
                let mut body = "<h2>Internal Server Error</h2>\n<p>No file found on ".to_owned();
                body.append(path);
                body.append("</p>");
                self.status(HttpStatus::InternalServerError);
                self.finish("text/html; charset=utf-8", body.as_str());
            },
        }
    }

    /// The status code.
    pub fn status_code(&self) -> (r: u16)
        ensures
            r == self@.code,
    {
        self.status_code
    }

    /// The reason phrase.
    pub fn status_reason(&self) -> (r: &str)
        ensures
            r@ == self@.reason,
    {
        self.status_reason.as_str()
    }

    /// Whether the response was sent.
    pub fn is_sent(&self) -> (r: bool)
        ensures
            r == self@.sent,
    {
        self.sent
    }

    /// The headers.
    pub fn headers(&self) -> (r: &StrMap)
        ensures
            r.pairs() == self@.headers,
    {
        &self.headers
    }

    /// Head and body of the message that sending produced, to be written to
    /// the connection in that order.
    pub fn output(&self) -> (r: Option<(&str, &str)>)
        ensures
            match r {
                Some((h, b)) => self@.output == Some((h@, b@)),
                None => self@.output is None,
            },
    {
        match &self.output {
            Some((h, b)) => Some((h.as_str(), b.as_str())),
            None => None,
        }
    }
}

} // verus!
