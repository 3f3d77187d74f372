//! What the service reads of an HTTP request and what it answers.

use crate::text::chars_of;
use vstd::prelude::*;

verus! {

/// One header line of a request: its name and the bytes of its value.
#[derive(Debug, Clone, PartialEq, Eq)]
pub struct Header {
    pub name: String,
    pub value: Vec<u8>,
}

/// A header, with its name and value as sequences.
pub struct HeaderView {
    pub name: Seq<char>,
    pub value: Seq<u8>,
}

impl View for Header {
    type V = HeaderView;

    open spec fn view(&self) -> HeaderView {
        HeaderView { name: self.name@, value: self.value@ }
    }
}

/// The views of a run of headers.
pub open spec fn header_views(headers: Seq<Header>) -> Seq<HeaderView> {
    headers.map_values(|header: Header| header@)
}

/// A request: its headers in the order in which they came, and the query
/// string of its address, without the question mark, if it has one.
#[derive(Debug, Clone, PartialEq, Eq)]
pub struct Request {
    pub headers: Vec<Header>,
    pub query: Option<String>,
}

/// A request, with its parts as sequences.
pub struct RequestView {
    pub headers: Seq<HeaderView>,
    pub query: Option<Seq<char>>,
}

impl View for Request {
    type V = RequestView;

    open spec fn view(&self) -> RequestView {
        RequestView {
            headers: header_views(self.headers@),
            query: match self.query {
                Some(query) => Some(query@),
                None => None,
            },
        }
    }
}

/// The status of an answer.
#[derive(Debug, Clone, Copy, PartialEq, Eq, Structural)]
pub enum StatusCode {
    Success,
    BadRequest,
    Unauthorized,
    InternalServerError,
}

/// An answer. It has no body: only the status counts, and the challenge that
/// asks the caller for Basic credentials.
#[derive(Debug, Clone, Copy, PartialEq, Eq, Structural)]
pub struct Response {
    pub status: StatusCode,
    /// Whether the answer carries the header `WWW-Authenticate: Basic`.
    pub www_authenticate: bool,
}

/// The number of a status.
pub open spec fn status_number(status: StatusCode) -> u16 {
    match status {
        StatusCode::Success => 200,
        StatusCode::BadRequest => 400,
        StatusCode::Unauthorized => 401,
        StatusCode::InternalServerError => 500,
    }
}

/// The code of a character, with the capital letters of ASCII counted as
/// their small ones.
pub open spec fn folded(c: char) -> int {
    if 'A' <= c <= 'Z' {
        c as int + 32
    } else {
        c as int
    }
}

/// Whether two header names are the same but for the case of ASCII letters.
pub open spec fn same_name(a: Seq<char>, b: Seq<char>) -> bool {
    &&& a.len() == b.len()
    &&& forall|i: int| 0 <= i < a.len() ==> folded(a[i]) == folded(b[i])
}

/// The value of the first header that bears the name `name`.
pub open spec fn header_value(headers: Seq<HeaderView>, name: Seq<char>) -> Option<Seq<u8>>
    decreases headers.len(),
{
    if headers.len() == 0 {
        None
    } else if same_name(headers[0].name, name) {
        Some(headers[0].value)
    } else {
        header_value(headers.drop_first(), name)
    }
}

/// Whether a byte of a header value is a visible ASCII character, a space or
/// a tab.
pub open spec fn visible(byte: u8) -> bool {
    32 <= byte < 127 || byte == 9
}

/// The text of a header value: its bytes as characters where all of them are
/// visible, and no text otherwise.
pub open spec fn header_text_of(value: Seq<u8>) -> Option<Seq<char>> {
    if forall|i: int| 0 <= i < value.len() ==> visible(#[trigger] value[i]) {
        Some(Seq::new(value.len(), |i: int| value[i] as char))
    } else {
        None
    }
}

/// Calls `http::HeaderValue::from_bytes` and then `to_str` on the value. The
/// first accepts bytes from 32 on but 127, and the tab; the second only
/// those below 127 of them, which it hands out as text unchanged.
#[verifier::external_body]
pub(crate) fn header_text(value: &Vec<u8>) -> (text: Option<String>)
    ensures
        text matches Some(t) ==> header_text_of(value@) == Some(t@),
        text is None ==> header_text_of(value@) is None,
{
    match http::HeaderValue::from_bytes(value) {
        Ok(header) => match header.to_str() {
            Ok(text) => Some(text.to_owned()),
            Err(_) => None,
        },
        Err(_) => None,
    }
}

/// The code of a character, folded as `folded` says.
fn fold(c: char) -> (code: u32)
    ensures
        code == folded(c),
{
    if 'A' <= c && c <= 'Z' {
        c as u32 + 32
    } else {
        c as u32
    }
}

/// Whether two header names are the same but for the case of ASCII letters.
pub fn names_match(a: &Vec<char>, b: &Vec<char>) -> (same: bool)
    ensures
        same == same_name(a@, b@),
{
    if a.len() != b.len() {
        return false;
    }
    let mut at: usize = 0;
    while at < a.len()
        invariant
            at <= a.len(),
            a.len() == b.len(),
            forall|i: int| 0 <= i < at ==> folded(a@[i]) == folded(b@[i]),
        decreases a.len() - at,
    {
        if fold(a[at]) != fold(b[at]) {
            return false;
        }
        at += 1;
    }
    true
}

impl StatusCode {
    /// The number of the status.
    pub fn code(&self) -> (number: u16)
        ensures
            number == status_number(*self),
    {
        match self {
            StatusCode::Success => 200,
            StatusCode::BadRequest => 400,
            StatusCode::Unauthorized => 401,
            StatusCode::InternalServerError => 500,
        }
    }
}

impl Response {
    /// The answer with the given status and without a challenge.
    pub fn plain(status: StatusCode) -> (response: Response)
        ensures
            response == (Response { status, www_authenticate: false }),
    {
        Response { status, www_authenticate: false }
    }

    /// The answer to a caller that has not shown the right credentials.
    pub fn unauthorized() -> (response: Response)
        ensures
            response == (Response { status: StatusCode::Unauthorized, www_authenticate: true }),
    {
        Response { status: StatusCode::Unauthorized, www_authenticate: true }
    }
}

impl Request {
    /// The value of the first header that bears the name `name`, whatever
    /// the case of its ASCII letters.
    pub fn header(&self, name: &str) -> (value: Option<&Vec<u8>>)
        ensures
            match header_value(self@.headers, name@) {
                Some(found) => value matches Some(bytes) && bytes@ == found,
                None => value is None,
            },
    {
        let wanted = chars_of(name);
        let mut at: usize = 0;
        let ghost views = header_views(self.headers@);
        assert(views.skip(0) =~= views);
        while at < self.headers.len()
            invariant
                at <= self.headers.len(),
                wanted@ == name@,
                views == header_views(self.headers@),
                header_value(views, name@) == header_value(views.skip(at as int), name@),
            decreases self.headers.len() - at,
        {
            let given = chars_of(self.headers[at].name.as_str());
            proof {
                assert(views.skip(at as int)[0] == self.headers@[at as int]@);
                assert(views.skip(at as int).drop_first() =~= views.skip(at + 1));
            }
            if names_match(&given, &wanted) {
                return Some(&self.headers[at].value);
            }
            at += 1;
        }
        assert(views.skip(at as int).len() == 0);
        None
    }
}

} // verus!
