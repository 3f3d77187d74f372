//! Finding the address that a caller claims in its request.

use crate::config::{IpResolvMethod, IpResolvView};
use crate::request::{header_text, header_text_of, header_value, Request, RequestView};
use vstd::prelude::*;
use vstd::string::*;

verus! {

/// The pairs of name and value that the `url` crate reads from a query
/// string in the form-urlencoded syntax, in their order and decoded.
pub uninterp spec fn query_pairs(query: Seq<char>) -> Seq<(Seq<char>, Seq<char>)>;

/// The views of a run of pairs of texts.
pub open spec fn pair_views(pairs: Seq<(String, String)>) -> Seq<(Seq<char>, Seq<char>)> {
    pairs.map_values(|pair: (String, String)| (pair.0@, pair.1@))
}

/// The value of the first pair that bears the name `name`.
pub open spec fn value_of(pairs: Seq<(Seq<char>, Seq<char>)>, name: Seq<char>) -> Option<
    Seq<char>,
>
    decreases pairs.len(),
{
    if pairs.len() == 0 {
        None
    } else if pairs[0].0 == name {
        Some(pairs[0].1)
    } else {
        value_of(pairs.drop_first(), name)
    }
}

/// Why no address could be read from a request.
#[derive(Debug, Clone, Copy, PartialEq, Eq, Structural)]
pub enum ResolveError {
    /// The header that holds the address is no text.
    InvalidHeaderValue,
}

/// The address that the DynDNS2 parameters of a query string claim: the
/// value of `myip`, where `domain` is there too.
pub open spec fn dyndns2_address(query: Seq<char>) -> Option<Seq<char>> {
    let pairs = query_pairs(query);
    if value_of(pairs, "domain"@) is Some {
        value_of(pairs, "myip"@)
    } else {
        None
    }
}

/// What a method reads from a request: nothing where what it looks for is
/// missing, an error where a header is no text, and else the claimed
/// address, which may or may not be one.
pub open spec fn resolved(method: IpResolvView, request: RequestView) -> Option<
    Result<Seq<char>, ResolveError>,
> {
    match method {
        IpResolvView::DynDns2 => match request.query {
            Some(query) => match dyndns2_address(query) {
                Some(address) => Some(Ok(address)),
                None => None,
            },
            None => None,
        },
        IpResolvView::Header(name) => match header_value(request.headers, name) {
            Some(value) => match header_text_of(value) {
                Some(address) => Some(Ok(address)),
                None => Some(Err(ResolveError::InvalidHeaderValue)),
            },
            None => None,
        },
    }
}

/// Whether `found` is what `resolved` says.
pub open spec fn is_resolution(
    found: Option<Result<String, ResolveError>>,
    expected: Option<Result<Seq<char>, ResolveError>>,
) -> bool {
    match expected {
        Some(Ok(address)) => found matches Some(Ok(text)) && text@ == address,
        Some(Err(error)) => found == Some(Err::<String, ResolveError>(error)),
        None => found is None,
    }
}

/// Calls `url::form_urlencoded::parse` on the bytes of the query string and
/// collects the pairs that it yields, as owned texts.
#[verifier::external_body]
pub(crate) fn parse_query(query: &str) -> (pairs: Vec<(String, String)>)
    ensures
        pair_views(pairs@) == query_pairs(query@),
{
    url::form_urlencoded::parse(query.as_bytes()).into_owned().collect()
}

/// The value of the first pair that bears the name `name`.
pub fn find_in_pairs(pairs: &Vec<(String, String)>, name: &str) -> (value: Option<String>)
    ensures
        match value_of(pair_views(pairs@), name@) {
            Some(found) => value matches Some(text) && text@ == found,
            None => value is None,
        },
{
    let wanted = name.to_owned();
    let ghost views = pair_views(pairs@);
    let mut at: usize = 0;
    assert(views.skip(0) =~= views);
    while at < pairs.len()
        invariant
            at <= pairs.len(),
            wanted@ == name@,
            views == pair_views(pairs@),
            value_of(views, name@) == value_of(views.skip(at as int), name@),
        decreases pairs.len() - at,
    {
        proof {
            assert(views.skip(at as int)[0] == views[at as int]);
            assert(views.skip(at as int).drop_first() =~= views.skip(at + 1));
        }
        let key = pairs[at].0.clone();
        if key == wanted {
            return Some(pairs[at].1.clone());
        }
        at += 1;
    }
    assert(views.skip(at as int).len() == 0);
    None
}

/// The value of the first parameter of a query string that bears the name
/// `name`.
pub fn find_in_query(query: &str, name: &str) -> (value: Option<String>)
    ensures
        match value_of(query_pairs(query@), name@) {
            Some(found) => value matches Some(text) && text@ == found,
            None => value is None,
        },
{
    let pairs = parse_query(query);
    find_in_pairs(&pairs, name)
}

/// Reads the address that a caller claims, by the configured method. The
/// text is handed out as the caller gave it: whether it is an address is for
/// the one who asked to judge.
pub fn resolv_ip_from_request(method: &IpResolvMethod, req: &Request) -> (found: Option<
    Result<String, ResolveError>,
>)
    ensures
        is_resolution(found, resolved(method@, req@)),
{
    match method {
        IpResolvMethod::DynDns2 => {
            match &req.query {
                Some(query) => {
                    let pairs = parse_query(query.as_str());
                    match find_in_pairs(&pairs, "domain") {
                        Some(_) => match find_in_pairs(&pairs, "myip") {
                            Some(address) => Some(Ok(address)),
                            None => None,
                        },
                        None => None,
                    }
                },
                None => None,
            }
        },
        IpResolvMethod::Header(name) => match req.header(name.as_str()) {
            Some(value) => match header_text(value) {
                Some(address) => Some(Ok(address)),
                None => Some(Err(ResolveError::InvalidHeaderValue)),
            },
            None => None,
        },
    }
}

} // verus!
