use hetzner_dyndns::config::IpResolvMethod;
use hetzner_dyndns::request::{Header, Request};
use hetzner_dyndns::resolve::{
    find_in_pairs, find_in_query, resolv_ip_from_request, ResolveError,
};

fn with_query(query: Option<&str>) -> Request {
    Request { headers: Vec::new(), query: query.map(|text| text.to_string()) }
}

fn with_header(name: &str, value: &[u8]) -> Request {
    Request {
        headers: vec![
            Header { name: "Host".to_string(), value: b"dyn.example.com".to_vec() },
            Header { name: name.to_string(), value: value.to_vec() },
        ],
        query: Some("domain=example.com&myip=192.0.2.99".to_string()),
    }
}

#[test]
fn dyndns2_takes_the_address_from_the_query() {
    let request = with_query(Some("domain=example.com&myip=203.0.113.5"));
    assert_eq!(
        resolv_ip_from_request(&IpResolvMethod::DynDns2, &request),
        Some(Ok("203.0.113.5".to_string()))
    );
}

#[test]
fn dyndns2_without_myip_finds_nothing() {
    let request = with_query(Some("domain=example.com"));
    assert_eq!(resolv_ip_from_request(&IpResolvMethod::DynDns2, &request), None);
    let request = with_query(Some("domain=example.com&ip=203.0.113.5"));
    assert_eq!(resolv_ip_from_request(&IpResolvMethod::DynDns2, &request), None);
}

#[test]
fn dyndns2_without_domain_finds_nothing() {
    let request = with_query(Some("myip=203.0.113.5"));
    assert_eq!(resolv_ip_from_request(&IpResolvMethod::DynDns2, &request), None);
}

#[test]
fn dyndns2_without_query_finds_nothing() {
    assert_eq!(resolv_ip_from_request(&IpResolvMethod::DynDns2, &with_query(None)), None);
    assert_eq!(resolv_ip_from_request(&IpResolvMethod::DynDns2, &with_query(Some(""))), None);
}

#[test]
fn dyndns2_hands_out_the_value_as_it_was_sent() {
    let request = with_query(Some("myip=not+an%20address&domain="));
    assert_eq!(
        resolv_ip_from_request(&IpResolvMethod::DynDns2, &request),
        Some(Ok("not an address".to_string()))
    );
}

#[test]
fn dyndns2_ignores_the_headers() {
    let request = with_header("myip", b"198.51.100.7");
    assert_eq!(
        resolv_ip_from_request(&IpResolvMethod::DynDns2, &request),
        Some(Ok("192.0.2.99".to_string()))
    );
}

#[test]
fn header_method_takes_the_value_of_the_header() {
    let method = IpResolvMethod::Header("X-Forwarded-For".to_string());
    let request = with_header("X-Forwarded-For", b"198.51.100.7");
    assert_eq!(
        resolv_ip_from_request(&method, &request),
        Some(Ok("198.51.100.7".to_string()))
    );
}

#[test]
fn header_method_finds_the_name_in_any_case() {
    let method = IpResolvMethod::Header("X-Forwarded-For".to_string());
    let request = with_header("x-forwarded-for", b"198.51.100.7");
    assert_eq!(
        resolv_ip_from_request(&method, &request),
        Some(Ok("198.51.100.7".to_string()))
    );
}

#[test]
fn header_method_without_the_header_finds_nothing() {
    let method = IpResolvMethod::Header("X-Forwarded-For".to_string());
    assert_eq!(resolv_ip_from_request(&method, &with_header("X-Real-IP", b"198.51.100.7")), None);
    assert_eq!(
        resolv_ip_from_request(&method, &with_query(Some("domain=a&myip=1.2.3.4"))),
        None
    );
}

#[test]
fn header_that_is_no_text_is_an_error() {
    let method = IpResolvMethod::Header("X-Forwarded-For".to_string());
    let request = with_header("X-Forwarded-For", &[0x31, 0x2e, 0xff, 0x2e]);
    assert_eq!(
        resolv_ip_from_request(&method, &request),
        Some(Err(ResolveError::InvalidHeaderValue))
    );
    let request = with_header("X-Forwarded-For", b"1.2.3.4\r\n");
    assert_eq!(
        resolv_ip_from_request(&method, &request),
        Some(Err(ResolveError::InvalidHeaderValue))
    );
}

#[test]
fn header_value_may_hold_spaces_and_tabs() {
    let method = IpResolvMethod::Header("X-Forwarded-For".to_string());
    let request = with_header("X-Forwarded-For", b"1.2.3.4,\t5.6.7.8 ~");
    assert_eq!(
        resolv_ip_from_request(&method, &request),
        Some(Ok("1.2.3.4,\t5.6.7.8 ~".to_string()))
    );
}

#[test]
fn query_values_are_decoded() {
    assert_eq!(find_in_query("a=1&b=2", "b"), Some("2".to_string()));
    assert_eq!(find_in_query("a=1&b=2", "c"), None);
    assert_eq!(find_in_query("a=1&a=2", "a"), Some("1".to_string()));
    assert_eq!(find_in_query("myip=1%2E2%2e3.4", "myip"), Some("1.2.3.4".to_string()));
    assert_eq!(find_in_query("my%69p=x+y", "myip"), Some("x y".to_string()));
    assert_eq!(find_in_query("flag", "flag"), Some(String::new()));
    assert_eq!(find_in_query("&&a=b=c&", "a"), Some("b=c".to_string()));
    assert_eq!(find_in_query("", "a"), None);
    assert_eq!(find_in_query("A=1", "a"), None);
}

#[test]
fn first_pair_of_the_name_is_found() {
    let pairs = vec![
        ("a".to_string(), "1".to_string()),
        ("b".to_string(), "2".to_string()),
        ("a".to_string(), "3".to_string()),
    ];
    assert_eq!(find_in_pairs(&pairs, "a"), Some("1".to_string()));
    assert_eq!(find_in_pairs(&pairs, "b"), Some("2".to_string()));
    assert_eq!(find_in_pairs(&pairs, "c"), None);
    assert_eq!(find_in_pairs(&Vec::new(), "a"), None);
}
