use hetzner_dyndns::addr::Ipv4Addr;
use hetzner_dyndns::clock::Timestamp;
use hetzner_dyndns::config::{Config, RawConfig};
use hetzner_dyndns::dns::{DnsService, HetznerClient, Mail, UpdateError};
use hetzner_dyndns::openpgp::{Sha1SignedMessageBuilder, SignError, SignedMessageBuilder};
use hetzner_dyndns::request::{Header, Request, Response, StatusCode};
use hetzner_dyndns::resolve::ResolveError;
use hetzner_dyndns::server::{conclude, handle_request, plan, HandleError, Handled, Step};
use std::sync::Mutex;

fn config(method: &str, header: Option<&str>) -> Config {
    let raw = RawConfig {
        from_addr: "me@example.com".to_string(),
        to_addr: "robot@robot.first-ns.de".to_string(),
        smtp_host: "smtp.example.com".to_string(),
        smtp_username: "mailer".to_string(),
        smtp_password: "mailpass".to_string(),
        pgp_key: "0xDEADBEEF".to_string(),
        domain: "example.com".to_string(),
        hetzner_user: "K1234567".to_string(),
        server_addr: "127.0.0.1:8080".to_string(),
        http_auth_user: "router".to_string(),
        http_auth_password: "s3cret".to_string(),
        ip_resolv_method: method.to_string(),
        ip_header: header.map(|name| name.to_string()),
        template: "zone.tpl".to_string(),
    };
    Config::from_raw(raw, "home IN A {%IP%} ; {%SERIAL%}\n").unwrap()
}

fn credentials(user: &str, password: &str) -> Header {
    Header {
        name: "Authorization".to_string(),
        value: format!("Basic {}", base64::encode(format!("{}:{}", user, password))).into_bytes(),
    }
}

fn request(query: Option<&str>, headers: Vec<Header>) -> Request {
    Request { headers, query: query.map(|text| text.to_string()) }
}

struct Recorder {
    seen: Mutex<Vec<Ipv4Addr>>,
    outcome: Result<(), UpdateError>,
}

impl Recorder {
    fn new(outcome: Result<(), UpdateError>) -> Self {
        Recorder { seen: Mutex::new(Vec::new()), outcome }
    }

    fn seen(&self) -> Vec<Ipv4Addr> {
        self.seen.lock().unwrap().clone()
    }
}

impl DnsService for Recorder {
    fn update(&self, addr: &Ipv4Addr) -> Result<(), UpdateError> {
        self.seen.lock().unwrap().push(*addr);
        self.outcome.clone()
    }
}

#[test]
fn status_codes_have_their_numbers() {
    assert_eq!(StatusCode::Success.code(), 200);
    assert_eq!(StatusCode::BadRequest.code(), 400);
    assert_eq!(StatusCode::Unauthorized.code(), 401);
    assert_eq!(StatusCode::InternalServerError.code(), 500);
}

#[test]
fn request_without_credentials_is_challenged() {
    let service = Recorder::new(Ok(()));
    let handled = handle_request(
        &request(Some("domain=example.com&myip=203.0.113.5"), Vec::new()),
        &config("DynDns2", None),
        &service,
    );
    assert_eq!(
        handled,
        Handled {
            response: Response { status: StatusCode::Unauthorized, www_authenticate: true },
            error: None
        }
    );
    assert_eq!(handled.response.status.code(), 401);
    assert!(service.seen().is_empty());
}

#[test]
fn request_with_wrong_credentials_is_challenged() {
    let service = Recorder::new(Ok(()));
    for (user, password) in [("router", "s3cre7"), ("r0uter", "s3cret"), ("s3cret", "router")] {
        let handled = handle_request(
            &request(
                Some("domain=example.com&myip=203.0.113.5"),
                vec![credentials(user, password)],
            ),
            &config("DynDns2", None),
            &service,
        );
        assert_eq!(handled.response, Response::unauthorized());
        assert_eq!(handled.error, None);
    }
    assert!(service.seen().is_empty());
}

#[test]
fn authenticated_request_updates_the_zone() {
    let service = Recorder::new(Ok(()));
    let handled = handle_request(
        &request(
            Some("domain=example.com&myip=203.0.113.5"),
            vec![credentials("router", "s3cret")],
        ),
        &config("DynDns2", None),
        &service,
    );
    assert_eq!(
        handled,
        Handled { response: Response::plain(StatusCode::Success), error: None }
    );
    assert_eq!(handled.response.status.code(), 200);
    assert!(!handled.response.www_authenticate);
    assert_eq!(service.seen(), vec![Ipv4Addr::new(203, 0, 113, 5)]);
}

#[test]
fn request_without_address_is_a_bad_request() {
    let service = Recorder::new(Ok(()));
    let handled = handle_request(
        &request(Some("domain=example.com"), vec![credentials("router", "s3cret")]),
        &config("DynDns2", None),
        &service,
    );
    assert_eq!(
        handled,
        Handled { response: Response::plain(StatusCode::BadRequest), error: None }
    );
    assert_eq!(handled.response.status.code(), 400);
    assert!(service.seen().is_empty());
}

#[test]
fn header_address_updates_the_zone() {
    let service = Recorder::new(Ok(()));
    let handled = handle_request(
        &request(
            None,
            vec![
                credentials("router", "s3cret"),
                Header { name: "X-Forwarded-For".to_string(), value: b"198.51.100.7".to_vec() },
            ],
        ),
        &config("Header", Some("X-Forwarded-For")),
        &service,
    );
    assert_eq!(handled.response, Response::plain(StatusCode::Success));
    assert_eq!(service.seen(), vec![Ipv4Addr::new(198, 51, 100, 7)]);
}

#[test]
fn missing_header_is_a_bad_request() {
    let service = Recorder::new(Ok(()));
    let handled = handle_request(
        &request(
            Some("domain=example.com&myip=203.0.113.5"),
            vec![credentials("router", "s3cret")],
        ),
        &config("Header", Some("X-Forwarded-For")),
        &service,
    );
    assert_eq!(
        handled,
        Handled { response: Response::plain(StatusCode::BadRequest), error: None }
    );
    assert!(service.seen().is_empty());
}

#[test]
fn unreadable_header_is_a_bad_request_with_an_error() {
    let service = Recorder::new(Ok(()));
    let handled = handle_request(
        &request(
            None,
            vec![
                credentials("router", "s3cret"),
                Header { name: "X-Forwarded-For".to_string(), value: vec![0xff, 0xfe] },
            ],
        ),
        &config("Header", Some("X-Forwarded-For")),
        &service,
    );
    assert_eq!(
        handled,
        Handled {
            response: Response::plain(StatusCode::BadRequest),
            error: Some(HandleError::Resolution(ResolveError::InvalidHeaderValue)),
        }
    );
    assert!(service.seen().is_empty());
}

#[test]
fn address_that_is_none_is_a_server_error() {
    let service = Recorder::new(Ok(()));
    for text in ["example.com", "203.0.113.256", "203.0.113", "", "203.0.113.05"] {
        let handled = handle_request(
            &request(
                Some(&format!("domain=example.com&myip={}", text)),
                vec![credentials("router", "s3cret")],
            ),
            &config("DynDns2", None),
            &service,
        );
        assert_eq!(
            handled,
            Handled {
                response: Response::plain(StatusCode::InternalServerError),
                error: Some(HandleError::InvalidAddress(text.to_string())),
            }
        );
        assert_eq!(handled.response.status.code(), 500);
    }
    assert!(service.seen().is_empty());
}

#[test]
fn failed_update_is_a_server_error() {
    let failure = UpdateError::Delivery("connection refused".to_string());
    let service = Recorder::new(Err(failure.clone()));
    let handled = handle_request(
        &request(
            Some("domain=example.com&myip=203.0.113.5"),
            vec![credentials("router", "s3cret")],
        ),
        &config("DynDns2", None),
        &service,
    );
    assert_eq!(
        handled,
        Handled {
            response: Response::plain(StatusCode::InternalServerError),
            error: Some(HandleError::Update(failure)),
        }
    );
    assert_eq!(service.seen(), vec![Ipv4Addr::new(203, 0, 113, 5)]);
}

#[test]
fn steps_before_the_update_are_planned() {
    let settings = config("DynDns2", None);
    assert_eq!(
        plan(&request(None, Vec::new()), &settings),
        Step::Answer(Handled { response: Response::unauthorized(), error: None })
    );
    assert_eq!(
        plan(&request(None, vec![credentials("router", "s3cret")]), &settings),
        Step::Answer(Handled { response: Response::plain(StatusCode::BadRequest), error: None })
    );
    assert_eq!(
        plan(
            &request(Some("myip=1.2.3.4&domain=d"), vec![credentials("router", "s3cret")]),
            &settings
        ),
        Step::Update(Ipv4Addr::new(1, 2, 3, 4))
    );
}

#[test]
fn outcome_of_the_update_is_concluded() {
    assert_eq!(
        conclude(Ok(())),
        Handled { response: Response::plain(StatusCode::Success), error: None }
    );
    assert_eq!(
        conclude(Err(UpdateError::Sign(SignError::NoExitCode))),
        Handled {
            response: Response::plain(StatusCode::InternalServerError),
            error: Some(HandleError::Update(UpdateError::Sign(SignError::NoExitCode))),
        }
    );
}

struct Gpg {
    builder: Sha1SignedMessageBuilder,
    exit_code: i32,
}

impl SignedMessageBuilder for Gpg {
    fn sign(&self, text: &str) -> Result<String, SignError> {
        assert_eq!(self.builder.command_args()[6], "0xDEADBEEF");
        let stdout = format!("-----BEGIN PGP SIGNED MESSAGE-----\n{}", text).into_bytes();
        let stderr = b"gpg: signing failed: No secret key".to_vec();
        Sha1SignedMessageBuilder::interpret(Some(self.exit_code), stdout, stderr)
    }
}

struct Mailer {
    client: HetznerClient<Gpg>,
    times: Mutex<Vec<Timestamp>>,
    sent: Mutex<Vec<Mail>>,
}

impl Mailer {
    fn new(settings: &Config, exit_code: i32, times: Vec<Timestamp>) -> Self {
        let builder = Sha1SignedMessageBuilder::new(settings);
        Mailer {
            client: HetznerClient::new(settings, Gpg { builder, exit_code }),
            times: Mutex::new(times),
            sent: Mutex::new(Vec::new()),
        }
    }
}

impl DnsService for Mailer {
    fn update(&self, addr: &Ipv4Addr) -> Result<(), UpdateError> {
        let now = self.times.lock().unwrap().remove(0);
        let text = self.client.build_mail_text_at(addr, now)?;
        self.sent.lock().unwrap().push(self.client.mail(text));
        Ok(())
    }
}

#[test]
fn signer_exit_code_reaches_the_log() {
    let settings = config("DynDns2", None);
    let service = Mailer::new(&settings, 2, vec![Timestamp::new(0, 0)]);
    let handled = handle_request(
        &request(
            Some("domain=example.com&myip=203.0.113.5"),
            vec![credentials("router", "s3cret")],
        ),
        &settings,
        &service,
    );
    assert_eq!(handled.response.status.code(), 500);
    assert_eq!(
        handled.error,
        Some(HandleError::Update(UpdateError::Sign(SignError::ExitCode {
            code: 2,
            stderr: "gpg: signing failed: No secret key".to_string(),
        })))
    );
    assert!(format!("{:?}", handled.error).contains("code: 2"));
    assert!(service.sent.lock().unwrap().is_empty());
}

#[test]
fn each_request_sends_one_signed_mail_with_a_fresh_serial() {
    let settings = config("DynDns2", None);
    let service = Mailer::new(
        &settings,
        0,
        vec![Timestamp::new(1_700_000_000, 0), Timestamp::new(1_700_000_060, 0)],
    );
    let req = request(
        Some("domain=example.com&myip=203.0.113.5"),
        vec![credentials("router", "s3cret")],
    );
    assert_eq!(handle_request(&req, &settings, &service).response.status.code(), 200);
    assert_eq!(service.sent.lock().unwrap().len(), 1);
    assert_eq!(handle_request(&req, &settings, &service).response.status.code(), 200);
    let sent = service.sent.lock().unwrap();
    assert_eq!(sent.len(), 2);
    assert_eq!(
        sent[0].body,
        "-----BEGIN PGP SIGNED MESSAGE-----\nuser: K1234567\njob: ns\ntask: upd\n\
         domain: example.com\nprimary: yours\nzonefile: /begin\n\
         home IN A 203.0.113.5 ; 2023-11-14 22:13:20 UTC\n/end\n"
    );
    assert!(sent[1].body.contains("home IN A 203.0.113.5 ; 2023-11-14 22:14:20 UTC\n"));
    assert_eq!(sent[0].to, "robot@robot.first-ns.de");
    assert_eq!(sent[0].from, "me@example.com");
    assert_eq!(sent[0].subject, "Dns Update");
    let serial = |body: &str| body.split(" ; ").nth(1).unwrap().to_string();
    assert!(serial(&sent[0].body) < serial(&sent[1].body));
}
