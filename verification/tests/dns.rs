use hetzner_dyndns::addr::Ipv4Addr;
use hetzner_dyndns::clock::Timestamp;
use hetzner_dyndns::config::{Config, RawConfig};
use hetzner_dyndns::dns::{HetznerClient, UpdateError};
use hetzner_dyndns::openpgp::{SignError, SignedMessageBuilder};
use hetzner_dyndns::template::RenderError;

struct Envelope;

impl SignedMessageBuilder for Envelope {
    fn sign(&self, text: &str) -> Result<String, SignError> {
        Ok(format!("<signed>\n{}</signed>\n", text))
    }
}

struct Broken(i32);

impl SignedMessageBuilder for Broken {
    fn sign(&self, _text: &str) -> Result<String, SignError> {
        Err(SignError::ExitCode { code: self.0, stderr: "no secret key".to_string() })
    }
}

fn mail_config(template: &str) -> Config {
    let raw = RawConfig {
        from_addr: "me@example.com".to_string(),
        to_addr: "robot@robot.first-ns.de".to_string(),
        smtp_host: "smtp.example.com".to_string(),
        smtp_username: "mailer".to_string(),
        smtp_password: "mailpass".to_string(),
        pgp_key: "0xDEADBEEF".to_string(),
        domain: "example.com".to_string(),
        hetzner_user: "K1234567".to_string(),
        server_addr: "127.0.0.1:8080".to_string(),
        http_auth_user: "router".to_string(),
        http_auth_password: "secret".to_string(),
        ip_resolv_method: "DynDns2".to_string(),
        ip_header: None,
        template: "zone.tpl".to_string(),
    };
    Config::from_raw(raw, template).unwrap()
}

#[test]
fn client_takes_its_settings_from_the_config() {
    let client = HetznerClient::new(&mail_config("{%IP%}"), Envelope);
    assert_eq!(client.to_addr, "robot@robot.first-ns.de");
    assert_eq!(client.from_addr, "me@example.com");
    assert_eq!(client.smtp_host, "smtp.example.com");
    assert_eq!(client.username, "mailer");
    assert_eq!(client.password, "mailpass");
    assert_eq!(client.hetzner_user, "K1234567");
    assert_eq!(client.domain, "example.com");
    assert_eq!(client.template.render_with("i", "s"), "i");
}

#[test]
fn mail_text_holds_account_job_and_zone_file() {
    let client = HetznerClient::new(&mail_config("home IN A {%IP%} ; {%SERIAL%}\n"), Envelope);
    let text = client.mail_text(&Ipv4Addr::new(203, 0, 113, 5), Timestamp::new(0, 0));
    assert_eq!(
        text,
        Ok("user: K1234567\njob: ns\ntask: upd\ndomain: example.com\nprimary: yours\n\
            zonefile: /begin\nhome IN A 203.0.113.5 ; 1970-01-01 00:00:00 UTC\n/end\n"
            .to_string())
    );
}

#[test]
fn mail_text_is_handed_to_the_signer() {
    let client = HetznerClient::new(&mail_config("{%IP%}\n"), Envelope);
    let text = client.build_mail_text_at(&Ipv4Addr::new(10, 0, 0, 1), Timestamp::new(0, 0));
    assert_eq!(
        text,
        Ok("<signed>\nuser: K1234567\njob: ns\ntask: upd\ndomain: example.com\n\
            primary: yours\nzonefile: /begin\n10.0.0.1\n/end\n</signed>\n"
            .to_string())
    );
}

#[test]
fn signing_failure_is_an_update_error() {
    let client = HetznerClient::new(&mail_config("{%IP%}\n"), Broken(2));
    assert_eq!(
        client.build_mail_text_at(&Ipv4Addr::new(10, 0, 0, 1), Timestamp::new(0, 0)),
        Err(UpdateError::Sign(SignError::ExitCode {
            code: 2,
            stderr: "no secret key".to_string()
        }))
    );
    assert!(matches!(
        client.build_mail_text(&Ipv4Addr::new(10, 0, 0, 1)),
        Err(UpdateError::Sign(SignError::ExitCode { code: 2, .. }))
    ));
}

#[test]
fn time_without_serial_is_an_update_error() {
    let client = HetznerClient::new(&mail_config("{%SERIAL%}"), Envelope);
    assert_eq!(
        client.build_mail_text_at(&Ipv4Addr::new(10, 0, 0, 1), Timestamp::new(i64::MAX, 0)),
        Err(UpdateError::Render(RenderError::Timestamp))
    );
}

#[test]
fn mail_text_of_the_present_time_holds_the_address() {
    let client = HetznerClient::new(&mail_config("a {%IP%} {%SERIAL%}\n"), Envelope);
    let text = client.build_mail_text(&Ipv4Addr::new(198, 51, 100, 7)).unwrap();
    assert!(text.starts_with("<signed>\nuser: K1234567\n"));
    assert!(text.contains("zonefile: /begin\na 198.51.100.7 2"));
    assert!(text.ends_with(" UTC\n/end\n</signed>\n"));
}

#[test]
fn mail_goes_from_sender_to_provider() {
    let client = HetznerClient::new(&mail_config("{%IP%}"), Envelope);
    let mail = client.mail("signed text".to_string());
    assert_eq!(mail.from, "me@example.com");
    assert_eq!(mail.to, "robot@robot.first-ns.de");
    assert_eq!(mail.subject, "Dns Update");
    assert_eq!(mail.body, "signed text");
}

#[test]
fn signer_answer_is_mapped() {
    assert_eq!(
        HetznerClient::<Envelope>::signed(Ok("s".to_string())),
        Ok("s".to_string())
    );
    assert_eq!(
        HetznerClient::<Envelope>::signed(Err(SignError::NoExitCode)),
        Err(UpdateError::Sign(SignError::NoExitCode))
    );
}

struct Missing;

impl SignedMessageBuilder for Missing {
    fn sign(&self, _text: &str) -> Result<String, SignError> {
        Err(SignError::Unavailable("Error spawning gpg: not found".to_string()))
    }
}

#[test]
fn missing_signer_is_an_update_error() {
    let client = HetznerClient::new(&mail_config("{%IP%}\n"), Missing);
    assert_eq!(
        client.build_mail_text_at(&Ipv4Addr::new(10, 0, 0, 1), Timestamp::new(0, 0)),
        Err(UpdateError::Sign(SignError::Unavailable(
            "Error spawning gpg: not found".to_string()
        )))
    );
}
