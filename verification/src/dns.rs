//! The update of the provider's zone: a mail that holds the rendered zone
//! file, signed.

use crate::addr::{dotted, Ipv4Addr};
use crate::clock::{utc_display, utc_now, Timestamp};
use crate::config::Config;
use crate::openpgp::{answer_view, SignError, SignErrorView, SignedMessageBuilder};
use crate::template::{rendered, RenderError, Template};
use vstd::prelude::*;
use vstd::string::*;

verus! {

/// Why the zone could not be updated.
#[derive(Debug, Clone, PartialEq, Eq)]
pub enum UpdateError {
    /// The zone file could not be rendered.
    Render(RenderError),
    /// The mail text could not be signed.
    Sign(SignError),
    /// The mail could not be delivered.
    Delivery(String),
}

/// An update error, with its texts as sequences of characters.
pub enum UpdateErrorView {
    Render(RenderError),
    Sign(SignErrorView),
    Delivery(Seq<char>),
}

impl View for UpdateError {
    type V = UpdateErrorView;

    open spec fn view(&self) -> UpdateErrorView {
        match self {
            UpdateError::Render(error) => UpdateErrorView::Render(*error),
            UpdateError::Sign(error) => UpdateErrorView::Sign(error@),
            UpdateError::Delivery(reason) => UpdateErrorView::Delivery(reason@),
        }
    }
}

/// Something that can point the zone to a new address.
pub trait DnsService {
    /// Points the zone to `addr`.
    fn update(&self, addr: &Ipv4Addr) -> Result<(), UpdateError>;
}

/// A mail that is ready to be sent.
#[derive(Debug, Clone, PartialEq, Eq)]
pub struct Mail {
    pub from: String,
    pub to: String,
    pub subject: String,
    pub body: String,
}

/// Updates a zone at Hetzner by mail: what it needs to write, sign and
/// address the mail, and to reach the mail server.
#[derive(Debug, Clone)]
pub struct HetznerClient<S> {
    pub signed_message_builder: S,
    pub to_addr: String,
    pub from_addr: String,
    pub smtp_host: String,
    pub username: String,
    pub password: String,
    pub hetzner_user: String,
    pub domain: String,
    pub template: Template,
}

/// The text of an update mail before it is signed: the account, the job, the
/// domain and, between its two marks, the zone file.
pub open spec fn mail_text_of(hetzner_user: Seq<char>, domain: Seq<char>, zonefile: Seq<char>)
    -> Seq<char> {
    "user: "@ + hetzner_user + "\n"@ + "job: ns\n"@ + "task: upd\n"@ + "domain: "@ + domain
        + "\n"@ + "primary: yours\n"@ + "zonefile: /begin\n"@ + zonefile + "/end\n"@
}

/// The outcome of building a mail text, with its texts as sequences of
/// characters.
pub open spec fn built_view(result: Result<String, UpdateError>) -> Result<
    Seq<char>,
    UpdateErrorView,
> {
    match result {
        Ok(text) => Ok(text@),
        Err(error) => Err(error@),
    }
}

/// What a signer's answer means for the update: the signed text is the mail
/// text, and a signer's error is an update error.
pub open spec fn signed_of(answer: Result<Seq<char>, SignErrorView>) -> Result<
    Seq<char>,
    UpdateErrorView,
> {
    match answer {
        Ok(text) => Ok(text),
        Err(error) => Err(UpdateErrorView::Sign(error)),
    }
}

impl<S: SignedMessageBuilder> HetznerClient<S> {
    /// Whether `result` is an outcome of building the mail that points the
    /// zone to `addr` at the time `now`: where `now` has a serial, what an
    /// answer of the signer to the mail text of that address and serial means
    /// for the update, and else the error that the time has no serial.
    pub open spec fn builds_at(
        &self,
        addr: Ipv4Addr,
        now: Timestamp,
        result: Result<Seq<char>, UpdateErrorView>,
    ) -> bool {
        match utc_display(now.secs, now.nanos) {
            Some(serial) => exists|answer: Result<Seq<char>, SignErrorView>|
                #[trigger] self.signed_message_builder.signs(
                    mail_text_of(
                        self.hetzner_user@,
                        self.domain@,
                        rendered(self.template@, dotted(addr), serial),
                    ),
                    answer,
                ) && result == signed_of(answer),
            None => result == Err::<Seq<char>, UpdateErrorView>(
                UpdateErrorView::Render(RenderError::Timestamp),
            ),
        }
    }

    /// A client with the addresses, the account and the template of the
    /// settings, which signs with `signed_message_builder`.
    pub fn new(config: &Config, signed_message_builder: S) -> (client: Self)
        ensures
            client.signed_message_builder == signed_message_builder,
            client.to_addr@ == config.to_addr@,
            client.from_addr@ == config.from_addr@,
            client.smtp_host@ == config.smtp_host@,
            client.username@ == config.smtp_username@,
            client.password@ == config.smtp_password@,
            client.hetzner_user@ == config.hetzner_user@,
            client.domain@ == config.domain@,
            client.template@ == config.template@,
    {
        HetznerClient {
            signed_message_builder,
            to_addr: config.to_addr.clone(),
            from_addr: config.from_addr.clone(),
            smtp_host: config.smtp_host.clone(),
            username: config.smtp_username.clone(),
            password: config.smtp_password.clone(),
            hetzner_user: config.hetzner_user.clone(),
            domain: config.domain.clone(),
            template: config.template.clone(),
        }
    }

    /// The text of the mail that points the zone to `addr`, with the serial
    /// of `now`, before it is signed.
    pub fn mail_text(&self, addr: &Ipv4Addr, now: Timestamp) -> (result: Result<
        String,
        RenderError,
    >)
        ensures
            match utc_display(now.secs, now.nanos) {
                Some(serial) => result matches Ok(text) && text@ == mail_text_of(
                    self.hetzner_user@,
                    self.domain@,
                    rendered(self.template@, dotted(*addr), serial),
                ),
                None => result == Err::<String, RenderError>(RenderError::Timestamp),
            },
    {
        match self.template.render(addr, now) {
            Ok(zonefile) => {
                let mut text = String::new();
                text.append("user: ");
                text.append(self.hetzner_user.as_str());
                text.append("\n");
                text.append("job: ns\n");
                text.append("task: upd\n");
                text.append("domain: ");
                text.append(self.domain.as_str());
                text.append("\n");
                text.append("primary: yours\n");
                text.append("zonefile: /begin\n");
                text.append(zonefile.as_str());
                text.append("/end\n");
                assert(text@ =~= mail_text_of(self.hetzner_user@, self.domain@, zonefile@));
                Ok(text)
            },
            Err(error) => Err(error),
        }
    }

    /// The signed text of the mail that points the zone to `addr`, with the
    /// serial of `now`: the signer is asked to sign the mail text, and its
    /// answer is handed on. Whether the text is signed is for the signer to
    /// say.
    pub fn build_mail_text_at(&self, addr: &Ipv4Addr, now: Timestamp) -> (result: Result<
        String,
        UpdateError,
    >)
        ensures
            self.builds_at(*addr, now, built_view(result)),
    {
        match self.mail_text(addr, now) {
            Ok(text) => {
                let answer = self.signed_message_builder.sign(text.as_str());
                let ghost given = answer_view(answer);
                let result = Self::signed(answer);
                assert(self.signed_message_builder.signs(text@, given) && built_view(result)
                    == signed_of(given));
                result
            },
            Err(error) => Err(UpdateError::Render(error)),
        }
    }

    /// The signed text of the mail that points the zone to `addr`, with the
    /// serial of the present time: the time is read, and the outcome is that
    /// of building the mail at that time.
    pub fn build_mail_text(&self, addr: &Ipv4Addr) -> (result: Result<String, UpdateError>)
        ensures
            exists|now: Timestamp| #[trigger] self.builds_at(*addr, now, built_view(result)),
    {
        let now = utc_now();
        let result = self.build_mail_text_at(addr, now);
        assert(self.builds_at(*addr, now, built_view(result)));
        result
    }

    /// What the signer's answer means for the update.
    pub fn signed(answer: Result<String, SignError>) -> (result: Result<String, UpdateError>)
        ensures
            built_view(result) == signed_of(answer_view(answer)),
    {
        match answer {
            Ok(text) => Ok(text),
            Err(error) => Err(UpdateError::Sign(error)),
        }
    }

    /// The mail that carries the signed text `body` to the provider.
    pub fn mail(&self, body: String) -> (mail: Mail)
        ensures
            mail.from@ == self.from_addr@,
            mail.to@ == self.to_addr@,
            mail.subject@ == "Dns Update"@,
            mail.body@ == body@,
    {
        Mail {
            from: self.from_addr.clone(),
            to: self.to_addr.clone(),
            subject: "Dns Update".to_owned(),
            body,
        }
    }
}

} // verus!
