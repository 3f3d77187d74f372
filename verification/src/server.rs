//! The handling of one request: authentication, resolution of the claimed
//! address, the update, and the answer.

use crate::addr::{address_of, Ipv4Addr};
use crate::auth::{authenticate, authorized, lemma_accepts_exactly, presents};
use crate::config::{Config, IpResolvView};
use crate::dns::{DnsService, UpdateError, UpdateErrorView};
use crate::request::{Request, RequestView, Response, StatusCode};
use crate::resolve::{resolv_ip_from_request, resolved, ResolveError};
use vstd::prelude::*;

verus! {

/// What went wrong with a request, for the log.
#[derive(Debug, Clone, PartialEq, Eq)]
pub enum HandleError {
    /// No address could be read from the request.
    Resolution(ResolveError),
    /// The claimed address is no dotted-decimal IPv4 address.
    InvalidAddress(String),
    /// The update failed.
    Update(UpdateError),
}

/// A handling error, with its texts as sequences of characters.
pub enum HandleErrorView {
    Resolution(ResolveError),
    InvalidAddress(Seq<char>),
    Update(UpdateErrorView),
}

impl View for HandleError {
    type V = HandleErrorView;

    open spec fn view(&self) -> HandleErrorView {
        match self {
            HandleError::Resolution(error) => HandleErrorView::Resolution(*error),
            HandleError::InvalidAddress(text) => HandleErrorView::InvalidAddress(text@),
            HandleError::Update(error) => HandleErrorView::Update(error@),
        }
    }
}

/// The outcome of a request: the answer, and the error to log, if any.
#[derive(Debug, Clone, PartialEq, Eq)]
pub struct Handled {
    pub response: Response,
    pub error: Option<HandleError>,
}

/// An outcome, with its error as a view.
pub struct HandledView {
    pub response: Response,
    pub error: Option<HandleErrorView>,
}

impl View for Handled {
    type V = HandledView;

    open spec fn view(&self) -> HandledView {
        HandledView {
            response: self.response,
            error: match self.error {
                Some(error) => Some(error@),
                None => None,
            },
        }
    }
}

/// What is to be done with a request before any update is tried.
#[derive(Debug, Clone, PartialEq, Eq)]
pub enum Step {
    /// The request is answered as it stands.
    Answer(Handled),
    /// The zone is to be pointed to this address.
    Update(Ipv4Addr),
}

/// A step, with its outcome as a view.
pub enum StepView {
    Answer(HandledView),
    Update(Ipv4Addr),
}

impl View for Step {
    type V = StepView;

    open spec fn view(&self) -> StepView {
        match self {
            Step::Answer(handled) => StepView::Answer(handled@),
            Step::Update(addr) => StepView::Update(*addr),
        }
    }
}

/// The answer that asks the caller for Basic credentials.
pub open spec fn challenge() -> HandledView {
    HandledView {
        response: Response { status: StatusCode::Unauthorized, www_authenticate: true },
        error: None,
    }
}

/// The answer without a challenge and without an error.
pub open spec fn plain(status: StatusCode) -> HandledView {
    HandledView { response: Response { status, www_authenticate: false }, error: None }
}

/// The answer that reports an error.
pub open spec fn failed(status: StatusCode, error: HandleErrorView) -> HandledView {
    HandledView { response: Response { status, www_authenticate: false }, error: Some(error) }
}

/// The step that a request calls for, in this order: a request without the
/// right credentials is challenged; one that claims no address, or whose
/// address cannot be read, is a bad request; one whose address is no IPv4
/// address is a server error; any other leads to an update.
pub open spec fn planned(
    user: Seq<char>,
    password: Seq<char>,
    method: IpResolvView,
    request: RequestView,
) -> StepView {
    if !authorized(user, password, request) {
        StepView::Answer(challenge())
    } else {
        match resolved(method, request) {
            None => StepView::Answer(plain(StatusCode::BadRequest)),
            Some(Err(error)) => StepView::Answer(
                failed(StatusCode::BadRequest, HandleErrorView::Resolution(error)),
            ),
            Some(Ok(text)) => match address_of(text) {
                Some(addr) => StepView::Update(addr),
                None => StepView::Answer(
                    failed(
                        StatusCode::InternalServerError,
                        HandleErrorView::InvalidAddress(text),
                    ),
                ),
            },
        }
    }
}

/// The outcome of a request whose update ended with `outcome`.
pub open spec fn concluded(outcome: Result<(), UpdateError>) -> HandledView {
    match outcome {
        Ok(_) => plain(StatusCode::Success),
        Err(error) => failed(StatusCode::InternalServerError, HandleErrorView::Update(error@)),
    }
}

/// A request that presents credentials gets past the challenge exactly if
/// they are the expected user name, a colon and the expected password; the
/// user name of a request ends at its first colon. So a request with the
/// right credentials is not challenged, and one that differs from them in a
/// single character of the user name or of the password is.
pub proof fn lemma_challenged_unless_credentials_match(
    user: Seq<char>,
    password: Seq<char>,
    method: IpResolvView,
    request: RequestView,
    credentials: Seq<char>,
)
    requires
        presents(request, credentials),
    ensures
        planned(user, password, method, request) == StepView::Answer(challenge()) <==> !(
        credentials == user + seq![':'] + password && !user.contains(':')),
{
    lemma_accepts_exactly(user, password, credentials);
}

/// Decides what a request calls for before any update is tried.
pub fn plan(req: &Request, config: &Config) -> (step: Step)
    ensures
        step@ == planned(
            config.http_auth_user@,
            config.http_auth_password@,
            config.ip_resolv@,
            req@,
        ),
{
    if !authenticate(config, req) {
        return Step::Answer(Handled { response: Response::unauthorized(), error: None });
    }
    match resolv_ip_from_request(&config.ip_resolv, req) {
        None => Step::Answer(
            Handled { response: Response::plain(StatusCode::BadRequest), error: None },
        ),
        Some(Err(error)) => Step::Answer(
            Handled {
                response: Response::plain(StatusCode::BadRequest),
                error: Some(HandleError::Resolution(error)),
            },
        ),
        Some(Ok(text)) => match Ipv4Addr::parse(text.as_str()) {
            Some(addr) => Step::Update(addr),
            None => Step::Answer(
                Handled {
                    response: Response::plain(StatusCode::InternalServerError),
                    error: Some(HandleError::InvalidAddress(text)),
                },
            ),
        },
    }
}

/// The outcome of a request whose update ended with `outcome`.
pub fn conclude(outcome: Result<(), UpdateError>) -> (handled: Handled)
    ensures
        handled@ == concluded(outcome),
{
    match outcome {
        Ok(_) => Handled { response: Response::plain(StatusCode::Success), error: None },
        Err(error) => Handled {
            response: Response::plain(StatusCode::InternalServerError),
            error: Some(HandleError::Update(error)),
        },
    }
}

/// Handles one request. The request is answered as `planned` says where that
/// is an answer; where it is an update, `service` is asked to point the zone
/// to the address, and the answer is `Success` if it did and a server error,
/// with the service's error, if it did not.
pub fn handle_request<Service: DnsService>(req: &Request, config: &Config, service: &Service) -> (handled:
    Handled)
    ensures
        match planned(
            config.http_auth_user@,
            config.http_auth_password@,
            config.ip_resolv@,
            req@,
        ) {
            StepView::Answer(answer) => handled@ == answer,
            StepView::Update(_) => handled@ == plain(StatusCode::Success) || (exists|
                error: UpdateErrorView,
            |
                handled@ == failed(
                    StatusCode::InternalServerError,
                    HandleErrorView::Update(error),
                )),
        },
{
    match plan(req, config) {
        Step::Answer(handled) => handled,
        Step::Update(addr) => {
            let outcome = service.update(&addr);
            let ghost ended = outcome;
            let handled = conclude(outcome);
            proof {
                if let Err(error) = ended {
                    assert(handled@ == failed(
                        StatusCode::InternalServerError,
                        HandleErrorView::Update(error@),
                    ));
                }
            }
            handled
        },
    }
}

} // verus!
