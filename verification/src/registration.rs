//! In-band account registration: what is sent, and what each answer means.

use vstd::prelude::*;
use crate::transport::{SecretString, TransportError};
use crate::xmpp::{jid_accepts, jid_valid, XmppError};

verus! {

/// A one-shot in-band registration request.
#[derive(Clone, PartialEq, Eq)]
pub struct RegisterRequest {
    /// Requested account localpart, without the `@domain` suffix.
    pub username: String,
    /// Server domain that offers in-band registration.
    pub server: String,
    /// Password to register; never persisted and never logged.
    pub password: SecretString,
}

/// The address registered for a request: `username@server`.
pub open spec fn registration_jid(username: Seq<char>, server: Seq<char>) -> Seq<char> {
    username + "@"@ + server
}

/// The address to register, if it is a valid JID.
pub fn registration_address(request: &RegisterRequest) -> (r: Result<String, TransportError>)
    ensures
        jid_accepts(registration_jid(request.username@, request.server@)) ==> (r matches Ok(a)
            && a@ == registration_jid(request.username@, request.server@)),
        !jid_accepts(registration_jid(request.username@, request.server@)) ==> (r matches Err(
            TransportError::ProtocolViolation(d),
        ) && d@ == "invalid username or server supplied for XMPP registration"@),
{
    let address = request.username.clone().concat("@").concat(request.server.as_str());
    if !jid_valid(address.as_str()) {
        return Err(
            TransportError::ProtocolViolation(
                "invalid username or server supplied for XMPP registration".to_owned(),
            ),
        );
    }
    Ok(address)
}

/// The refusal for a server whose stream features do not offer in-band
/// registration.
pub fn registration_refusal(in_band_registration: bool) -> (r: Option<String>)
    ensures
        in_band_registration ==> r is None,
        !in_band_registration ==> (r matches Some(d) && d@
            == "this server does not support in-band registration"@),
{
    if in_band_registration {
        None
    } else {
        Some("this server does not support in-band registration".to_owned())
    }
}

/// The defined condition of a stanza error, as far as registration reads it.
#[derive(Clone, Copy, Debug, PartialEq, Eq, Structural)]
pub enum StanzaCondition {
    Conflict,
    NotAcceptable,
    NotAllowed,
    Forbidden,
    ServiceUnavailable,
    FeatureNotImplemented,
    /// Any other condition.
    Other,
}

/// The UI-safe text for a registration refused with a condition.
pub open spec fn refusal_text(condition: StanzaCondition) -> Seq<char> {
    match condition {
        StanzaCondition::Conflict => "this username is already registered"@,
        StanzaCondition::NotAcceptable => "the server did not accept the registration details"@,
        StanzaCondition::NotAllowed | StanzaCondition::Forbidden =>
            "this server does not allow registration"@,
        StanzaCondition::ServiceUnavailable => "registration is temporarily unavailable"@,
        StanzaCondition::FeatureNotImplemented =>
            "this server does not support in-band registration"@,
        StanzaCondition::Other => "the server refused the registration"@,
    }
}

/// Maps the condition of a registration error to a UI-safe detail.
pub fn registration_error_detail(condition: StanzaCondition) -> (r: String)
    ensures
        r@ == refusal_text(condition),
{
    match condition {
        StanzaCondition::Conflict => "this username is already registered".to_owned(),
        StanzaCondition::NotAcceptable => "the server did not accept the registration details".to_owned(),
        StanzaCondition::NotAllowed | StanzaCondition::Forbidden =>
            "this server does not allow registration".to_owned(),
        StanzaCondition::ServiceUnavailable => "registration is temporarily unavailable".to_owned(),
        StanzaCondition::FeatureNotImplemented =>
            "this server does not support in-band registration".to_owned(),
        StanzaCondition::Other => "the server refused the registration".to_owned(),
    }
}

/// A failure within one registration candidate.
#[derive(Clone, Debug, PartialEq, Eq)]
pub enum RegistrationAttemptError {
    /// The server's certificate failed verification: no candidate is tried
    /// after it.
    TlsVerification(String),
    /// A transport failure; another candidate may still succeed.
    Connection(String),
    /// The server decided; another candidate cannot help.
    Protocol(String),
}

/// The failure of opening the registration stream to a server.
pub fn stream_setup_failure(error: &XmppError, domain: &str) -> (r: RegistrationAttemptError)
    ensures
        error.tls_verification ==> (r matches RegistrationAttemptError::TlsVerification(d) && d@
            == "TLS certificate verification failed for "@ + domain@ + ": "@ + error.detail@),
        !error.tls_verification ==> (r matches RegistrationAttemptError::Connection(d) && d@
            == error.detail@),
{
    if error.tls_verification {
        RegistrationAttemptError::TlsVerification(
            "TLS certificate verification failed for ".to_owned().concat(domain).concat(
                ": ",
            ).concat(error.detail.as_str()),
        )
    } else {
        RegistrationAttemptError::Connection(error.detail.clone())
    }
}

/// What reading the next element of the registration stream gave, when it
/// gave no element.
#[derive(Clone, Debug, PartialEq, Eq)]
pub enum ReadFailure {
    /// Nothing arrived within the read bound.
    TimedOut,
    /// The stream ended.
    Closed,
    /// The data could not be read; the reader's error text.
    Invalid(String),
    /// The server ended the stream with a stream error; its text.
    StreamError(String),
}

/// The attempt failure a failed read becomes: a stream error is the
/// server's decision, anything else a transport failure.
pub fn read_failure(failure: ReadFailure) -> (r: RegistrationAttemptError)
    ensures
        match failure {
            ReadFailure::TimedOut => r matches RegistrationAttemptError::Connection(d) && d@
                == "timed out waiting for the server during registration"@,
            ReadFailure::Closed => r matches RegistrationAttemptError::Connection(d) && d@
                == "the server closed the stream during registration"@,
            ReadFailure::Invalid(e) => r matches RegistrationAttemptError::Connection(d) && d@
                == "invalid data from the server during registration: "@ + e@,
            ReadFailure::StreamError(e) => r matches RegistrationAttemptError::Protocol(d) && d@
                == "the server closed the stream during registration: "@ + e@,
        },
{
    match failure {
        ReadFailure::TimedOut => RegistrationAttemptError::Connection(
            "timed out waiting for the server during registration".to_owned(),
        ),
        ReadFailure::Closed => RegistrationAttemptError::Connection(
            "the server closed the stream during registration".to_owned(),
        ),
        ReadFailure::Invalid(e) => RegistrationAttemptError::Connection(
            "invalid data from the server during registration: ".to_owned().concat(e.as_str()),
        ),
        ReadFailure::StreamError(e) => RegistrationAttemptError::Protocol(
            "the server closed the stream during registration: ".to_owned().concat(e.as_str()),
        ),
    }
}

/// The server's answer to the registration fields query.
#[derive(Clone, Copy, Debug, PartialEq, Eq, Structural)]
pub enum FieldsAnswer {
    /// A result asking for a data form (or a captcha).
    Form,
    /// A result with the legacy username and password fields; whether the
    /// account is already registered.
    Legacy { registered: bool },
    /// An error with its condition.
    Refused(StanzaCondition),
    /// Any other answer.
    Unexpected,
}

/// The server's answer to the registration submission.
#[derive(Clone, Copy, Debug, PartialEq, Eq, Structural)]
pub enum SubmitAnswer {
    Accepted,
    Refused(StanzaCondition),
    Unexpected,
}

/// What the answer to the fields query means: `Ok` means the legacy
/// username and password are submitted; anything else ends the attempt
/// with the server's decision.
pub fn fields_decision(answer: FieldsAnswer) -> (r: Result<(), RegistrationAttemptError>)
    ensures
        match answer {
            FieldsAnswer::Form => r matches Err(RegistrationAttemptError::Protocol(d)) && d@
                == "server requires additional registration fields"@,
            FieldsAnswer::Legacy { registered } => if registered {
                r matches Err(RegistrationAttemptError::Protocol(d)) && d@
                    == "this username is already registered"@
            } else {
                r is Ok
            },
            FieldsAnswer::Refused(c) => r matches Err(RegistrationAttemptError::Protocol(d)) && d@
                == refusal_text(c),
            FieldsAnswer::Unexpected => r matches Err(RegistrationAttemptError::Protocol(d)) && d@
                == "unexpected response to registration fields query"@,
        },
{
    match answer {
        FieldsAnswer::Form => Err(
            RegistrationAttemptError::Protocol(
                "server requires additional registration fields".to_owned(),
            ),
        ),
        FieldsAnswer::Legacy { registered } => if registered {
            Err(RegistrationAttemptError::Protocol("this username is already registered".to_owned()))
        } else {
            Ok(())
        },
        FieldsAnswer::Refused(c) => Err(RegistrationAttemptError::Protocol(registration_error_detail(c))),
        FieldsAnswer::Unexpected => Err(
            RegistrationAttemptError::Protocol(
                "unexpected response to registration fields query".to_owned(),
            ),
        ),
    }
}

/// What the answer to the submission means.
pub fn submit_decision(answer: SubmitAnswer) -> (r: Result<(), RegistrationAttemptError>)
    ensures
        match answer {
            SubmitAnswer::Accepted => r is Ok,
            SubmitAnswer::Refused(c) => r matches Err(RegistrationAttemptError::Protocol(d)) && d@
                == refusal_text(c),
            SubmitAnswer::Unexpected => r matches Err(RegistrationAttemptError::Protocol(d)) && d@
                == "unexpected response to registration submission"@,
        },
{
    match answer {
        SubmitAnswer::Accepted => Ok(()),
        SubmitAnswer::Refused(c) => Err(RegistrationAttemptError::Protocol(registration_error_detail(c))),
        SubmitAnswer::Unexpected => Err(
            RegistrationAttemptError::Protocol(
                "unexpected response to registration submission".to_owned(),
            ),
        ),
    }
}

/// What a registration remembers across candidates: the last transport
/// failure.
#[derive(Debug)]
pub struct RegistrationProgress {
    last_connection_error: String,
}

impl RegistrationProgress {
    /// The detail reported when no candidate decides.
    pub closed spec fn last(self) -> Seq<char> {
        self.last_connection_error@
    }

    /// A registration before any candidate was tried.
    pub fn new() -> (r: Self)
        ensures
            r.last() == "no connection candidates"@,
    {
        RegistrationProgress { last_connection_error: "no connection candidates".to_owned() }
    }

    /// Records one candidate's outcome. Success, a certificate failure or a
    /// server decision ends the registration with its result (`Some`); a
    /// transport failure is remembered and the next candidate is tried.
    pub fn record(&mut self, outcome: Result<(), RegistrationAttemptError>) -> (r: Option<
        Result<(), TransportError>,
    >)
        ensures
            match outcome {
                Ok(()) => r == Some(Ok::<(), TransportError>(())) && final(self).last() == old(
                    self,
                ).last(),
                Err(RegistrationAttemptError::TlsVerification(d)) => (r matches Some(Err(
                    TransportError::TlsVerification(x),
                )) && x@ == d@) && final(self).last() == old(self).last(),
                Err(RegistrationAttemptError::Protocol(d)) => (r matches Some(Err(
                    TransportError::ConnectionFailed(x),
                )) && x@ == d@) && final(self).last() == old(self).last(),
                Err(RegistrationAttemptError::Connection(d)) => r is None && final(self).last()
                    == d@,
            },
    {
        match outcome {
            Ok(()) => Some(Ok(())),
            Err(RegistrationAttemptError::TlsVerification(d)) => Some(
                Err(TransportError::TlsVerification(d)),
            ),
            Err(RegistrationAttemptError::Protocol(d)) => Some(
                Err(TransportError::ConnectionFailed(d)),
            ),
            Err(RegistrationAttemptError::Connection(d)) => {
                self.last_connection_error = d;
                None
            },
        }
    }

    /// The result when every candidate failed in transport.
    pub fn finish(self) -> (r: Result<(), TransportError>)
        ensures
            r matches Err(TransportError::ConnectionFailed(d)) && d@ == self.last(),
    {
        Err(TransportError::ConnectionFailed(self.last_connection_error))
    }
}

/// Seconds the caller waits for a registration before giving up on it.
pub const REGISTRATION_TIMEOUT_SECS: u64 = 35;

/// How the registration worker ended, as its caller saw it.
#[derive(Debug, PartialEq, Eq)]
pub enum RegistrationWorkerEnd {
    /// The worker finished with this result.
    Finished(Result<(), TransportError>),
    /// The worker panicked.
    Crashed,
    /// The worker's thread or runtime could not start; the detail says why.
    NotStarted(String),
    /// No result arrived within `REGISTRATION_TIMEOUT_SECS`.
    TimedOut,
    /// The worker's channel closed without a result.
    Stopped,
}

/// The result of a registration given how its worker ended: the worker's
/// own result, or a connection failure naming what went wrong.
pub fn registration_result(end: RegistrationWorkerEnd) -> (r: Result<(), TransportError>)
    ensures
        end matches RegistrationWorkerEnd::Finished(x) ==> r == x,
        end is Crashed ==> (r matches Err(TransportError::ConnectionFailed(d)) && d@
            == "XMPP registration worker crashed"@),
        end matches RegistrationWorkerEnd::NotStarted(detail) ==> (r matches Err(
            TransportError::ConnectionFailed(d),
        ) && d@ == detail@),
        end is TimedOut ==> (r matches Err(TransportError::ConnectionFailed(d)) && d@
            == "registration did not finish within its time bound"@),
        end is Stopped ==> (r matches Err(TransportError::ConnectionFailed(d)) && d@
            == "XMPP registration worker stopped unexpectedly"@),
{
    match end {
        RegistrationWorkerEnd::Finished(result) => result,
        RegistrationWorkerEnd::Crashed => Err(
            TransportError::ConnectionFailed("XMPP registration worker crashed".to_owned()),
        ),
        RegistrationWorkerEnd::NotStarted(detail) => Err(TransportError::ConnectionFailed(detail)),
        RegistrationWorkerEnd::TimedOut => Err(
            TransportError::ConnectionFailed(
                "registration did not finish within its time bound".to_owned(),
            ),
        ),
        RegistrationWorkerEnd::Stopped => Err(
            TransportError::ConnectionFailed(
                "XMPP registration worker stopped unexpectedly".to_owned(),
            ),
        ),
    }
}

} // verus!
