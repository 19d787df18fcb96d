use mindchat_core::registration::{
    fields_decision, read_failure, registration_address, registration_error_detail,
    registration_refusal, stream_setup_failure, submit_decision, FieldsAnswer, ReadFailure,
    RegisterRequest, RegistrationAttemptError, RegistrationProgress, StanzaCondition, SubmitAnswer,
};
use mindchat_core::registration::{registration_result, RegistrationWorkerEnd, REGISTRATION_TIMEOUT_SECS};
use mindchat_core::transport::{SecretString, TransportError};
use mindchat_core::xmpp::{XmppError, XmppErrorKind};

#[test]
fn registration_is_gated_on_advertised_stream_features() {
    assert_eq!(
        registration_refusal(false).as_deref(),
        Some("this server does not support in-band registration")
    );
    assert_eq!(registration_refusal(true), None);
}

#[test]
fn registration_error_conditions_map_to_ui_safe_details() {
    assert_eq!(registration_error_detail(StanzaCondition::Conflict), "this username is already registered");
    assert_eq!(
        registration_error_detail(StanzaCondition::NotAcceptable),
        "the server did not accept the registration details"
    );
    assert_eq!(registration_error_detail(StanzaCondition::NotAllowed), "this server does not allow registration");
    assert_eq!(registration_error_detail(StanzaCondition::Forbidden), "this server does not allow registration");
    assert_eq!(
        registration_error_detail(StanzaCondition::ServiceUnavailable),
        "registration is temporarily unavailable"
    );
    assert_eq!(
        registration_error_detail(StanzaCondition::FeatureNotImplemented),
        "this server does not support in-band registration"
    );
    assert_eq!(registration_error_detail(StanzaCondition::Other), "the server refused the registration");
}

#[test]
fn fields_and_submit_answers_decide_the_attempt() {
    assert_eq!(fields_decision(FieldsAnswer::Legacy { registered: false }), Ok(()));
    assert_eq!(
        fields_decision(FieldsAnswer::Form),
        Err(RegistrationAttemptError::Protocol("server requires additional registration fields".to_owned()))
    );
    assert_eq!(
        fields_decision(FieldsAnswer::Legacy { registered: true }),
        Err(RegistrationAttemptError::Protocol("this username is already registered".to_owned()))
    );
    assert_eq!(
        fields_decision(FieldsAnswer::Unexpected),
        Err(RegistrationAttemptError::Protocol("unexpected response to registration fields query".to_owned()))
    );
    assert_eq!(submit_decision(SubmitAnswer::Accepted), Ok(()));
    assert_eq!(
        submit_decision(SubmitAnswer::Refused(StanzaCondition::Conflict)),
        Err(RegistrationAttemptError::Protocol("this username is already registered".to_owned()))
    );
}

#[test]
fn registration_progress_fails_fast_only_on_decisions() {
    let mut progress = RegistrationProgress::new();
    assert_eq!(progress.record(Err(RegistrationAttemptError::Connection("refused".to_owned()))), None);
    assert_eq!(
        progress.record(Err(RegistrationAttemptError::TlsVerification("bad cert".to_owned()))),
        Some(Err(TransportError::TlsVerification("bad cert".to_owned())))
    );
    assert_eq!(
        progress.record(Err(RegistrationAttemptError::Protocol("taken".to_owned()))),
        Some(Err(TransportError::ConnectionFailed("taken".to_owned())))
    );
    assert_eq!(progress.record(Ok(())), Some(Ok(())));
    assert_eq!(progress.finish(), Err(TransportError::ConnectionFailed("refused".to_owned())));
    assert_eq!(
        RegistrationProgress::new().finish(),
        Err(TransportError::ConnectionFailed("no connection candidates".to_owned()))
    );
}

#[test]
fn stream_failures_are_classified() {
    let tls = XmppError { kind: XmppErrorKind::Tls, tls_verification: true, detail: "expired".to_owned() };
    assert_eq!(
        stream_setup_failure(&tls, "example.org"),
        RegistrationAttemptError::TlsVerification(
            "TLS certificate verification failed for example.org: expired".to_owned()
        )
    );
    let io = XmppError { kind: XmppErrorKind::Io, tls_verification: false, detail: "reset".to_owned() };
    assert_eq!(stream_setup_failure(&io, "example.org"), RegistrationAttemptError::Connection("reset".to_owned()));
    assert_eq!(
        read_failure(ReadFailure::StreamError("conflict".to_owned())),
        RegistrationAttemptError::Protocol("the server closed the stream during registration: conflict".to_owned())
    );
    assert_eq!(
        read_failure(ReadFailure::TimedOut),
        RegistrationAttemptError::Connection("timed out waiting for the server during registration".to_owned())
    );
}

#[test]
fn registration_address_joins_username_and_server() {
    let request = RegisterRequest {
        username: "alice".to_owned(),
        server: "example.org".to_owned(),
        password: SecretString::new("s3cret"),
    };
    assert_eq!(registration_address(&request), Ok("alice@example.org".to_owned()));
    let invalid = RegisterRequest {
        username: "al ice@".to_owned(),
        server: "".to_owned(),
        password: SecretString::new("s3cret"),
    };
    assert!(matches!(registration_address(&invalid), Err(TransportError::ProtocolViolation(_))));
}

#[test]
fn registration_worker_endings_become_terminal_results() {
    assert_eq!(REGISTRATION_TIMEOUT_SECS, 35);
    assert_eq!(registration_result(RegistrationWorkerEnd::Finished(Ok(()))), Ok(()));
    assert_eq!(
        registration_result(RegistrationWorkerEnd::Finished(Err(TransportError::AuthenticationFailed))),
        Err(TransportError::AuthenticationFailed)
    );
    assert_eq!(
        registration_result(RegistrationWorkerEnd::Crashed),
        Err(TransportError::ConnectionFailed("XMPP registration worker crashed".to_owned()))
    );
    assert_eq!(
        registration_result(RegistrationWorkerEnd::NotStarted("no threads".to_owned())),
        Err(TransportError::ConnectionFailed("no threads".to_owned()))
    );
    assert_eq!(
        registration_result(RegistrationWorkerEnd::TimedOut),
        Err(TransportError::ConnectionFailed("registration did not finish within its time bound".to_owned()))
    );
    assert_eq!(
        registration_result(RegistrationWorkerEnd::Stopped),
        Err(TransportError::ConnectionFailed("XMPP registration worker stopped unexpectedly".to_owned()))
    );
}
