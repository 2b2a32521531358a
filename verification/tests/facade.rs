use client_side::domain::{UserId, UuidValue};
use client_side::events::{CaptchaData, CaptchaError, CaptchaEvent, LoginError, LoginEvent,
    NetworkError, NetworkEvent, SignupError, SignupEvent, TokenInfo, WithGeneration};
use client_side::facade::{captcha_task_event, envelope_result, login_task_event, route_captcha,
    route_login, route_signup, signup_task_event, CallbackChoice, TaskOutcome};

#[test]
fn timeout_produces_err_timeout() {
    assert_eq!(envelope_result(TaskOutcome::TimedOut), Err(NetworkError::Timeout));
}

#[test]
fn shutdown_produces_err_sys_cancelled() {
    assert_eq!(envelope_result(TaskOutcome::ShutDown), Err(NetworkError::SysCancelled));
}

#[test]
fn completed_event_is_wrapped_ok() {
    let e = envelope_result(TaskOutcome::Completed(signup_task_event(true)));
    assert_eq!(e, Ok(NetworkEvent::Signup(SignupEvent { result: Ok(()) })));
}

#[test]
fn matching_event_reaches_the_success_callback() {
    let envelope = WithGeneration {
        generation: 3,
        result: Ok(NetworkEvent::Captcha(CaptchaEvent {
            result: Err(CaptchaError::FallbackError),
        })),
    };
    match route_captcha(envelope) {
        CallbackChoice::Success(w) => {
            assert_eq!(w.generation, 3);
            assert_eq!(w.result.result, Err(CaptchaError::FallbackError));
        },
        other => panic!("expected success choice, got {other:?}"),
    }
}

#[test]
fn transport_error_reaches_the_error_callback() {
    let envelope = WithGeneration { generation: 9, result: Err(NetworkError::Timeout) };
    match route_login(envelope) {
        CallbackChoice::Failure(w) => {
            assert_eq!(w.generation, 9);
            assert_eq!(w.result, NetworkError::Timeout);
        },
        other => panic!("expected failure choice, got {other:?}"),
    }
}

#[test]
fn wrong_kind_is_a_mismatch_and_reaches_neither() {
    let envelope = WithGeneration {
        generation: 1,
        result: Ok(NetworkEvent::Signup(SignupEvent { result: Ok(()) })),
    };
    assert_eq!(route_captcha(envelope), CallbackChoice::Mismatch);
    let envelope = WithGeneration {
        generation: 1,
        result: Ok(NetworkEvent::Captcha(CaptchaEvent {
            result: Err(CaptchaError::FallbackError),
        })),
    };
    assert_eq!(route_signup(envelope), CallbackChoice::Mismatch);
}

#[test]
fn captcha_http_failure_becomes_fallback_error() {
    assert_eq!(
        captcha_task_event(None),
        NetworkEvent::Captcha(CaptchaEvent { result: Err(CaptchaError::FallbackError) })
    );
}

#[test]
fn captcha_success_carries_the_decoded_data() {
    let data = CaptchaData { id: UuidValue::nil(), image_base64: "AAA=".to_string() };
    let e = captcha_task_event(Some(data));
    match e {
        NetworkEvent::Captcha(CaptchaEvent { result: Ok(d) }) => {
            assert_eq!(d.id, UuidValue::nil());
            assert_eq!(d.image_base64, "AAA=");
        },
        other => panic!("unexpected event {other:?}"),
    }
}

#[test]
fn login_rejection_maps_to_fallback_error() {
    // the current error mapping collapses an HTTP 401 into the
    // protocol fallback error
    assert_eq!(
        login_task_event(None),
        NetworkEvent::Login(LoginEvent { result: Err(LoginError::FallbackError) })
    );
}

#[test]
fn login_success_carries_the_tokens() {
    let tokens = TokenInfo {
        user_id: UserId(UuidValue::from_bits(5)),
        access_token: "token".to_string(),
    };
    let e = login_task_event(Some(tokens));
    match e {
        NetworkEvent::Login(LoginEvent { result: Ok(t) }) => {
            assert_eq!(t.user_id, UserId(UuidValue::from_bits(5)));
            assert_eq!(t.access_token, "token");
        },
        other => panic!("unexpected event {other:?}"),
    }
}

#[test]
fn signup_failure_maps_to_fallback_error() {
    assert_eq!(
        signup_task_event(false),
        NetworkEvent::Signup(SignupEvent { result: Err(SignupError::FallbackError) })
    );
}
