//! The callback-facing glue of the core.
//!
//! Every spawned task runs under a cancellation + timeout envelope;
//! [`envelope_result`] fixes what the result channel receives for each
//! way the race can end.  On the way out, the uniform
//! `WithGeneration<NetworkResult>` envelope is split back into the
//! typed success callback or the error callback of the operation that
//! spawned the task; a payload of the wrong kind is a programming
//! error and is handed to neither.  The functions taking the outcome
//! of an HTTP call say what event the task completes with for every
//! value the transport can hand back.

use vstd::prelude::*;
use crate::events::{CaptchaData, CaptchaError, CaptchaEvent, LoginError, LoginEvent,
    MessageEvent, NetworkError, NetworkEvent, NetworkResult, SessionEvent, SignupError,
    SignupEvent, TokenInfo, WithGeneration};

verus! {

/// How a task's envelope race ended: the inner future completed, the
/// per-task timeout elapsed, or the global shutdown signal tripped.
#[derive(Debug, PartialEq, Eq)]
pub enum TaskOutcome {
    Completed(NetworkEvent),
    TimedOut,
    ShutDown,
}

/// What the result channel receives for a task that ended this way.
/// A timed-out task yields `Err(Timeout)`; a task cut off by global
/// shutdown yields `Err(SysCancelled)`; a completed inner future is
/// wrapped as `Ok`.
pub fn envelope_result(outcome: TaskOutcome) -> (r: NetworkResult)
    ensures
        r == match outcome {
            TaskOutcome::Completed(e) => NetworkResult::Ok(e),
            TaskOutcome::TimedOut => NetworkResult::Err(NetworkError::Timeout),
            TaskOutcome::ShutDown => NetworkResult::Err(NetworkError::SysCancelled),
        },
{
    match outcome {
        TaskOutcome::Completed(e) => Ok(e),
        TaskOutcome::TimedOut => Err(NetworkError::Timeout),
        TaskOutcome::ShutDown => Err(NetworkError::SysCancelled),
    }
}

/// Which of an operation's two callbacks receives the envelope.
#[derive(Debug, PartialEq, Eq)]
pub enum CallbackChoice<T> {
    /// Invoke the typed success callback with this envelope.
    Success(WithGeneration<T>),
    /// Invoke the error callback with this envelope.
    Failure(WithGeneration<NetworkError>),
    /// A payload of the wrong kind reached this operation's callback:
    /// a programming error, logged and delivered to neither callback.
    Mismatch,
}

/// Split the uniform envelope for a `fetch_captcha` task.
pub fn route_captcha(r: WithGeneration<NetworkResult>) -> (c: CallbackChoice<CaptchaEvent>)
    ensures
        c == match r.result {
            Ok(NetworkEvent::Captcha(e)) => CallbackChoice::Success(
                WithGeneration { generation: r.generation, result: e },
            ),
            Ok(_) => CallbackChoice::<CaptchaEvent>::Mismatch,
            Err(err) => CallbackChoice::<CaptchaEvent>::Failure(
                WithGeneration { generation: r.generation, result: err },
            ),
        },
{
    let generation = r.generation;
    match r.result {
        Ok(NetworkEvent::Captcha(e)) => CallbackChoice::Success(
            WithGeneration { generation, result: e },
        ),
        Ok(_) => CallbackChoice::Mismatch,
        Err(err) => CallbackChoice::Failure(WithGeneration { generation, result: err }),
    }
}

/// Split the uniform envelope for a `signup` task.
pub fn route_signup(r: WithGeneration<NetworkResult>) -> (c: CallbackChoice<SignupEvent>)
    ensures
        c == match r.result {
            Ok(NetworkEvent::Signup(e)) => CallbackChoice::Success(
                WithGeneration { generation: r.generation, result: e },
            ),
            Ok(_) => CallbackChoice::<SignupEvent>::Mismatch,
            Err(err) => CallbackChoice::<SignupEvent>::Failure(
                WithGeneration { generation: r.generation, result: err },
            ),
        },
{
    let generation = r.generation;
    match r.result {
        Ok(NetworkEvent::Signup(e)) => CallbackChoice::Success(
            WithGeneration { generation, result: e },
        ),
        Ok(_) => CallbackChoice::Mismatch,
        Err(err) => CallbackChoice::Failure(WithGeneration { generation, result: err }),
    }
}

/// Split the uniform envelope for a `login` task.
pub fn route_login(r: WithGeneration<NetworkResult>) -> (c: CallbackChoice<LoginEvent>)
    ensures
        c == match r.result {
            Ok(NetworkEvent::Login(e)) => CallbackChoice::Success(
                WithGeneration { generation: r.generation, result: e },
            ),
            Ok(_) => CallbackChoice::<LoginEvent>::Mismatch,
            Err(err) => CallbackChoice::<LoginEvent>::Failure(
                WithGeneration { generation: r.generation, result: err },
            ),
        },
{
    let generation = r.generation;
    match r.result {
        Ok(NetworkEvent::Login(e)) => CallbackChoice::Success(
            WithGeneration { generation, result: e },
        ),
        Ok(_) => CallbackChoice::Mismatch,
        Err(err) => CallbackChoice::Failure(WithGeneration { generation, result: err }),
    }
}

/// Split the uniform envelope for a `connect_chat` task.
pub fn route_session(r: WithGeneration<NetworkResult>) -> (c: CallbackChoice<SessionEvent>)
    ensures
        c == match r.result {
            Ok(NetworkEvent::Session(e)) => CallbackChoice::Success(
                WithGeneration { generation: r.generation, result: e },
            ),
            Ok(_) => CallbackChoice::<SessionEvent>::Mismatch,
            Err(err) => CallbackChoice::<SessionEvent>::Failure(
                WithGeneration { generation: r.generation, result: err },
            ),
        },
{
    let generation = r.generation;
    match r.result {
        Ok(NetworkEvent::Session(e)) => CallbackChoice::Success(
            WithGeneration { generation, result: e },
        ),
        Ok(_) => CallbackChoice::Mismatch,
        Err(err) => CallbackChoice::Failure(WithGeneration { generation, result: err }),
    }
}

/// Split the uniform envelope for a `send_chat_message` task.
pub fn route_chat(r: WithGeneration<NetworkResult>) -> (c: CallbackChoice<MessageEvent>)
    ensures
        c == match r.result {
            Ok(NetworkEvent::Chat(e)) => CallbackChoice::Success(
                WithGeneration { generation: r.generation, result: e },
            ),
            Ok(_) => CallbackChoice::<MessageEvent>::Mismatch,
            Err(err) => CallbackChoice::<MessageEvent>::Failure(
                WithGeneration { generation: r.generation, result: err },
            ),
        },
{
    let generation = r.generation;
    match r.result {
        Ok(NetworkEvent::Chat(e)) => CallbackChoice::Success(
            WithGeneration { generation, result: e },
        ),
        Ok(_) => CallbackChoice::Mismatch,
        Err(err) => CallbackChoice::Failure(WithGeneration { generation, result: err }),
    }
}

/// The event a `fetch_captcha` task completes with: the decoded data
/// when the HTTP call produced it, otherwise the protocol fallback
/// error.
pub fn captcha_task_event(fetched: Option<CaptchaData>) -> (e: NetworkEvent)
    ensures
        e == match fetched {
            Some(data) => NetworkEvent::Captcha(CaptchaEvent { result: Ok(data) }),
            None => NetworkEvent::Captcha(
                CaptchaEvent { result: Err(CaptchaError::FallbackError) },
            ),
        },
{
    match fetched {
        Some(data) => NetworkEvent::Captcha(CaptchaEvent { result: Ok(data) }),
        None => NetworkEvent::Captcha(CaptchaEvent { result: Err(CaptchaError::FallbackError) }),
    }
}

/// The event a `signup` task completes with.
pub fn signup_task_event(succeeded: bool) -> (e: NetworkEvent)
    ensures
        e == if succeeded {
            NetworkEvent::Signup(SignupEvent { result: Ok(()) })
        } else {
            NetworkEvent::Signup(SignupEvent { result: Err(SignupError::FallbackError) })
        },
{
    if succeeded {
        NetworkEvent::Signup(SignupEvent { result: Ok(()) })
    } else {
        NetworkEvent::Signup(SignupEvent { result: Err(SignupError::FallbackError) })
    }
}

/// The event a `login` task completes with: the token material when
/// the HTTP call produced it, otherwise the protocol fallback error.
pub fn login_task_event(logged_in: Option<TokenInfo>) -> (e: NetworkEvent)
    ensures
        e == match logged_in {
            Some(tokens) => NetworkEvent::Login(LoginEvent { result: Ok(tokens) }),
            None => NetworkEvent::Login(LoginEvent { result: Err(LoginError::FallbackError) }),
        },
{
    match logged_in {
        Some(tokens) => NetworkEvent::Login(LoginEvent { result: Ok(tokens) }),
        None => NetworkEvent::Login(LoginEvent { result: Err(LoginError::FallbackError) }),
    }
}

} // verus!
