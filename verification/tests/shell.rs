use client_side::domain::{ConversationId, UserId, UuidValue};
use client_side::events::{ChatMessage, StreamMessage};
use client_side::pages::{FatalPage, LobbyMessage, LobbyPage, LoginMessage, LoginPage, Route,
    ShutdownPage, SignupPage, Update};
use client_side::shell::{App, AppAction, AppMessage, Args, Lifecycle, LogLevel, Page};

fn stream(text: &str) -> StreamMessage {
    StreamMessage::Distribute(ChatMessage {
        sender: UserId(UuidValue::nil()),
        conversation_id: ConversationId(UuidValue::nil()),
        content: text.to_string(),
    })
}

#[test]
fn log_levels_have_lowercase_labels() {
    assert_eq!(LogLevel::Trace.label(), "trace");
    assert_eq!(LogLevel::Debug.label(), "debug");
    assert_eq!(LogLevel::Info.label(), "info");
    assert_eq!(LogLevel::Warn.label(), "warn");
    assert_eq!(LogLevel::Error.label(), "error");
}

#[test]
fn default_log_level_is_trace() {
    assert_eq!(Args::default(), Args { log_level: LogLevel::Trace });
}

#[test]
fn stale_captcha_results_are_dropped() {
    let mut page = LoginPage::new(Some(1));
    let nav = page.apply(LoginMessage::CaptchaFetched(
        2,
        UuidValue::from_bits(9),
        "AAA=".to_string(),
    ));
    assert_eq!(nav, None);
    assert_eq!(page.captcha_id, None);
    assert_eq!(page.captcha_base64, "");
}

#[test]
fn matching_captcha_result_is_stored() {
    let mut page = LoginPage::new(Some(1));
    page.apply(LoginMessage::CaptchaFetched(1, UuidValue::from_bits(9), "AAA=".to_string()));
    assert_eq!(page.captcha_id, Some(UuidValue::from_bits(9)));
    assert_eq!(page.captcha_base64, "AAA=");
}

#[test]
fn login_success_requests_navigation_to_the_lobby() {
    let mut page = LoginPage::new(None);
    page.login_generation = Some(5);
    let nav = page.apply(LoginMessage::LoginSuccess(5, "addr".to_string(), "jwt".to_string()));
    assert_eq!(nav, Some(Route::LobbyPage("addr".to_string(), "jwt".to_string())));
}

#[test]
fn stale_login_results_are_dropped() {
    let mut page = LoginPage::new(None);
    page.login_generation = Some(5);
    let nav = page.apply(LoginMessage::LoginSuccess(4, "a".to_string(), "j".to_string()));
    assert_eq!(nav, None);
    assert_eq!(page.login_state, None);
    page.apply(LoginMessage::LoginFailed(4));
    assert_eq!(page.login_state, None);
}

#[test]
fn lobby_appends_history_in_order() {
    let mut lobby = LobbyPage::new(0);
    lobby.apply(LobbyMessage::MessageSent("one".to_string()));
    lobby.apply(LobbyMessage::Stream(stream("two")));
    lobby.apply(LobbyMessage::MessageFailed("three".to_string()));
    assert_eq!(lobby.chat_history, vec!["one", "two", "three"]);
}

#[test]
fn lobby_drops_echoes_of_other_sessions() {
    let mut lobby = LobbyPage::new(1);
    lobby.update_one(LobbyMessage::ChatSent(2, "stale".to_string()));
    assert!(lobby.chat_history.is_empty());
    lobby.update_one(LobbyMessage::ChatSent(1, "fresh".to_string()));
    assert_eq!(lobby.chat_history, vec!["fresh"]);
}

#[test]
fn quit_message_moves_the_shell_to_quitting() {
    let mut app = App::new(None);
    let actions = app.update_one(AppMessage::Quit, 0);
    assert!(actions.is_empty());
    assert!(matches!(app.lifecycle, Lifecycle::QuitingShell));
}

#[test]
fn exiting_message_starts_the_shutdown_countdown() {
    let mut app = App::new(None);
    let actions = app.update_one(AppMessage::Exiting, 1_000);
    assert!(actions.is_empty());
    assert!(matches!(app.lifecycle, Lifecycle::PendingQuit));
    assert_eq!(app.polling_interval(), 16);
    match &app.current_page {
        Page::Shutdown(p) => assert_eq!(p.get_deadline(), 6_000),
        other => panic!("expected the shutdown page, got {other:?}"),
    }
}

#[test]
fn shutdown_deadline_raises_quit() {
    let mut app = App::new(None);
    app.update_one(AppMessage::Exiting, 1_000);
    assert!(app.poll_internal_events(5_999).is_empty());
    assert_eq!(app.poll_internal_events(6_000), vec![AppMessage::Quit]);
}

#[test]
fn stream_messages_buffer_until_a_lobby_shows() {
    let mut app = App::new(None);
    let actions = app.update_one(AppMessage::Stream(stream("early")), 0);
    assert!(actions.is_empty());
    assert_eq!(app.stream_buffer.len(), 1);
    // entering the lobby replays the buffer in arrival order
    app.update_one(AppMessage::ReqNavigate(Route::ChatConnSuccess), 0);
    app.update_one(AppMessage::Stream(stream("late")), 0);
    assert!(app.stream_buffer.is_empty());
    match &app.current_page {
        Page::Lobby(l) => assert_eq!(l.chat_history, vec!["early", "late"]),
        other => panic!("expected the lobby page, got {other:?}"),
    }
}

#[test]
fn navigating_to_the_lobby_requests_a_chat_connect() {
    let mut app = App::new(None);
    let actions = app.update_one(
        AppMessage::ReqNavigate(Route::LobbyPage("addr".to_string(), "jwt".to_string())),
        0,
    );
    assert_eq!(
        actions,
        vec![AppAction::ConnectChat {
            address: "addr".to_string(),
            jwt: "jwt".to_string(),
            timeout_ms: 1000,
        }]
    );
}

#[test]
fn chat_connect_failure_notifies_the_login_page() {
    let mut app = App::new(None);
    let actions = app.update_one(AppMessage::ReqNavigate(Route::ChatConnFailure), 0);
    assert_eq!(
        actions,
        vec![AppAction::Post(AppMessage::Login(LoginMessage::ChatFailed))]
    );
    let actions = app.update_one(AppMessage::Login(LoginMessage::ChatFailed), 0);
    assert!(actions.is_empty());
    match &app.current_page {
        Page::Login(l) => {
            assert_eq!(l.login_state, Some(client_side::pages::LoginState::ChatFailed))
        },
        other => panic!("expected the login page, got {other:?}"),
    }
}

#[test]
fn navigating_to_login_requests_a_captcha() {
    let mut app = App::new(Some(7));
    let actions = app.update_one(AppMessage::ReqNavigate(Route::LoginPage), 0);
    assert_eq!(actions, vec![AppAction::FetchCaptcha]);
    app.note_captcha_request(Some(8));
    match &app.current_page {
        Page::Login(l) => assert_eq!(l.captcha_generation, Some(8)),
        other => panic!("expected the login page, got {other:?}"),
    }
}

#[test]
fn login_success_bubbles_up_as_a_navigation_action() {
    let mut app = App::new(None);
    app.note_login_request(Some(3));
    let actions = app.update_one(
        AppMessage::Login(LoginMessage::LoginSuccess(3, "a".to_string(), "j".to_string())),
        0,
    );
    assert_eq!(
        actions,
        vec![AppAction::Post(AppMessage::ReqNavigate(Route::LobbyPage(
            "a".to_string(),
            "j".to_string(),
        )))]
    );
}

#[test]
fn fatal_shell_shows_the_error_page() {
    let app = App::new_fatal();
    match &app.current_page {
        Page::Fatal(p) => assert_eq!(p.message(), "fatal error"),
        other => panic!("expected the fatal page, got {other:?}"),
    }
}

#[test]
fn pages_compare_by_their_state() {
    assert_eq!(SignupPage::new(), SignupPage::new());
    assert_eq!(ShutdownPage::new(5), ShutdownPage::new(5));
    assert_ne!(ShutdownPage::new(5), ShutdownPage::new(6));
    let f = FatalPage::new("boom".to_string());
    assert_eq!(f.message(), "boom");
}
