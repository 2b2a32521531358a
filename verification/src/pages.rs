//! The pages' message-driven state, on plain values.
//!
//! Rendering, textures and channels live outside; what is modelled
//! and verified here is how each page's state reacts to the messages
//! it receives, including the generation checks that drop stale
//! network results.

use vstd::prelude::*;
use crate::domain::UuidValue;
use crate::events::StreamMessage;

verus! {

/// A component that consumes messages of one type.
pub trait Update<MessageType> {
    fn update_one(&mut self, message: MessageType);
}

/// A navigation request.
#[derive(Debug, PartialEq, Eq)]
pub enum Route {
    FatalPage,
    LobbyPage(String, String),
    ChatConnSuccess,
    ChatConnFailure,
    LoginPage,
    ShutdownPage,
    SignupPage,
}

/// The terminal error page.
#[derive(Debug, PartialEq, Eq)]
pub struct FatalPage {
    error_message: String,
}

impl FatalPage {
    pub fn new(error_message: String) -> (r: FatalPage)
        ensures
            r.message_view() == error_message@,
    {
        FatalPage { error_message }
    }

    pub closed spec fn message_view(&self) -> Seq<char> {
        self.error_message@
    }

    pub fn message(&self) -> (r: &String)
        ensures
            r@ == self.message_view(),
    {
        &self.error_message
    }
}

/// The countdown page shown while the core shuts down.  The deadline
/// is a timestamp in milliseconds, measured on the shell's clock.
#[derive(Clone, Copy, Debug, PartialEq, Eq, Structural)]
pub struct ShutdownPage {
    pub deadline: u64,
}

impl ShutdownPage {
    pub fn new(deadline: u64) -> (r: ShutdownPage)
        ensures
            r.deadline == deadline,
    {
        ShutdownPage { deadline }
    }

    pub fn get_deadline(&self) -> (r: u64)
        returns
            self.deadline,
    {
        self.deadline
    }
}

#[derive(Debug, PartialEq, Eq)]
pub enum SignupMessage {
    Placeholder,
}

/// The signup page: navigation only, no state of its own yet.
#[derive(Debug, PartialEq, Eq)]
pub struct SignupPage {
}

impl SignupPage {
    pub fn new() -> (r: SignupPage)
        ensures
            r == (SignupPage {  }),
    {
        SignupPage {  }
    }
}

#[derive(Debug, PartialEq, Eq)]
pub enum LoginMessage {
    PlaceHolder,
    UsernameChanged(String),
    PasswordChanged(String),
    CaptchaChanged(String),
    CaptchaFetched(u64, UuidValue, String),
    CaptchaFailed(u64),
    LoginSuccess(u64, String, String),
    LoginFailed(u64),
    ChatFailed,
    NavigateTo(String),
}

#[derive(Debug, PartialEq, Eq)]
pub enum LoginState {
    RequestSent,
    Success(String, String),
    Failure(String),
    ChatFailed,
}

/// The login page's state: the three input fields, the captcha being
/// displayed, and the progress of an outstanding login request.  A
/// captcha image is only a flag here; decoding and display are the
/// shell's.
#[derive(Debug, PartialEq, Eq)]
pub struct LoginPage {
    pub username: String,
    pub password: String,
    pub captcha: String,
    pub captcha_generation: Option<u64>,
    pub captcha_id: Option<UuidValue>,
    pub captcha_base64: String,
    pub has_captcha_image: bool,
    pub login_generation: Option<u64>,
    pub login_state: Option<LoginState>,
}

/// The parts of a login page unrelated to the login request.
pub open spec fn same_but_login(a: LoginPage, b: LoginPage) -> bool {
    &&& a.username == b.username
    &&& a.password == b.password
    &&& a.captcha == b.captcha
    &&& a.captcha_generation == b.captcha_generation
    &&& a.captcha_id == b.captcha_id
    &&& a.captcha_base64 == b.captcha_base64
    &&& a.has_captcha_image == b.has_captcha_image
}

/// How the login page reacts to one message, and what navigation it
/// requests.
pub open spec fn login_applied(
    pre: LoginPage,
    post: LoginPage,
    message: LoginMessage,
    navigate: Option<Route>,
) -> bool {
    match message {
        LoginMessage::UsernameChanged(u) => post == (LoginPage { username: u, ..pre })
            && navigate is None,
        LoginMessage::PasswordChanged(p) => post == (LoginPage { password: p, ..pre })
            && navigate is None,
        LoginMessage::CaptchaFetched(g, id, base64) => {
            &&& (pre.captcha_generation == Some(g)) ==> post == (LoginPage {
                captcha_id: Some(id),
                captcha_base64: base64,
                ..pre
            })
            &&& (pre.captcha_generation != Some(g)) ==> post == pre
            &&& navigate is None
        },
        LoginMessage::CaptchaFailed(g) => {
            &&& (pre.captcha_generation == Some(g)) ==> post == (LoginPage {
                captcha_generation: None,
                has_captcha_image: false,
                ..pre
            })
            &&& (pre.captcha_generation != Some(g)) ==> post == pre
            &&& navigate is None
        },
        LoginMessage::LoginSuccess(g, address, jwt) => {
            if pre.login_generation == Some(g) {
                &&& post.login_state == Some(LoginState::Success(address, jwt))
                &&& same_but_login(post, pre)
                &&& post.login_generation == pre.login_generation
                &&& navigate == Some(Route::LobbyPage(address, jwt))
            } else {
                post == pre && navigate is None
            }
        },
        LoginMessage::LoginFailed(g) => {
            &&& (pre.login_generation == Some(g)) ==> {
                &&& post.login_state matches Some(LoginState::Failure(m)) && m@
                    == "Login failed"@
                &&& same_but_login(post, pre)
                &&& post.login_generation == pre.login_generation
            }
            &&& (pre.login_generation != Some(g)) ==> post == pre
            &&& navigate is None
        },
        LoginMessage::ChatFailed => {
            &&& post.login_state == Some(LoginState::ChatFailed)
            &&& same_but_login(post, pre)
            &&& post.login_generation == pre.login_generation
            &&& navigate is None
        },
        _ => post == pre && navigate is None,
    }
}

impl LoginPage {
    /// A fresh login page.  The shell submits the initial captcha
    /// request and hands in the generation it was given.
    pub fn new(captcha_generation: Option<u64>) -> (r: LoginPage)
        ensures
            r == (LoginPage {
                username: r.username,
                password: r.password,
                captcha: r.captcha,
                captcha_generation,
                captcha_id: None,
                captcha_base64: r.captcha_base64,
                has_captcha_image: false,
                login_generation: None,
                login_state: None,
            }),
            r.username@ == Seq::<char>::empty(),
            r.password@ == Seq::<char>::empty(),
            r.captcha@ == Seq::<char>::empty(),
            r.captcha_base64@ == Seq::<char>::empty(),
    {
        LoginPage {
            username: String::new(),
            password: String::new(),
            captcha: String::new(),
            captcha_generation,
            captcha_id: None,
            captcha_base64: String::new(),
            has_captcha_image: false,
            login_generation: None,
            login_state: None,
        }
    }

    /// React to one message, and possibly ask the shell to navigate.
    /// Network results are honoured only when their generation matches
    /// the outstanding request; stale ones are dropped.
    pub fn apply(&mut self, message: LoginMessage) -> (navigate: Option<Route>)
        ensures
            login_applied(*old(self), *final(self), message, navigate),
    {
        match message {
            LoginMessage::UsernameChanged(u) => {
                self.username = u;
                None
            },
            LoginMessage::PasswordChanged(p) => {
                self.password = p;
                None
            },
            LoginMessage::CaptchaFetched(g, id, base64) => {
                if self.captcha_generation == Some(g) {
                    self.captcha_id = Some(id);
                    self.captcha_base64 = base64;
                }
                None
            },
            LoginMessage::CaptchaFailed(g) => {
                if self.captcha_generation == Some(g) {
                    self.captcha_generation = None;
                    self.has_captcha_image = false;
                }
                None
            },
            LoginMessage::LoginSuccess(g, address, jwt) => {
                if self.login_generation == Some(g) {
                    let address2 = address.clone();
                    let jwt2 = jwt.clone();
                    self.login_state = Some(LoginState::Success(address, jwt));
                    Some(Route::LobbyPage(address2, jwt2))
                } else {
                    None
                }
            },
            LoginMessage::LoginFailed(g) => {
                if self.login_generation == Some(g) {
                    self.login_state = Some(LoginState::Failure("Login failed".to_owned()));
                }
                None
            },
            LoginMessage::ChatFailed => {
                self.login_state = Some(LoginState::ChatFailed);
                None
            },
            _ => None,
        }
    }
}

#[derive(Debug, PartialEq, Eq)]
pub enum LobbyMessage {
    Placeholder,
    ChatSent(u64, String),
    ChatReceived(u64, String),
    Stream(StreamMessage),
    MessageSent(String),
    MessageFailed(String),
}

/// The chat text of a stream message.
pub open spec fn stream_text(m: StreamMessage) -> String {
    match m {
        StreamMessage::Distribute(cm) => cm.content,
    }
}

/// The lobby's state: the chat history shown to the user and the
/// input line being typed.
#[derive(Debug, PartialEq, Eq)]
pub struct LobbyPage {
    pub chat_generation: Option<u64>,
    pub chat_history: Vec<String>,
    pub input: String,
}

/// How the lobby reacts to one message.
pub open spec fn lobby_applied(pre: LobbyPage, post: LobbyPage, message: LobbyMessage) -> bool {
    &&& post.chat_generation == pre.chat_generation
    &&& post.input == pre.input
    &&& post.chat_history@ == match message {
        LobbyMessage::Placeholder => pre.chat_history@,
        LobbyMessage::ChatSent(g, m) => if pre.chat_generation == Some(g) {
            pre.chat_history@.push(m)
        } else {
            pre.chat_history@
        },
        LobbyMessage::ChatReceived(g, m) => if pre.chat_generation == Some(g) {
            pre.chat_history@.push(m)
        } else {
            pre.chat_history@
        },
        LobbyMessage::Stream(m) => pre.chat_history@.push(stream_text(m)),
        LobbyMessage::MessageSent(m) => pre.chat_history@.push(m),
        LobbyMessage::MessageFailed(m) => pre.chat_history@.push(m),
    }
}

impl LobbyPage {
    pub fn new(chat_generation: u64) -> (r: LobbyPage)
        ensures
            r.chat_generation == Some(chat_generation),
            r.chat_history@ == Seq::<String>::empty(),
            r.input@ == Seq::<char>::empty(),
    {
        LobbyPage { chat_generation: Some(chat_generation), chat_history: Vec::new(), input: String::new() }
    }

    /// React to one message: sent, received and failed messages are
    /// appended to the history; generation-tagged echoes are honoured
    /// only for this lobby's session.
    pub fn apply(&mut self, message: LobbyMessage)
        ensures
            lobby_applied(*old(self), *final(self), message),
    {
        match message {
            LobbyMessage::ChatSent(g, m) => {
                if self.chat_generation == Some(g) {
                    self.chat_history.push(m);
                }
            },
            LobbyMessage::ChatReceived(g, m) => {
                if self.chat_generation == Some(g) {
                    self.chat_history.push(m);
                }
            },
            LobbyMessage::MessageSent(m) => {
                self.chat_history.push(m);
            },
            LobbyMessage::MessageFailed(m) => {
                self.chat_history.push(m);
            },
            LobbyMessage::Stream(m) => {
                let StreamMessage::Distribute(cm) = m;
                self.chat_history.push(cm.content);
            },
            LobbyMessage::Placeholder => {},
        }
    }
}

impl Update<LoginMessage> for LoginPage {
    fn update_one(&mut self, message: LoginMessage) {
        let _ = self.apply(message);
    }
}

impl Update<LobbyMessage> for LobbyPage {
    fn update_one(&mut self, message: LobbyMessage) {
        self.apply(message);
    }
}

} // verus!
