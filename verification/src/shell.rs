//! The shell's state: lifecycle, current page, and the routing of
//! application messages.
//!
//! The host window, the channels and the network handle live outside;
//! this model pins down how each message changes the state and which
//! requests (navigation posts, captcha fetches, chat connects) the
//! shell must submit in response.  Times are plain millisecond
//! timestamps handed in by the caller.

use vstd::prelude::*;
use crate::events::StreamMessage;
use crate::pages::{lobby_applied, login_applied, stream_text, FatalPage, LobbyMessage,
    LobbyPage, LoginMessage, LoginPage, Route, ShutdownPage, SignupMessage, SignupPage};

verus! {

/// How often the shell repaints while idle, in milliseconds.
pub const IDLE_POLLING_INTERVAL_MS: u64 = 100;

/// How often the shell repaints while shutting down, in milliseconds.
pub const FAST_POLLING_INTERVAL_MS: u64 = 16;

/// How long the shutdown page stays up before the shell quits, in
/// milliseconds.
pub const EXITING_DEADLINE_MS: u64 = 5000;

/// Logging verbosity selected on the command line.
#[derive(Clone, Copy, Debug, PartialEq, Eq, Structural)]
pub enum LogLevel {
    Trace,
    Debug,
    Info,
    Warn,
    Error,
}

impl LogLevel {
    /// The lowercase name used in filter directives.
    pub fn label(&self) -> (r: &'static str)
        ensures
            r@ == match *self {
                LogLevel::Trace => "trace"@,
                LogLevel::Debug => "debug"@,
                LogLevel::Info => "info"@,
                LogLevel::Warn => "warn"@,
                LogLevel::Error => "error"@,
            },
    {
        match self {
            LogLevel::Trace => "trace",
            LogLevel::Debug => "debug",
            LogLevel::Info => "info",
            LogLevel::Warn => "warn",
            LogLevel::Error => "error",
        }
    }
}

/// The command-line arguments.
#[derive(Clone, Copy, Debug, PartialEq, Eq, Structural)]
pub struct Args {
    pub log_level: LogLevel,
}

impl Default for Args {
    /// The default verbosity is `trace`.
    fn default() -> (r: Args)
        ensures
            r == (Args { log_level: LogLevel::Trace }),
    {
        Args { log_level: LogLevel::Trace }
    }
}

/// Where the shell is in its life.
#[derive(Clone, Copy, Debug, PartialEq, Eq, Structural)]
pub enum Lifecycle {
    PendingQuit,
    QuitingShell,
    Running,
}

/// The page currently shown.
#[derive(Debug, PartialEq, Eq)]
pub enum Page {
    Fatal(FatalPage),
    Lobby(LobbyPage),
    Login(LoginPage),
    Shutdown(ShutdownPage),
    Signup(SignupPage),
}

/// Everything that can arrive on the shell's message bus.
#[derive(Debug, PartialEq, Eq)]
pub enum AppMessage {
    Quit,
    Exiting,
    PlaceHolder,
    Lobby(LobbyMessage),
    Login(LoginMessage),
    Signup(SignupMessage),
    ReqNavigate(Route),
    Stream(StreamMessage),
}

/// A request the shell must carry out after an update step.
#[derive(Debug, PartialEq, Eq)]
pub enum AppAction {
    /// Post this message back onto the shell's own bus.
    Post(AppMessage),
    /// Submit a captcha fetch for the login page just installed, and
    /// hand the returned generation to `note_captcha_request`.
    FetchCaptcha,
    /// Open the chat session with these credentials, and hand the
    /// returned generation to `note_chat_request`.
    ConnectChat { address: String, jwt: String, timeout_ms: u64 },
}

/// The texts carried by a buffer of stream messages, in order.
pub open spec fn stream_texts(msgs: Seq<StreamMessage>) -> Seq<String> {
    msgs.map_values(|m: StreamMessage| stream_text(m))
}

/// The shell's state.
pub struct App {
    pub lifecycle: Lifecycle,
    pub chat_generation: Option<u64>,
    /// Stream messages received while no lobby is shown, replayed into
    /// the next lobby in arrival order.  Bounded; once full, further
    /// messages are dropped.
    pub stream_buffer: Vec<StreamMessage>,
    pub current_page: Page,
    pub polling_interval_ms: u64,
}

/// The capacity of the stream buffer.
pub const STREAM_BUFFER_CAP: usize = 1024;

pub open spec fn same_mode(a: App, b: App) -> bool {
    &&& a.lifecycle == b.lifecycle
    &&& a.polling_interval_ms == b.polling_interval_ms
}

pub open spec fn same_network(a: App, b: App) -> bool {
    &&& a.chat_generation == b.chat_generation
    &&& a.stream_buffer@ == b.stream_buffer@
}

pub open spec fn unchanged(a: App, b: App) -> bool {
    &&& same_mode(a, b)
    &&& same_network(a, b)
    &&& a.current_page == b.current_page
}

/// A login page as freshly constructed, waiting for its captcha
/// request to be noted.
pub open spec fn fresh_login_page(p: LoginPage) -> bool {
    &&& p.username@ == Seq::<char>::empty()
    &&& p.password@ == Seq::<char>::empty()
    &&& p.captcha@ == Seq::<char>::empty()
    &&& p.captcha_generation is None
    &&& p.captcha_id is None
    &&& p.captcha_base64@ == Seq::<char>::empty()
    &&& !p.has_captcha_image
    &&& p.login_generation is None
    &&& p.login_state is None
}

/// What one update step does for a navigation request.
pub open spec fn navigated(pre: App, post: App, route: Route, actions: Seq<AppAction>) -> bool {
    match route {
        Route::LoginPage => {
            &&& same_mode(pre, post)
            &&& same_network(pre, post)
            &&& post.current_page matches Page::Login(p) && fresh_login_page(p)
            &&& actions =~= seq![AppAction::FetchCaptcha]
        },
        Route::SignupPage => {
            &&& same_mode(pre, post)
            &&& same_network(pre, post)
            &&& post.current_page == Page::Signup(SignupPage {  })
            &&& actions =~= Seq::<AppAction>::empty()
        },
        Route::LobbyPage(address, jwt) => {
            &&& unchanged(pre, post)
            &&& actions =~= seq![AppAction::ConnectChat { address, jwt, timeout_ms: 1000 }]
        },
        Route::ChatConnSuccess => {
            &&& same_mode(pre, post)
            &&& same_network(pre, post)
            &&& post.current_page matches Page::Lobby(l) && l.chat_generation == Some(0u64)
                && l.chat_history@ == Seq::<String>::empty() && l.input@ == Seq::<char>::empty()
            &&& actions =~= Seq::<AppAction>::empty()
        },
        Route::ChatConnFailure => {
            &&& unchanged(pre, post)
            &&& actions =~= seq![AppAction::Post(AppMessage::Login(LoginMessage::ChatFailed))]
        },
        _ => unchanged(pre, post) && actions =~= Seq::<AppAction>::empty(),
    }
}

/// What one update step does, for every message.
pub open spec fn app_step(
    pre: App,
    post: App,
    message: AppMessage,
    now_ms: u64,
    actions: Seq<AppAction>,
) -> bool {
    match message {
        AppMessage::PlaceHolder => unchanged(pre, post) && actions
            =~= Seq::<AppAction>::empty(),
        AppMessage::Quit => {
            &&& post.lifecycle == Lifecycle::QuitingShell
            &&& post.polling_interval_ms == pre.polling_interval_ms
            &&& same_network(pre, post)
            &&& post.current_page == pre.current_page
            &&& actions =~= Seq::<AppAction>::empty()
        },
        AppMessage::Exiting => {
            &&& post.lifecycle == Lifecycle::PendingQuit
            &&& post.polling_interval_ms == FAST_POLLING_INTERVAL_MS
            &&& same_network(pre, post)
            &&& post.current_page == Page::Shutdown(ShutdownPage {
                deadline: (now_ms + EXITING_DEADLINE_MS) as u64,
            })
            &&& actions =~= Seq::<AppAction>::empty()
        },
        AppMessage::Lobby(m) => {
            &&& (pre.current_page matches Page::Lobby(l)) ==> {
                &&& post.current_page matches Page::Lobby(l2) && lobby_applied(
                    pre.current_page->Lobby_0,
                    l2,
                    m,
                )
                &&& same_mode(pre, post)
                &&& same_network(pre, post)
            }
            &&& !(pre.current_page matches Page::Lobby(l)) ==> unchanged(pre, post)
            &&& actions =~= Seq::<AppAction>::empty()
        },
        AppMessage::Login(m) => {
            &&& (pre.current_page matches Page::Login(l)) ==> {
                &&& post.current_page is Login
                &&& same_mode(pre, post)
                &&& same_network(pre, post)
                &&& exists|nav: Option<Route>|
                    {
                        &&& #[trigger] login_applied(
                            pre.current_page->Login_0,
                            post.current_page->Login_0,
                            m,
                            nav,
                        )
                        &&& actions =~= match nav {
                            Some(r) => seq![AppAction::Post(AppMessage::ReqNavigate(r))],
                            None => Seq::<AppAction>::empty(),
                        }
                    }
            }
            &&& !(pre.current_page matches Page::Login(l)) ==> unchanged(pre, post) && actions
                =~= Seq::<AppAction>::empty()
        },
        AppMessage::Signup(m) => unchanged(pre, post) && actions =~= Seq::<AppAction>::empty(),
        AppMessage::ReqNavigate(route) => navigated(pre, post, route, actions),
        AppMessage::Stream(m) => {
            &&& (pre.current_page matches Page::Lobby(l)) ==> {
                &&& post.current_page matches Page::Lobby(l2) && {
                    let l = pre.current_page->Lobby_0;
                    &&& l2.chat_generation == l.chat_generation
                    &&& l2.input == l.input
                    &&& l2.chat_history@ == l.chat_history@ + stream_texts(
                        pre.stream_buffer@,
                    ) + seq![stream_text(m)]
                }
                &&& post.stream_buffer@ == Seq::<StreamMessage>::empty()
                &&& same_mode(pre, post)
                &&& post.chat_generation == pre.chat_generation
            }
            &&& !(pre.current_page matches Page::Lobby(l)) ==> {
                &&& same_mode(pre, post)
                &&& post.current_page == pre.current_page
                &&& post.chat_generation == pre.chat_generation
                &&& post.stream_buffer@ == if pre.stream_buffer@.len() < STREAM_BUFFER_CAP as int {
                    pre.stream_buffer@.push(m)
                } else {
                    pre.stream_buffer@
                }
            }
            &&& actions =~= Seq::<AppAction>::empty()
        },
    }
}

/// Replay buffered stream messages into a lobby, oldest first, and
/// empty the buffer.
fn drain_stream_buffer(lobby: &mut LobbyPage, buffer: &mut Vec<StreamMessage>)
    ensures
        final(buffer)@ == Seq::<StreamMessage>::empty(),
        final(lobby).chat_generation == old(lobby).chat_generation,
        final(lobby).input == old(lobby).input,
        final(lobby).chat_history@ == old(lobby).chat_history@ + stream_texts(old(buffer)@),
{
    let ghost buf0 = buffer@;
    let mut rev: Vec<StreamMessage> = Vec::new();
    while buffer.len() > 0
        invariant
            buffer@.len() <= buf0.len(),
            buffer@ =~= buf0.take(buffer@.len() as int),
            rev@ =~= buf0.skip(buffer@.len() as int).reverse(),
        decreases buffer@.len(),
    {
        let ghost k = buffer@.len() as int;
        let m = buffer.pop().unwrap();
        rev.push(m);
        proof {
            assert(buf0.take(k).drop_last() =~= buf0.take(k - 1));
            assert(buf0.take(k).last() == buf0[k - 1]);
            assert(buf0.skip(k - 1).reverse() =~= buf0.skip(k).reverse().push(buf0[k - 1]));
        }
    }
    let ghost n0 = buf0.len() as int;
    while rev.len() > 0
        invariant
            rev@ =~= buf0.skip(n0 - rev@.len()).reverse(),
            lobby.chat_generation == old(lobby).chat_generation,
            lobby.input == old(lobby).input,
            lobby.chat_history@ =~= old(lobby).chat_history@ + stream_texts(
                buf0.take(n0 - rev@.len()),
            ),
            n0 == buf0.len(),
            rev@.len() <= n0,
        decreases rev@.len(),
    {
        let ghost k = rev@.len() as int;
        let ghost j = n0 - k;
        let m = rev.pop().unwrap();
        proof {
            assert(buf0.skip(j).reverse().last() == buf0.skip(j)[0]);
            assert(buf0.skip(j)[0] == buf0[j]);
            assert(buf0.skip(j).reverse().drop_last() =~= buf0.skip(j + 1).reverse());
        }
        lobby.apply(LobbyMessage::Stream(m));
        proof {
            assert(stream_texts(buf0.take(j + 1)) =~= stream_texts(buf0.take(j)).push(
                stream_text(buf0[j]),
            ));
            assert(old(lobby).chat_history@ + stream_texts(buf0.take(j + 1)) =~= (old(
                lobby,
            ).chat_history@ + stream_texts(buf0.take(j))).push(stream_text(buf0[j])));
        }
    }
    proof {
        assert(buf0.take(n0) =~= buf0);
        assert(buffer@ =~= Seq::<StreamMessage>::empty());
    }
}

impl App {
    /// A freshly started shell: running, idle polling, showing the
    /// login page.  The shell submits the initial captcha request and
    /// hands in the generation it was given.
    pub fn new(captcha_generation: Option<u64>) -> (r: App)
        ensures
            r.lifecycle == Lifecycle::Running,
            r.chat_generation is None,
            r.stream_buffer@ == Seq::<StreamMessage>::empty(),
            r.polling_interval_ms == IDLE_POLLING_INTERVAL_MS,
            r.current_page matches Page::Login(p) && p.captcha_generation == captcha_generation
                && p.login_state is None && p.login_generation is None,
    {
        App {
            lifecycle: Lifecycle::Running,
            chat_generation: None,
            stream_buffer: Vec::new(),
            current_page: Page::Login(LoginPage::new(captcha_generation)),
            polling_interval_ms: IDLE_POLLING_INTERVAL_MS,
        }
    }

    /// A shell that starts on the terminal error page.
    pub fn new_fatal() -> (r: App)
        ensures
            r.lifecycle == Lifecycle::Running,
            r.chat_generation is None,
            r.stream_buffer@ == Seq::<StreamMessage>::empty(),
            r.polling_interval_ms == IDLE_POLLING_INTERVAL_MS,
            r.current_page matches Page::Fatal(p) && p.message_view() == "fatal error"@,
    {
        App {
            lifecycle: Lifecycle::Running,
            chat_generation: None,
            stream_buffer: Vec::new(),
            current_page: Page::Fatal(FatalPage::new("fatal error".to_owned())),
            polling_interval_ms: IDLE_POLLING_INTERVAL_MS,
        }
    }

    /// Begin the graceful shutdown: switch to the countdown page and
    /// poll fast until the deadline.
    pub fn shutdown(&mut self, now_ms: u64)
        requires
            now_ms <= u64::MAX - EXITING_DEADLINE_MS,
        ensures
            final(self).lifecycle == Lifecycle::PendingQuit,
            final(self).polling_interval_ms == FAST_POLLING_INTERVAL_MS,
            final(self).current_page == Page::Shutdown(ShutdownPage {
                deadline: (now_ms + EXITING_DEADLINE_MS) as u64,
            }),
            same_network(*old(self), *final(self)),
    {
        self.lifecycle = Lifecycle::PendingQuit;
        self.current_page = Page::Shutdown(ShutdownPage::new(now_ms + EXITING_DEADLINE_MS));
        self.polling_interval_ms = FAST_POLLING_INTERVAL_MS;
    }

    pub fn polling_interval(&self) -> (r: u64)
        returns
            self.polling_interval_ms,
    {
        self.polling_interval_ms
    }

    /// Internal events the shell raises on its own: once the shutdown
    /// deadline has passed, quit.
    pub fn poll_internal_events(&self, now_ms: u64) -> (messages: Vec<AppMessage>)
        ensures
            messages@ =~= if self.current_page matches Page::Shutdown(p)
                && now_ms >= p.deadline {
                seq![AppMessage::Quit]
            } else {
                Seq::<AppMessage>::empty()
            },
    {
        let mut messages: Vec<AppMessage> = Vec::new();
        if let Page::Shutdown(inner) = &self.current_page {
            if now_ms >= inner.get_deadline() {
                messages.push(AppMessage::Quit);
            }
        }
        messages
    }

    /// The shell performed a captcha fetch for the login page; record
    /// the generation so its result is honoured.
    pub fn note_captcha_request(&mut self, generation: Option<u64>)
        ensures
            same_mode(*old(self), *final(self)),
            same_network(*old(self), *final(self)),
            (old(self).current_page matches Page::Login(l)) ==> final(self).current_page
                == Page::Login(LoginPage {
                captcha_generation: generation,
                ..old(self).current_page->Login_0
            }),
            !(old(self).current_page matches Page::Login(l)) ==> final(self).current_page == old(
                self,
            ).current_page,
    {
        let mut page = Page::Signup(SignupPage::new());
        std::mem::swap(&mut page, &mut self.current_page);
        match page {
            Page::Login(mut l) => {
                l.captcha_generation = generation;
                self.current_page = Page::Login(l);
            },
            other => {
                self.current_page = other;
            },
        }
    }

    /// The shell performed a login request; record the generation.
    pub fn note_login_request(&mut self, generation: Option<u64>)
        ensures
            same_mode(*old(self), *final(self)),
            same_network(*old(self), *final(self)),
            (old(self).current_page matches Page::Login(l)) ==> final(self).current_page
                == Page::Login(LoginPage {
                login_generation: generation,
                login_state: Some(crate::pages::LoginState::RequestSent),
                ..old(self).current_page->Login_0
            }),
            !(old(self).current_page matches Page::Login(l)) ==> final(self).current_page == old(
                self,
            ).current_page,
    {
        let mut page = Page::Signup(SignupPage::new());
        std::mem::swap(&mut page, &mut self.current_page);
        match page {
            Page::Login(mut l) => {
                l.login_generation = generation;
                l.login_state = Some(crate::pages::LoginState::RequestSent);
                self.current_page = Page::Login(l);
            },
            other => {
                self.current_page = other;
            },
        }
    }

    /// The shell opened (or failed to open) the chat session; record
    /// the generation of the connect request.
    pub fn note_chat_request(&mut self, generation: Option<u64>)
        ensures
            same_mode(*old(self), *final(self)),
            final(self).current_page == old(self).current_page,
            final(self).stream_buffer@ == old(self).stream_buffer@,
            final(self).chat_generation == generation,
    {
        self.chat_generation = generation;
    }

    /// Apply one message from the bus, at shell time `now_ms`, and
    /// return the requests the shell must carry out.
    pub fn update_one(&mut self, message: AppMessage, now_ms: u64) -> (actions: Vec<AppAction>)
        requires
            now_ms <= u64::MAX - EXITING_DEADLINE_MS,
        ensures
            app_step(*old(self), *final(self), message, now_ms, actions@),
    {
        let mut actions: Vec<AppAction> = Vec::new();
        match message {
            AppMessage::PlaceHolder => {},
            AppMessage::Exiting => {
                self.shutdown(now_ms);
            },
            AppMessage::Quit => {
                self.lifecycle = Lifecycle::QuitingShell;
            },
            AppMessage::Lobby(m) => {
                let mut page = Page::Signup(SignupPage::new());
                std::mem::swap(&mut page, &mut self.current_page);
                match page {
                    Page::Lobby(mut l) => {
                        l.apply(m);
                        self.current_page = Page::Lobby(l);
                    },
                    other => {
                        self.current_page = other;
                    },
                }
            },
            AppMessage::Login(m) => {
                let mut page = Page::Signup(SignupPage::new());
                std::mem::swap(&mut page, &mut self.current_page);
                match page {
                    Page::Login(mut l) => {
                        let navigate = l.apply(m);
                        self.current_page = Page::Login(l);
                        if let Some(route) = navigate {
                            actions.push(AppAction::Post(AppMessage::ReqNavigate(route)));
                        }
                    },
                    other => {
                        self.current_page = other;
                    },
                }
            },
            AppMessage::Signup(_m) => {},
            AppMessage::ReqNavigate(route) => {
                match route {
                    Route::LoginPage => {
                        self.current_page = Page::Login(LoginPage::new(None));
                        actions.push(AppAction::FetchCaptcha);
                    },
                    Route::SignupPage => {
                        self.current_page = Page::Signup(SignupPage::new());
                    },
                    Route::LobbyPage(address, jwt) => {
                        actions.push(AppAction::ConnectChat { address, jwt, timeout_ms: 1000 });
                    },
                    Route::ChatConnSuccess => {
                        self.current_page = Page::Lobby(LobbyPage::new(0u64));
                    },
                    Route::ChatConnFailure => {
                        actions.push(
                            AppAction::Post(AppMessage::Login(LoginMessage::ChatFailed)),
                        );
                    },
                    _ => {},
                }
            },
            AppMessage::Stream(m) => {
                let mut page = Page::Signup(SignupPage::new());
                std::mem::swap(&mut page, &mut self.current_page);
                match page {
                    Page::Lobby(mut l) => {
                        drain_stream_buffer(&mut l, &mut self.stream_buffer);
                        l.apply(LobbyMessage::Stream(m));
                        proof {
                            assert(l.chat_history@ =~= old(self).current_page->Lobby_0
                                .chat_history@ + stream_texts(old(self).stream_buffer@) + seq![
                                stream_text(m),
                            ]);
                        }
                        self.current_page = Page::Lobby(l);
                    },
                    other => {
                        self.current_page = other;
                        if self.stream_buffer.len() < STREAM_BUFFER_CAP {
                            self.stream_buffer.push(m);
                        }
                    },
                }
            },
        }
        actions
    }
}

} // verus!
