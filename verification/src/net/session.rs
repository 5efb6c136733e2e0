//! The client's side of a library session, message by message.

use vstd::prelude::*;
use vstd::string::*;

use crate::app::flow::RemoteEvent;
use crate::net::protocol::{entries, CatalogEntry, Message, MessageView};
use crate::net::server::{etag_of, etag_text, Transfer};
use crate::order::views;
use crate::path::{file_stem, join, joined, parent, parent_of, stem_of};
use crate::soulseek::opt_view;
use crate::text::same_text;

verus! {

/// The name that this client greets with.
pub open spec fn client_name_text() -> Seq<char> {
    "staccato"@
}

/// What the player asks of a session.
#[derive(Debug)]
pub enum RemoteCommand {
    Pair(String),
    Fetch { remote_id: String, file_size: u64, etag: String },
    FetchCover { remote_id: String },
    Disconnect,
    Rescan,
}

/// What a command says.
pub enum CommandView {
    Pair(Seq<char>),
    Fetch { remote_id: Seq<char>, file_size: u64, etag: Seq<char> },
    FetchCover { remote_id: Seq<char> },
    Disconnect,
    Rescan,
}

impl View for RemoteCommand {
    type V = CommandView;

    open spec fn view(&self) -> CommandView {
        match self {
            RemoteCommand::Pair(code) => CommandView::Pair(code@),
            RemoteCommand::Fetch { remote_id, file_size, etag } => CommandView::Fetch {
                remote_id: remote_id@,
                file_size: *file_size,
                etag: etag@,
            },
            RemoteCommand::FetchCover { remote_id } => CommandView::FetchCover {
                remote_id: remote_id@,
            },
            RemoteCommand::Disconnect => CommandView::Disconnect,
            RemoteCommand::Rescan => CommandView::Rescan,
        }
    }
}

/// What happens to a session.
#[derive(Debug)]
pub enum SessionEvent {
    /// The connection stands; the fingerprint is the certificate's, where there was one.
    Opened { fingerprint: Option<String> },
    Message(Message),
    /// No message could be read: what went wrong, and that with its causes.
    Unreadable { error: String, chain: String },
    /// A message could not be sent.
    Unsent { error: String },
    Command(RemoteCommand),
    /// Nobody can give commands any more.
    CommandsGone,
}

/// What happens to a session.
pub enum SessionEventView {
    Opened { fingerprint: Option<Seq<char>> },
    Message(MessageView),
    Unreadable { error: Seq<char>, chain: Seq<char> },
    Unsent { error: Seq<char> },
    Command(CommandView),
    CommandsGone,
}

impl View for SessionEvent {
    type V = SessionEventView;

    open spec fn view(&self) -> SessionEventView {
        match self {
            SessionEvent::Opened { fingerprint } => SessionEventView::Opened {
                fingerprint: opt_view(*fingerprint),
            },
            SessionEvent::Message(message) => SessionEventView::Message(message@),
            SessionEvent::Unreadable { error, chain } => SessionEventView::Unreadable {
                error: error@,
                chain: chain@,
            },
            SessionEvent::Unsent { error } => SessionEventView::Unsent { error: error@ },
            SessionEvent::Command(command) => SessionEventView::Command(command@),
            SessionEvent::CommandsGone => SessionEventView::CommandsGone,
        }
    }
}

/// What a session does next.
#[derive(Debug)]
pub enum SessionAction {
    Send(Message),
    Emit(RemoteEvent),
    Fetch { remote_id: String, file_size: u64, etag: String },
    FetchCover { remote_id: String },
    /// Close the connection in good order.
    Close,
}

/// What the player is told.
pub enum ToldView {
    Connected {
        server_name: Seq<char>,
        fingerprint: Seq<char>,
        revision: u64,
        pair_required: bool,
    },
    Paired { token: Seq<char>, fingerprint: Seq<char> },
    Catalog {
        revision: u64,
        tracks: Seq<CatalogEntry>,
        removed: Seq<Seq<char>>,
        replace: bool,
    },
    Error(Seq<char>),
    Disconnected,
    Other,
}

pub open spec fn told(event: RemoteEvent) -> ToldView {
    match event {
        RemoteEvent::Connected { server_name, fingerprint, revision, pair_required } =>
            ToldView::Connected {
            server_name: server_name@,
            fingerprint: fingerprint@,
            revision,
            pair_required,
        },
        RemoteEvent::Paired { token, fingerprint } => ToldView::Paired {
            token: token@,
            fingerprint: fingerprint@,
        },
        RemoteEvent::Catalog { revision, tracks, removed, replace } => ToldView::Catalog {
            revision,
            tracks: entries(tracks@),
            removed: views(removed@),
            replace,
        },
        RemoteEvent::Error(error) => ToldView::Error(error@),
        RemoteEvent::Disconnected => ToldView::Disconnected,
        _ => ToldView::Other,
    }
}

/// What a session does next.
pub enum SessionActionView {
    Send(MessageView),
    Emit(ToldView),
    Fetch { remote_id: Seq<char>, file_size: u64, etag: Seq<char> },
    FetchCover { remote_id: Seq<char> },
    Close,
}

impl View for SessionAction {
    type V = SessionActionView;

    open spec fn view(&self) -> SessionActionView {
        match self {
            SessionAction::Send(message) => SessionActionView::Send(message@),
            SessionAction::Emit(event) => SessionActionView::Emit(told(*event)),
            SessionAction::Fetch { remote_id, file_size, etag } => SessionActionView::Fetch {
                remote_id: remote_id@,
                file_size: *file_size,
                etag: etag@,
            },
            SessionAction::FetchCover { remote_id } => SessionActionView::FetchCover {
                remote_id: remote_id@,
            },
            SessionAction::Close => SessionActionView::Close,
        }
    }
}

pub open spec fn action_views(actions: Seq<SessionAction>) -> Seq<SessionActionView> {
    actions.map_values(|action: SessionAction| action@)
}

/// How far a session has come.
#[derive(Clone, Copy, Debug, PartialEq, Eq, Structural)]
pub enum SessionPhase {
    Opening,
    Greeting,
    Running,
    Over,
}

/// A session with a server.
#[derive(Debug)]
pub struct Session {
    pub phase: SessionPhase,
    pub token: Option<String>,
    pub fingerprint: String,
}

/// What is known of a session.
pub struct SessionView {
    pub phase: SessionPhase,
    pub token: Option<Seq<char>>,
    pub fingerprint: Seq<char>,
}

impl View for Session {
    type V = SessionView;

    open spec fn view(&self) -> SessionView {
        SessionView {
            phase: self.phase,
            token: opt_view(self.token),
            fingerprint: self.fingerprint@,
        }
    }
}

/// A session after an event, and what it does.
pub type SessionStep = (SessionView, Seq<SessionActionView>);

pub open spec fn ask_catalog() -> SessionActionView {
    SessionActionView::Send(MessageView::GetCatalog { since_revision: None })
}

impl SessionView {
    pub open spec fn in_phase(self, phase: SessionPhase) -> SessionView {
        SessionView { phase, ..self }
    }

    /// The session broken off over an error.
    pub open spec fn failed(self, error: Seq<char>) -> SessionStep {
        (
            self.in_phase(SessionPhase::Over),
            seq![
                SessionActionView::Emit(ToldView::Error(error)),
                SessionActionView::Emit(ToldView::Disconnected),
            ],
        )
    }

    /// The session ended in good order.
    pub open spec fn closed(self) -> SessionStep {
        (
            self.in_phase(SessionPhase::Over),
            seq![SessionActionView::Close, SessionActionView::Emit(ToldView::Disconnected)],
        )
    }

    /// The connection stands.
    pub open spec fn opened(self, fingerprint: Option<Seq<char>>) -> SessionStep {
        match fingerprint {
            Some(fingerprint) => (
                SessionView { phase: SessionPhase::Greeting, fingerprint, ..self },
                seq![
                    SessionActionView::Send(
                        MessageView::Hello { client_name: client_name_text(), token: self.token },
                    ),
                ],
            ),
            None => self.failed("server did not present a certificate"@),
        }
    }

    /// The answer to the greeting.
    pub open spec fn greeted(self, message: MessageView) -> SessionStep {
        match message {
            MessageView::Welcome { server_name, library_revision, pair_required, fingerprint } =>
                if fingerprint != self.fingerprint {
                    self.failed("welcome fingerprint does not match TLS certificate"@)
                } else {
                    let connected = SessionActionView::Emit(
                        ToldView::Connected {
                            server_name,
                            fingerprint: self.fingerprint,
                            revision: library_revision,
                            pair_required,
                        },
                    );
                    (
                        self.in_phase(SessionPhase::Running),
                        if pair_required {
                            seq![connected]
                        } else {
                            seq![connected, ask_catalog()]
                        },
                    )
                },
            _ => self.failed("server did not send welcome"@),
        }
    }

    /// A message in the course of the session.
    pub open spec fn received(self, message: MessageView) -> SessionStep {
        (
            self,
            match message {
                MessageView::Paired { token } => seq![
                    SessionActionView::Emit(
                        ToldView::Paired { token, fingerprint: self.fingerprint },
                    ),
                    ask_catalog(),
                ],
                MessageView::Catalog { revision, tracks, removed, replace } => seq![
                    SessionActionView::Emit(
                        ToldView::Catalog { revision, tracks, removed, replace },
                    ),
                ],
                MessageView::LibraryChanged { .. } => seq![ask_catalog()],
                MessageView::Error { message, .. } => seq![
                    SessionActionView::Emit(ToldView::Error(message)),
                ],
                _ => Seq::empty(),
            },
        )
    }

    /// A command in the course of the session.
    pub open spec fn commanded(self, command: CommandView) -> SessionStep {
        match command {
            CommandView::Pair(code) => (
                self,
                seq![SessionActionView::Send(MessageView::Pair { code })],
            ),
            CommandView::Fetch { remote_id, file_size, etag } => (
                self,
                seq![SessionActionView::Fetch { remote_id, file_size, etag }],
            ),
            CommandView::FetchCover { remote_id } => (
                self,
                seq![SessionActionView::FetchCover { remote_id }],
            ),
            CommandView::Rescan => (self, seq![SessionActionView::Send(MessageView::Rescan)]),
            CommandView::Disconnect => self.closed(),
        }
    }

    /// The session after an event, and what it does.
    pub open spec fn stepped(self, event: SessionEventView) -> SessionStep {
        match (self.phase, event) {
            (SessionPhase::Over, _) => (self, Seq::empty()),
            (_, SessionEventView::Unsent { error }) => self.failed(error),
            (SessionPhase::Opening, SessionEventView::Opened { fingerprint }) => self.opened(
                fingerprint,
            ),
            (SessionPhase::Opening, SessionEventView::Unreadable { error, .. }) => self.failed(
                error,
            ),
            (SessionPhase::Greeting, SessionEventView::Message(message)) => self.greeted(message),
            (SessionPhase::Greeting, SessionEventView::Unreadable { error, .. }) => self.failed(
                error,
            ),
            (SessionPhase::Running, SessionEventView::Message(message)) => self.received(message),
            (SessionPhase::Running, SessionEventView::Unreadable { chain, .. }) => (
                self.in_phase(SessionPhase::Over),
                seq![
                    SessionActionView::Emit(ToldView::Error("connection dropped: "@ + chain)),
                    SessionActionView::Close,
                    SessionActionView::Emit(ToldView::Disconnected),
                ],
            ),
            (SessionPhase::Running, SessionEventView::Command(command)) => self.commanded(command),
            (SessionPhase::Running, SessionEventView::CommandsGone) => self.closed(),
            _ => (self, Seq::empty()),
        }
    }
}

fn catalog_request() -> (action: SessionAction)
    ensures
        action@ == ask_catalog(),
{
    SessionAction::Send(Message::GetCatalog { since_revision: None })
}

impl Session {
    /// A session that is about to be opened; `token` is what the server gave out before.
    pub fn new(token: Option<String>) -> (session: Session)
        ensures
            session@ == (SessionView {
                phase: SessionPhase::Opening,
                token: opt_view(token),
                fingerprint: Seq::empty(),
            }),
    {
        let session = Session { phase: SessionPhase::Opening, token, fingerprint: String::new() };
        assert(session@.fingerprint =~= Seq::empty());
        session
    }

    fn fail(&mut self, error: String) -> (actions: Vec<SessionAction>)
        ensures
            (final(self)@, action_views(actions@)) == old(self)@.failed(error@),
    {
        self.phase = SessionPhase::Over;
        let mut actions: Vec<SessionAction> = Vec::new();
        actions.push(SessionAction::Emit(RemoteEvent::Error(error)));
        actions.push(SessionAction::Emit(RemoteEvent::Disconnected));
        assert(action_views(actions@) =~= old(self)@.failed(error@).1);
        actions
    }

    fn close(&mut self) -> (actions: Vec<SessionAction>)
        ensures
            (final(self)@, action_views(actions@)) == old(self)@.closed(),
    {
        self.phase = SessionPhase::Over;
        let mut actions: Vec<SessionAction> = Vec::new();
        actions.push(SessionAction::Close);
        actions.push(SessionAction::Emit(RemoteEvent::Disconnected));
        assert(action_views(actions@) =~= old(self)@.closed().1);
        actions
    }

    fn open(&mut self, fingerprint: Option<String>) -> (actions: Vec<SessionAction>)
        ensures
            (final(self)@, action_views(actions@)) == old(self)@.opened(opt_view(fingerprint)),
    {
        match fingerprint {
            Some(fingerprint) => {
                self.phase = SessionPhase::Greeting;
                self.fingerprint = fingerprint;
                let token = match &self.token {
                    Some(token) => Some(token.clone()),
                    None => None,
                };
                let mut actions: Vec<SessionAction> = Vec::new();
                let hello = Message::Hello { client_name: "staccato".to_owned(), token };
                actions.push(SessionAction::Send(hello));
                assert(action_views(actions@) =~= old(self)@.opened(Some(self.fingerprint@)).1);
                actions
            },
            None => self.fail("server did not present a certificate".to_owned()),
        }
    }

    fn greet(&mut self, message: Message) -> (actions: Vec<SessionAction>)
        ensures
            (final(self)@, action_views(actions@)) == old(self)@.greeted(message@),
    {
        match message {
            Message::Welcome { server_name, library_revision, pair_required, fingerprint } => {
                if !same_text(&fingerprint, &self.fingerprint) {
                    return self.fail(
                        "welcome fingerprint does not match TLS certificate".to_owned(),
                    );
                }
                self.phase = SessionPhase::Running;
                let mut actions: Vec<SessionAction> = Vec::new();
                actions.push(
                    SessionAction::Emit(
                        RemoteEvent::Connected {
                            server_name,
                            fingerprint: self.fingerprint.clone(),
                            revision: library_revision,
                            pair_required,
                        },
                    ),
                );
                if !pair_required {
                    actions.push(catalog_request());
                }
                assert(action_views(actions@) =~= old(self)@.greeted(message@).1);
                actions
            },
            _ => self.fail("server did not send welcome".to_owned()),
        }
    }

    fn receive(&self, message: Message) -> (actions: Vec<SessionAction>)
        ensures
            action_views(actions@) == self@.received(message@).1,
    {
        let mut actions: Vec<SessionAction> = Vec::new();
        match message {
            Message::Paired { token } => {
                let fingerprint = self.fingerprint.clone();
                actions.push(SessionAction::Emit(RemoteEvent::Paired { token, fingerprint }));
                actions.push(catalog_request());
            },
            Message::Catalog { revision, tracks, removed, replace } => {
                actions.push(
                    SessionAction::Emit(
                        RemoteEvent::Catalog { revision, tracks, removed, replace },
                    ),
                );
            },
            Message::LibraryChanged { .. } => {
                actions.push(catalog_request());
            },
            Message::Error { message, .. } => {
                actions.push(SessionAction::Emit(RemoteEvent::Error(message)));
            },
            _ => {},
        }
        assert(action_views(actions@) =~= self@.received(message@).1);
        actions
    }

    fn command(&mut self, command: RemoteCommand) -> (actions: Vec<SessionAction>)
        ensures
            (final(self)@, action_views(actions@)) == old(self)@.commanded(command@),
    {
        let mut actions: Vec<SessionAction> = Vec::new();
        match command {
            RemoteCommand::Pair(code) => {
                actions.push(SessionAction::Send(Message::Pair { code }));
            },
            RemoteCommand::Fetch { remote_id, file_size, etag } => {
                actions.push(SessionAction::Fetch { remote_id, file_size, etag });
            },
            RemoteCommand::FetchCover { remote_id } => {
                actions.push(SessionAction::FetchCover { remote_id });
            },
            RemoteCommand::Rescan => {
                actions.push(SessionAction::Send(Message::Rescan));
            },
            RemoteCommand::Disconnect => {
                return self.close();
            },
        }
        assert(action_views(actions@) =~= old(self)@.commanded(command@).1);
        actions
    }

    /// Takes an event in, and says what to do.
    pub fn step(&mut self, event: SessionEvent) -> (actions: Vec<SessionAction>)
        ensures
            (final(self)@, action_views(actions@)) == old(self)@.stepped(event@),
    {
        let none: Vec<SessionAction> = Vec::new();
        assert(action_views(none@) =~= Seq::empty());
        match (self.phase, event) {
            (SessionPhase::Over, _) => none,
            (_, SessionEvent::Unsent { error }) => self.fail(error),
            (SessionPhase::Opening, SessionEvent::Opened { fingerprint }) => self.open(fingerprint),
            (SessionPhase::Opening, SessionEvent::Unreadable { error, .. }) => self.fail(error),
            (SessionPhase::Greeting, SessionEvent::Message(message)) => self.greet(message),
            (SessionPhase::Greeting, SessionEvent::Unreadable { error, .. }) => self.fail(error),
            (SessionPhase::Running, SessionEvent::Message(message)) => self.receive(message),
            (SessionPhase::Running, SessionEvent::Unreadable { chain, .. }) => {
                self.phase = SessionPhase::Over;
                let mut text = "connection dropped: ".to_owned();
                text.append(&chain);
                let mut actions: Vec<SessionAction> = Vec::new();
                actions.push(SessionAction::Emit(RemoteEvent::Error(text)));
                actions.push(SessionAction::Close);
                actions.push(SessionAction::Emit(RemoteEvent::Disconnected));
                assert(action_views(actions@) =~= old(self)@.stepped(event@).1);
                actions
            },
            (SessionPhase::Running, SessionEvent::Command(command)) => self.command(command),
            (SessionPhase::Running, SessionEvent::CommandsGone) => self.close(),
            _ => none,
        }
    }
}

/// A session that ends says so last, and says so once: afterwards it does nothing.
pub proof fn law_ended_sessions_say_so(
    session: SessionView,
    event: SessionEventView,
    later: SessionEventView,
)
    requires
        session.phase != SessionPhase::Over,
        session.stepped(event).0.phase == SessionPhase::Over,
    ensures
        session.stepped(event).1.len() > 0,
        session.stepped(event).1.last() == SessionActionView::Emit(ToldView::Disconnected),
        session.stepped(event).0.stepped(later) == (
            session.stepped(event).0,
            Seq::<SessionActionView>::empty(),
        ),
{
}

/// A server whose welcome names another certificate than it showed is never used: the session
/// ends without asking it for anything.
pub proof fn law_impostors_are_dropped(session: SessionView, welcome: MessageView)
    requires
        session.phase == SessionPhase::Greeting,
        welcome matches MessageView::Welcome { fingerprint, .. } && fingerprint
            != session.fingerprint,
    ensures
        session.stepped(SessionEventView::Message(welcome)).0.phase == SessionPhase::Over,
        forall|i: int|
            0 <= i < session.stepped(SessionEventView::Message(welcome)).1.len()
                ==> !(#[trigger] session.stepped(SessionEventView::Message(welcome)).1[i] is Send),
{
}

/// The catalog is asked for as soon as the server lets the client in: right after the welcome
/// where no pairing is needed, else right after the pairing.
pub proof fn law_catalog_follows_admission(session: SessionView, message: MessageView)
    requires
        session.phase == SessionPhase::Greeting ==> (message matches MessageView::Welcome {
            pair_required,
            fingerprint,
            ..
        } && !pair_required && fingerprint == session.fingerprint),
        session.phase == SessionPhase::Running ==> message is Paired,
        session.phase == SessionPhase::Greeting || session.phase == SessionPhase::Running,
    ensures
        session.stepped(SessionEventView::Message(message)).1.last() == ask_catalog(),
{
}

/// Why something came to nothing: the text begins so, and goes on with the message where there
/// is one.
#[derive(Debug)]
pub struct Failure {
    pub text: String,
    pub about: Option<Message>,
}

impl Failure {
    /// Whether this is the failure with this text, about this message.
    pub open spec fn says(self, text: Seq<char>, about: Option<MessageView>) -> bool {
        self.text@ == text && about == match self.about {
            Some(message) => Some(message@),
            None => None,
        }
    }

    fn plain(text: &str) -> (failure: Failure)
        ensures
            failure.says(text@, None),
    {
        Failure { text: text.to_owned(), about: None }
    }

    fn unexpected(text: &str, message: Message) -> (failure: Failure)
        ensures
            failure.says(text@, Some(message@)),
    {
        Failure { text: text.to_owned(), about: Some(message) }
    }
}

/// What one look at a server brought.
#[derive(Debug)]
pub struct ConnectReport {
    pub server_name: String,
    pub fingerprint: String,
    pub revision: u64,
    pub tracks: usize,
    pub token: Option<String>,
}

/// A track to fetch.
#[derive(Debug)]
pub struct FetchRequest {
    pub remote_id: String,
    pub file_size: u64,
    pub etag: String,
}

/// How far one look at a server has come.
#[derive(Debug)]
pub enum OncePhase {
    Opening,
    Greeting,
    Pairing,
    Listing,
    Over,
}

/// One look at a server: greet, pair where that is needed, list the library.
#[derive(Debug)]
pub struct ConnectOnce {
    pub phase: OncePhase,
    pub code: Option<String>,
    pub token: Option<String>,
    pub fingerprint: String,
    pub server_name: String,
    pub revision: u64,
}

/// What one look at a server knows.
pub struct OnceView {
    pub phase: OncePhase,
    pub code: Option<Seq<char>>,
    pub token: Option<Seq<char>>,
    pub fingerprint: Seq<char>,
    pub server_name: Seq<char>,
    pub revision: u64,
}

impl View for ConnectOnce {
    type V = OnceView;

    open spec fn view(&self) -> OnceView {
        OnceView {
            phase: self.phase,
            code: opt_view(self.code),
            token: opt_view(self.token),
            fingerprint: self.fingerprint@,
            server_name: self.server_name@,
            revision: self.revision,
        }
    }
}

/// What one look at a server does next.
#[derive(Debug)]
pub enum OnceStep {
    Send(Message),
    Finish { report: ConnectReport, first: Option<FetchRequest> },
    Fail(Failure),
}

/// Whether a step sends a message.
pub open spec fn sends(step: OnceStep, message: MessageView) -> bool {
    step matches OnceStep::Send(sent) && sent@ == message
}

/// Whether a step fails so.
pub open spec fn fails(step: OnceStep, text: Seq<char>, about: Option<MessageView>) -> bool {
    step matches OnceStep::Fail(failure) && failure.says(text, about)
}

pub open spec fn get_catalog() -> MessageView {
    MessageView::GetCatalog { since_revision: None }
}

impl OnceView {
    pub open spec fn in_phase(self, phase: OncePhase) -> OnceView {
        OnceView { phase, ..self }
    }

    /// The connection stands.
    pub open spec fn opened(
        self,
        fingerprint: Option<Seq<char>>,
        post: OnceView,
        step: OnceStep,
    ) -> bool {
        match fingerprint {
            Some(fingerprint) => {
                &&& post == (OnceView { phase: OncePhase::Greeting, fingerprint, ..self })
                &&& sends(
                    step,
                    MessageView::Hello { client_name: client_name_text(), token: self.token },
                )
            },
            None => post == self.in_phase(OncePhase::Over) && fails(
                step,
                "server did not present a certificate"@,
                None,
            ),
        }
    }

    /// The answer to the greeting.
    pub open spec fn greeted(self, message: MessageView, post: OnceView, step: OnceStep) -> bool {
        match message {
            MessageView::Welcome { server_name, library_revision, pair_required, fingerprint } =>
                if fingerprint != self.fingerprint {
                    post == self.in_phase(OncePhase::Over) && fails(
                        step,
                        "welcome fingerprint does not match TLS certificate"@,
                        None,
                    )
                } else if !pair_required {
                    &&& post == (OnceView {
                        phase: OncePhase::Listing,
                        server_name,
                        revision: library_revision,
                        ..self
                    })
                    &&& sends(step, get_catalog())
                } else {
                    match self.code {
                        Some(code) => {
                            &&& post == (OnceView {
                                phase: OncePhase::Pairing,
                                server_name,
                                revision: library_revision,
                                ..self
                            })
                            &&& sends(step, MessageView::Pair { code })
                        },
                        None => {
                            &&& post == (OnceView {
                                phase: OncePhase::Over,
                                server_name,
                                revision: library_revision,
                                ..self
                            })
                            &&& fails(
                                step,
                                "server requires pairing; pass --code from the server terminal"@,
                                None,
                            )
                        },
                    }
                },
            _ => post == self.in_phase(OncePhase::Over) && fails(
                step,
                "server did not send welcome"@,
                None,
            ),
        }
    }

    /// The answer to the pairing.
    pub open spec fn paired(self, message: MessageView, post: OnceView, step: OnceStep) -> bool {
        match message {
            MessageView::Paired { token } => {
                &&& post == (OnceView { phase: OncePhase::Listing, token: Some(token), ..self })
                &&& sends(step, get_catalog())
            },
            MessageView::Error { message: text, .. } => post == self.in_phase(OncePhase::Over)
                && fails(step, text, None),
            other => post == self.in_phase(OncePhase::Over) && fails(
                step,
                "unexpected pairing reply: "@,
                Some(other),
            ),
        }
    }

    /// The catalog.
    pub open spec fn listed(self, message: MessageView, post: OnceView, step: OnceStep) -> bool {
        &&& post == self.in_phase(OncePhase::Over)
        &&& match message {
            MessageView::Catalog { tracks, .. } => step matches OnceStep::Finish { report, first }
                && report.server_name@ == self.server_name && report.fingerprint@
                == self.fingerprint && report.revision == self.revision && report.tracks
                == tracks.len() && opt_view(report.token) == self.token && (match first {
                Some(first) => tracks.len() > 0 && first.remote_id@ == tracks[0].remote_id
                    && first.file_size == tracks[0].file_size && first.etag@ == etag_text(
                    tracks[0].modified_ns,
                    tracks[0].file_size,
                ),
                None => tracks.len() == 0,
            }),
            MessageView::Error { message: text, .. } => fails(step, text, None),
            other => fails(step, "unexpected catalog reply: "@, Some(other)),
        }
    }

    /// A message at whatever point this has come to.
    pub open spec fn stepped(self, message: MessageView, post: OnceView, step: OnceStep) -> bool {
        match self.phase {
            OncePhase::Greeting => self.greeted(message, post, step),
            OncePhase::Pairing => self.paired(message, post, step),
            OncePhase::Listing => self.listed(message, post, step),
            _ => true,
        }
    }
}

impl ConnectOnce {
    pub fn new(code: Option<String>, token: Option<String>) -> (once: ConnectOnce)
        ensures
            once@ == (OnceView {
                phase: OncePhase::Opening,
                code: opt_view(code),
                token: opt_view(token),
                fingerprint: Seq::empty(),
                server_name: Seq::empty(),
                revision: 0,
            }),
    {
        let once = ConnectOnce {
            phase: OncePhase::Opening,
            code,
            token,
            fingerprint: String::new(),
            server_name: String::new(),
            revision: 0,
        };
        assert(once@.fingerprint =~= Seq::empty());
        assert(once@.server_name =~= Seq::empty());
        once
    }

    /// The connection stands; the fingerprint is the certificate's, where there was one.
    pub fn opened(&mut self, fingerprint: Option<String>) -> (step: OnceStep)
        ensures
            old(self)@.opened(opt_view(fingerprint), final(self)@, step),
    {
        match fingerprint {
            Some(fingerprint) => {
                self.phase = OncePhase::Greeting;
                self.fingerprint = fingerprint;
                let token = match &self.token {
                    Some(token) => Some(token.clone()),
                    None => None,
                };
                OnceStep::Send(Message::Hello { client_name: "staccato".to_owned(), token })
            },
            None => {
                self.phase = OncePhase::Over;
                OnceStep::Fail(Failure::plain("server did not present a certificate"))
            },
        }
    }

    fn greeted(&mut self, message: Message) -> (step: OnceStep)
        ensures
            old(self)@.greeted(message@, final(self)@, step),
    {
        match message {
            Message::Welcome { server_name, library_revision, pair_required, fingerprint } => {
                if !same_text(&fingerprint, &self.fingerprint) {
                    self.phase = OncePhase::Over;
                    return OnceStep::Fail(
                        Failure::plain("welcome fingerprint does not match TLS certificate"),
                    );
                }
                self.server_name = server_name;
                self.revision = library_revision;
                if !pair_required {
                    self.phase = OncePhase::Listing;
                    return OnceStep::Send(Message::GetCatalog { since_revision: None });
                }
                match &self.code {
                    Some(code) => {
                        let code = code.clone();
                        self.phase = OncePhase::Pairing;
                        OnceStep::Send(Message::Pair { code })
                    },
                    None => {
                        self.phase = OncePhase::Over;
                        OnceStep::Fail(
                            Failure::plain(
                                "server requires pairing; pass --code from the server terminal",
                            ),
                        )
                    },
                }
            },
            _ => {
                self.phase = OncePhase::Over;
                OnceStep::Fail(Failure::plain("server did not send welcome"))
            },
        }
    }

    fn paired(&mut self, message: Message) -> (step: OnceStep)
        ensures
            old(self)@.paired(message@, final(self)@, step),
    {
        match message {
            Message::Paired { token } => {
                self.phase = OncePhase::Listing;
                self.token = Some(token);
                OnceStep::Send(Message::GetCatalog { since_revision: None })
            },
            Message::Error { message: text, .. } => {
                self.phase = OncePhase::Over;
                OnceStep::Fail(Failure { text, about: None })
            },
            other => {
                self.phase = OncePhase::Over;
                OnceStep::Fail(Failure::unexpected("unexpected pairing reply: ", other))
            },
        }
    }

    fn listed(&mut self, message: Message) -> (step: OnceStep)
        ensures
            old(self)@.listed(message@, final(self)@, step),
    {
        self.phase = OncePhase::Over;
        match message {
            Message::Catalog { tracks, .. } => {
                assert(entries(tracks@).len() == tracks@.len());
                let first = if tracks.len() > 0 {
                    assert(entries(tracks@)[0] == tracks@[0]@);
                    Some(
                        FetchRequest {
                            remote_id: tracks[0].remote_id.clone(),
                            file_size: tracks[0].file_size,
                            etag: etag_of(tracks[0].modified_ns, tracks[0].file_size),
                        },
                    )
                } else {
                    None
                };
                let token = match &self.token {
                    Some(token) => Some(token.clone()),
                    None => None,
                };
                OnceStep::Finish {
                    report: ConnectReport {
                        server_name: self.server_name.clone(),
                        fingerprint: self.fingerprint.clone(),
                        revision: self.revision,
                        tracks: tracks.len(),
                        token,
                    },
                    first,
                }
            },
            Message::Error { message: text, .. } => OnceStep::Fail(Failure { text, about: None }),
            other => OnceStep::Fail(Failure::unexpected("unexpected catalog reply: ", other)),
        }
    }

    /// Takes a message in, and says what to do.
    pub fn step(&mut self, message: Message) -> (step: OnceStep)
        requires
            old(self)@.phase is Greeting || old(self)@.phase is Pairing || old(self)@.phase
                is Listing,
        ensures
            old(self)@.stepped(message@, final(self)@, step),
    {
        match self.phase {
            OncePhase::Greeting => self.greeted(message),
            OncePhase::Pairing => self.paired(message),
            _ => self.listed(message),
        }
    }
}

/// The file that holds the mark of a cached file.
pub open spec fn etag_file(path: Seq<char>) -> Seq<char> {
    match (parent_of(path), stem_of(path)) {
        (Some(parent), Some(stem)) => joined(parent, stem + ".etag"@),
        _ => path,
    }
}

pub fn etag_path(path: &str) -> (file: String)
    ensures
        file@ == etag_file(path@),
{
    match (parent(path), file_stem(path)) {
        (Some(parent), Some(stem)) => {
            let mut name = stem;
            name.append(".etag");
            join(&parent, &name)
        },
        _ => path.to_owned(),
    }
}

/// Whether a cached file is the track that is wanted: it has its length and its mark.
pub open spec fn cache_hit(
    cached_len: Option<u64>,
    cached_etag: Seq<char>,
    file_size: u64,
    expected_etag: Seq<char>,
) -> bool {
    cached_len == Some(file_size) && cached_etag == expected_etag
}

/// Whether a track need not be fetched: `cached_len` is the length of the cached file, where
/// there is one, and `cached_etag` its mark, empty where it has none.
pub fn already_cached(
    cached_len: Option<u64>,
    cached_etag: &str,
    file_size: u64,
    expected_etag: &str,
) -> (cached: bool)
    ensures
        cached == cache_hit(cached_len, cached_etag@, file_size, expected_etag@),
{
    match cached_len {
        Some(len) => len == file_size && same_text(cached_etag, expected_etag),
        None => false,
    }
}

/// The request for a whole file.
pub fn media_request(remote_id: &str) -> (message: Message)
    ensures
        message@ == (MessageView::OpenMedia { remote_id: remote_id@, offset: 0, length: None }),
{
    Message::OpenMedia { remote_id: remote_id.to_owned(), offset: 0, length: None }
}

/// What the answer to a request for a file leads to: the bytes that follow, and the mark to
/// keep beside them. A mark other than the expected one is refused, unless none is expected.
pub fn fetch_media(reply: Message, remote_id: &str, expected_etag: &str) -> (outcome: Result<
    (Transfer, String),
    Failure,
>)
    ensures
        match reply@ {
            MessageView::MediaHeader { size, etag, .. } => if expected_etag@.len() > 0 && etag
                != expected_etag@ {
                outcome matches Err(failure) && failure.says(
                    "etag mismatch for "@ + remote_id@,
                    None,
                )
            } else {
                outcome matches Ok((transfer, mark)) && transfer.remaining == size && mark@ == etag
            },
            MessageView::Error { message, .. } => outcome matches Err(failure) && failure.says(
                message,
                None,
            ),
            other => outcome matches Err(failure) && failure.says(
                "unexpected media reply: "@,
                Some(other),
            ),
        },
{
    match reply {
        Message::MediaHeader { size, etag, .. } => {
            if !expected_etag.is_empty() && !same_text(&etag, expected_etag) {
                let mut text = "etag mismatch for ".to_owned();
                text.append(remote_id);
                return Err(Failure { text, about: None });
            }
            Ok((Transfer { remaining: size }, etag))
        },
        Message::Error { message, .. } => Err(Failure { text: message, about: None }),
        other => Err(Failure::unexpected("unexpected media reply: ", other)),
    }
}

/// The request for a cover.
pub fn cover_request(remote_id: &str) -> (message: Message)
    ensures
        message@ == (MessageView::GetCover { remote_id: remote_id@ }),
{
    Message::GetCover { remote_id: remote_id.to_owned() }
}

/// The cover in the answer to a request for one, in text form. A server without one is no
/// failure.
pub fn fetch_cover(reply: Message) -> (outcome: Result<Option<String>, Failure>)
    ensures
        match reply@ {
            MessageView::Cover { data, .. } => outcome matches Ok(found) && opt_view(found) == data,
            MessageView::Error { .. } => outcome matches Ok(found) && found is None,
            other => outcome matches Err(failure) && failure.says(
                "unexpected cover reply: "@,
                Some(other),
            ),
        },
{
    match reply {
        Message::Cover { data, .. } => Ok(data),
        Message::Error { .. } => Ok(None),
        other => Err(Failure::unexpected("unexpected cover reply: ", other)),
    }
}

} // verus!
