//! Drag and drop over the terminal, which comes as bursts of keys.

use vstd::prelude::*;
use vstd::string::*;

use crate::base64::{base64, decode_base64};
use crate::input::{EventView, InputEvent, KeyCode, KeyInput, KeyKind, Modifiers};
use crate::order::{holds_text, views};
use crate::split::{behind, cut, parts, split_at_char, split_once, split_words, strip_prefix, words};
use crate::text::{
    append_decimal, contains_text, decimal, lossy_text, occurs, same_text, text_from_utf8_lossy,
};

verus! {

/// How much of a message from the terminal has come in.
#[derive(Clone, Copy, Debug, PartialEq, Eq, Structural)]
pub enum CollectState {
    Idle,
    AfterEscBracket,
    After7,
    Body,
}

/// What becomes of a key while messages are looked for.
#[derive(Debug)]
pub enum CollectResult {
    Pass,
    Hold,
    Osc(String),
}

/// What becomes of a key.
pub enum Collected {
    Pass,
    Hold,
    Osc(Seq<char>),
}

impl View for CollectResult {
    type V = Collected;

    open spec fn view(&self) -> Collected {
        match self {
            CollectResult::Pass => Collected::Pass,
            CollectResult::Hold => Collected::Hold,
            CollectResult::Osc(body) => Collected::Osc(body@),
        }
    }
}

/// Puts messages together out of keys.
#[derive(Debug)]
pub struct OscCollector {
    pub state: CollectState,
    pub buf: String,
}

/// How far a message has come.
pub struct Collecting {
    pub state: CollectState,
    pub buf: Seq<char>,
}

impl View for OscCollector {
    type V = Collecting;

    open spec fn view(&self) -> Collecting {
        Collecting { state: self.state, buf: self.buf@ }
    }
}

/// The character that a key writes.
pub open spec fn written(key: KeyInput) -> Option<char> {
    match key.code {
        KeyCode::Char(c) => Some(c),
        KeyCode::Enter => Some('\r'),
        KeyCode::Tab => Some('\t'),
        _ => None,
    }
}

fn key_char(key: &KeyInput) -> (c: Option<char>)
    ensures
        c == written(*key),
{
    match key.code {
        KeyCode::Char(c) => Some(c),
        KeyCode::Enter => Some('\r'),
        KeyCode::Tab => Some('\t'),
        _ => None,
    }
}

pub open spec fn unmodified(modifiers: Modifiers) -> bool {
    !modifiers.control && !modifiers.shift && !modifiers.alt && !modifiers.other
}

/// Whether a key is this character and no modifier is held.
pub open spec fn plain(key: KeyInput, c: char) -> bool {
    written(key) == Some(c) && unmodified(key.modifiers)
}

fn is_plain(key: &KeyInput, c: char) -> (found: bool)
    ensures
        found == plain(*key, c),
{
    match key_char(key) {
        Some(found) => found == c && !key.modifiers.control && !key.modifiers.shift
            && !key.modifiers.alt && !key.modifiers.other,
        None => false,
    }
}

/// Whether a key ends a message.
pub open spec fn terminates(key: KeyInput) -> bool {
    (key.modifiers.alt && written(key) == Some('\\')) || (key.modifiers.control && written(key)
        == Some('g'))
}

fn is_osc_terminator(key: &KeyInput) -> (found: bool)
    ensures
        found == terminates(*key),
{
    match key_char(key) {
        Some(c) => (key.modifiers.alt && c == '\\') || (key.modifiers.control && c == 'g'),
        None => false,
    }
}

impl Collecting {
    pub open spec fn idle() -> Collecting {
        Collecting { state: CollectState::Idle, buf: Seq::empty() }
    }

    /// What becomes of an event, and how far the message has come then.
    pub open spec fn after(self, event: EventView) -> (Collecting, Collected) {
        match event {
            EventView::Key(key) => if key.kind == KeyKind::Release {
                (
                    self,
                    if self.state == CollectState::Idle {
                        Collected::Pass
                    } else {
                        Collected::Hold
                    },
                )
            } else {
                self.after_key(key)
            },
            _ => if self.state == CollectState::Idle {
                (self, Collected::Pass)
            } else {
                (Collecting::idle(), Collected::Pass)
            },
        }
    }

    pub open spec fn after_key(self, key: KeyInput) -> (Collecting, Collected) {
        match self.state {
            CollectState::Idle => if key.modifiers.alt && written(key) == Some(']') {
                (
                    Collecting { state: CollectState::AfterEscBracket, ..self },
                    Collected::Hold,
                )
            } else {
                (self, Collected::Pass)
            },
            CollectState::AfterEscBracket => if plain(key, '7') {
                (Collecting { state: CollectState::After7, ..self }, Collected::Hold)
            } else {
                (Collecting::idle(), Collected::Pass)
            },
            CollectState::After7 => if plain(key, '2') {
                (Collecting { state: CollectState::Body, buf: "72"@ }, Collected::Hold)
            } else {
                (Collecting::idle(), Collected::Pass)
            },
            CollectState::Body => if terminates(key) {
                (Collecting::idle(), Collected::Osc(self.buf))
            } else {
                match written(key) {
                    Some(c) => (Collecting { buf: self.buf.push(c), ..self }, Collected::Hold),
                    None => (Collecting::idle(), Collected::Pass),
                }
            },
        }
    }
}

impl OscCollector {
    pub fn new() -> (collector: OscCollector)
        ensures
            collector@ == Collecting::idle(),
    {
        let collector = OscCollector { state: CollectState::Idle, buf: String::new() };
        assert(collector@.buf =~= Seq::empty());
        collector
    }

    /// Takes the next event.
    pub fn push(&mut self, event: &InputEvent) -> (result: CollectResult)
        ensures
            (final(self)@, result@) == old(self)@.after(event@),
    {
        let key = match event {
            InputEvent::Key(key) => key,
            _ => {
                if self.state != CollectState::Idle {
                    self.reset();
                }
                return CollectResult::Pass;
            },
        };
        if key.kind == KeyKind::Release {
            return if self.state == CollectState::Idle {
                CollectResult::Pass
            } else {
                CollectResult::Hold
            };
        }
        match self.state {
            CollectState::Idle => {
                let opens = match key_char(key) {
                    Some(c) => c == ']' && key.modifiers.alt,
                    None => false,
                };
                if opens {
                    self.state = CollectState::AfterEscBracket;
                    CollectResult::Hold
                } else {
                    CollectResult::Pass
                }
            },
            CollectState::AfterEscBracket => {
                if is_plain(key, '7') {
                    self.state = CollectState::After7;
                    CollectResult::Hold
                } else {
                    self.reset();
                    CollectResult::Pass
                }
            },
            CollectState::After7 => {
                if is_plain(key, '2') {
                    self.state = CollectState::Body;
                    self.buf = "72".to_owned();
                    CollectResult::Hold
                } else {
                    self.reset();
                    CollectResult::Pass
                }
            },
            CollectState::Body => {
                if is_osc_terminator(key) {
                    let mut body = String::new();
                    core::mem::swap(&mut body, &mut self.buf);
                    self.reset();
                    CollectResult::Osc(body)
                } else if let Some(c) = key_char(key) {
                    self.buf.push(c);
                    CollectResult::Hold
                } else {
                    self.reset();
                    CollectResult::Pass
                }
            },
        }
    }

    /// Forgets what has come in.
    pub fn reset(&mut self)
        ensures
            final(self)@ == Collecting::idle(),
    {
        self.state = CollectState::Idle;
        self.buf = String::new();
        assert(self.buf@ =~= Seq::empty());
    }
}

/// The value of a field, in pairs joined by `=`; the last of several counts.
pub open spec fn field_in(pairs: Seq<Seq<char>>, name: Seq<char>) -> Option<Seq<char>>
    decreases pairs.len(),
{
    if pairs.len() == 0 {
        None
    } else {
        match cut(pairs.last(), '=') {
            Some((left, right)) => if left == name {
                Some(right)
            } else {
                field_in(pairs.drop_last(), name)
            },
            None => field_in(pairs.drop_last(), name),
        }
    }
}

/// The value of a field of a message's head.
pub open spec fn field(meta: Seq<char>, name: Seq<char>) -> Option<Seq<char>> {
    field_in(parts(meta, ':'), name)
}

/// Reads a field of a message's head.
pub fn meta_field(meta: &str, name: &str) -> (value: Option<String>)
    ensures
        field(meta@, name@) == match value {
            Some(value) => Some(value@),
            None => None,
        },
{
    let pairs = split_at_char(meta, ':');
    let ghost all = views(pairs@);
    let mut i: usize = pairs.len();
    assert(all.take(i as int) =~= all);
    while i > 0
        invariant
            i <= pairs@.len(),
            all == views(pairs@),
            all == parts(meta@, ':'),
            field_in(all, name@) == field_in(all.take(i as int), name@),
        decreases i,
    {
        assert(all.take(i as int).drop_last() =~= all.take(i - 1));
        assert(all.take(i as int).last() == pairs@[i - 1]@);
        i = i - 1;
        if let Some((left, right)) = split_once(&pairs[i], '=') {
            if same_text(&left, name) {
                return Some(right);
            }
        }
    }
    None
}

fn field_is(meta: &str, name: &str, wanted: &str) -> (found: bool)
    ensures
        found == (field(meta@, name@) == Some(wanted@)),
{
    match meta_field(meta, name) {
        Some(value) => same_text(&value, wanted),
        None => false,
    }
}

/// The kind of data that is asked for, of those on offer.
pub open spec fn preferred(mimes: Seq<Seq<char>>) -> Option<Seq<char>> {
    if mimes.contains("text/uri-list"@) {
        Some("text/uri-list"@)
    } else if mimes.contains("text/plain"@) {
        Some("text/plain"@)
    } else {
        None
    }
}

pub fn preferred_mime(mimes: &Vec<String>) -> (mime: Option<&'static str>)
    ensures
        preferred(views(mimes@)) == match mime {
            Some(mime) => Some(mime@),
            None => None,
        },
{
    if holds_text(mimes, "text/uri-list") {
        Some("text/uri-list")
    } else if holds_text(mimes, "text/plain") {
        Some("text/plain")
    } else {
        None
    }
}

/// The first place of a text, counted from one; zero where it has none.
pub open spec fn numbered_place(texts: Seq<Seq<char>>, text: Seq<char>, from: int) -> int
    decreases texts.len() - from,
{
    if from < 0 || from >= texts.len() {
        0
    } else if texts[from] == text {
        from + 1
    } else {
        numbered_place(texts, text, from + 1)
    }
}

fn place_of(texts: &Vec<String>, text: &str) -> (place: usize)
    ensures
        place == numbered_place(views(texts@), text@, 0),
        (place > 0) == views(texts@).contains(text@),
{
    let ghost all = views(texts@);
    let mut i: usize = 0;
    while i < texts.len()
        invariant
            i <= texts@.len(),
            all == views(texts@),
            numbered_place(all, text@, 0) == numbered_place(all, text@, i as int),
            forall|k: int| 0 <= k < i ==> all[k] != text@,
        decreases texts@.len() - i,
    {
        if same_text(&texts[i], text) {
            assert(all[i as int] == text@);
            return i + 1;
        }
        i = i + 1;
    }
    0
}

/// The place, counted from one, of the kind that is asked for.
pub open spec fn preferred_place(mimes: Seq<Seq<char>>) -> Option<int> {
    match preferred(mimes) {
        Some(mime) => Some(numbered_place(mimes, mime, 0)),
        None => None,
    }
}

pub fn preferred_mime_index(mimes: &Vec<String>) -> (index: Option<usize>)
    ensures
        preferred_place(views(mimes@)) == match index {
            Some(index) => Some(index as int),
            None => None,
        },
{
    let listed: usize = place_of(mimes, "text/uri-list");
    if listed > 0 {
        return Some(listed);
    }
    let plain: usize = place_of(mimes, "text/plain");
    if plain > 0 {
        Some(plain)
    } else {
        None
    }
}

/// What is written to the terminal: a head and a body.
#[derive(Debug, PartialEq, Eq)]
pub struct Reply {
    pub metadata: String,
    pub payload: String,
}

impl View for Reply {
    type V = (Seq<char>, Seq<char>);

    open spec fn view(&self) -> (Seq<char>, Seq<char>) {
        (self.metadata@, self.payload@)
    }
}

/// The characters of a message to the terminal.
pub open spec fn osc_text(reply: (Seq<char>, Seq<char>)) -> Seq<char> {
    "\x1b]72;"@ + reply.0 + (if reply.1.len() > 0 {
        ";"@ + reply.1
    } else {
        Seq::empty()
    }) + "\x1b\\"@
}

impl Reply {
    fn of(metadata: &str, payload: &str) -> (reply: Reply)
        ensures
            reply@ == (metadata@, payload@),
    {
        Reply { metadata: metadata.to_owned(), payload: payload.to_owned() }
    }

    /// The characters to write.
    pub fn text(&self) -> (text: String)
        ensures
            text@ == osc_text(self@),
    {
        let mut text = "\x1b]72;".to_owned();
        text.append(&self.metadata);
        if !self.payload.as_str().is_empty() {
            text.append(";");
            text.append(&self.payload);
        }
        text.append("\x1b\\");
        assert(text@ =~= osc_text(self@));
        text
    }
}

/// The terminal's side of drag and drop.
#[derive(Debug)]
pub struct KittyDnd {
    pub enabled: bool,
    pub collector: OscCollector,
    pub pending_data: Vec<u8>,
    pub mime_list: Vec<String>,
}

/// What is known of a drop.
pub struct DndView {
    pub enabled: bool,
    pub collecting: Collecting,
    pub pending: Seq<u8>,
    pub mimes: Seq<Seq<char>>,
}

impl View for KittyDnd {
    type V = DndView;

    open spec fn view(&self) -> DndView {
        DndView {
            enabled: self.enabled,
            collecting: self.collector@,
            pending: self.pending_data@,
            mimes: views(self.mime_list@),
        }
    }
}

/// What a message leads to: the state after it, what is answered, and what was dropped.
pub struct Handled {
    pub state: DndView,
    pub reply: Option<(Seq<char>, Seq<char>)>,
    pub paste: Option<Seq<char>>,
}

/// The head and the body of a message.
pub open spec fn message_parts(rest: Seq<char>) -> (Seq<char>, Seq<char>) {
    match cut(rest, ';') {
        Some(halves) => halves,
        None => (rest, Seq::empty()),
    }
}

impl DndView {
    pub open spec fn unmoved(self) -> Handled {
        Handled { state: self, reply: None, paste: None }
    }

    /// The kinds of data that a message offers; a message without a body offers the same as
    /// before.
    pub open spec fn offered(self, payload: Seq<char>) -> DndView {
        DndView {
            mimes: if payload.len() > 0 {
                words(payload)
            } else {
                self.mimes
            },
            ..self
        }
    }

    /// Something is dragged over the window.
    pub open spec fn dragged(self, meta: Seq<char>, payload: Seq<char>) -> Handled {
        if field(meta, "x"@) == Some("-1"@) && field(meta, "y"@) == Some("-1"@) {
            self.unmoved()
        } else {
            let state = self.offered(payload);
            Handled {
                state,
                reply: Some(
                    (
                        "t=m:o=1"@,
                        match preferred(state.mimes) {
                            Some(mime) => mime,
                            None => Seq::empty(),
                        },
                    ),
                ),
                paste: None,
            }
        }
    }

    /// Something is let go over the window.
    pub open spec fn released(self, payload: Seq<char>) -> Handled {
        let state = self.offered(payload);
        match preferred_place(state.mimes) {
            Some(place) => Handled {
                state: DndView { pending: Seq::empty(), ..state },
                reply: Some(("t=r:x="@ + decimal(place as nat), Seq::empty())),
                paste: None,
            },
            None => Handled { state, reply: Some(("t=r:o=0"@, Seq::empty())), paste: None },
        }
    }

    /// A piece of what was dropped comes in.
    pub open spec fn received(self, meta: Seq<char>, payload: Seq<char>) -> Handled {
        let pending = match base64(payload) {
            Some(bytes) => self.pending + bytes,
            None => self.pending,
        };
        if field(meta, "m"@) == Some("1"@) {
            (DndView { pending, ..self }).unmoved()
        } else {
            Handled {
                state: DndView { pending: Seq::empty(), ..self },
                reply: Some(("t=r:o=1"@, Seq::empty())),
                paste: if lossy_text(pending).len() > 0 {
                    Some(lossy_text(pending))
                } else {
                    None
                },
            }
        }
    }

    /// What a message leads to.
    pub open spec fn handled(self, body: Seq<char>) -> Handled {
        match behind(body, "72;"@) {
            None => self.unmoved(),
            Some(rest) => {
                let (meta, payload) = message_parts(rest);
                let kind = field(meta, "t"@);
                if kind == Some("m"@) {
                    self.dragged(meta, payload)
                } else if kind == Some("M"@) {
                    self.released(payload)
                } else if kind == Some("r"@) {
                    self.received(meta, payload)
                } else if kind == Some("R"@) {
                    (DndView { pending: Seq::empty(), ..self }).unmoved()
                } else {
                    self.unmoved()
                }
            },
        }
    }
}

/// Events sorted out: what is left of them, what was answered, and the state after them.
pub struct Ingested {
    pub state: DndView,
    pub events: Seq<EventView>,
    pub replies: Seq<(Seq<char>, Seq<char>)>,
}

impl Ingested {
    /// One more event.
    pub open spec fn with(self, event: EventView) -> Ingested {
        let (collecting, collected) = self.state.collecting.after(event);
        let state = DndView { collecting, ..self.state };
        match collected {
            Collected::Hold => Ingested { state, ..self },
            Collected::Pass => Ingested { state, events: self.events.push(event), ..self },
            Collected::Osc(body) => {
                let handled = state.handled(body);
                Ingested {
                    state: handled.state,
                    events: match handled.paste {
                        Some(text) => self.events.push(EventView::Paste(text)),
                        None => self.events,
                    },
                    replies: match handled.reply {
                        Some(reply) => self.replies.push(reply),
                        None => self.replies,
                    },
                }
            },
        }
    }
}

/// Events sorted out, from the first on.
pub open spec fn ingested(state: DndView, events: Seq<EventView>) -> Ingested
    decreases events.len(),
{
    if events.len() == 0 {
        Ingested { state, events: Seq::empty(), replies: Seq::empty() }
    } else {
        ingested(state, events.drop_last()).with(events.last())
    }
}

pub open spec fn event_views(events: Seq<InputEvent>) -> Seq<EventView> {
    events.map_values(|event: InputEvent| event@)
}

pub open spec fn reply_views(replies: Seq<Reply>) -> Seq<(Seq<char>, Seq<char>)> {
    replies.map_values(|reply: Reply| reply@)
}

pub open spec fn opt_reply(reply: Option<Reply>) -> Option<(Seq<char>, Seq<char>)> {
    match reply {
        Some(reply) => Some(reply@),
        None => None,
    }
}

impl KittyDnd {
    /// Drag and drop, where the terminal has it: one that says so by a window number or by its
    /// name.
    pub fn new(has_window: bool, term: Option<&str>) -> (dnd: KittyDnd)
        ensures
            dnd@ == (DndView {
                enabled: has_window || (term matches Some(name) && occurs("kitty"@, name@)),
                collecting: Collecting::idle(),
                pending: Seq::empty(),
                mimes: Seq::empty(),
            }),
    {
        let named = match term {
            Some(name) => contains_text(name, "kitty"),
            None => false,
        };
        let dnd = KittyDnd {
            enabled: has_window || named,
            collector: OscCollector::new(),
            pending_data: Vec::new(),
            mime_list: Vec::new(),
        };
        assert(dnd@.pending =~= Seq::empty());
        assert(dnd@.mimes =~= Seq::empty());
        dnd
    }

    /// What turns drag and drop on.
    pub fn enable(&self) -> (reply: Option<Reply>)
        ensures
            opt_reply(reply) == if self@.enabled {
                Some(("t=a"@, "text/uri-list text/plain"@))
            } else {
                None
            },
    {
        if self.enabled {
            Some(Reply::of("t=a", "text/uri-list text/plain"))
        } else {
            None
        }
    }

    /// What turns drag and drop off.
    pub fn disable(&self) -> (reply: Option<Reply>)
        ensures
            opt_reply(reply) == if self@.enabled {
                Some(("t=A"@, ""@))
            } else {
                None
            },
    {
        if self.enabled {
            Some(Reply::of("t=A", ""))
        } else {
            None
        }
    }

    fn take_offer(&mut self, payload: &str)
        ensures
            final(self)@ == old(self)@.offered(payload@),
    {
        if !payload.is_empty() {
            self.mime_list = split_words(payload);
        }
    }

    fn dragged(&mut self, meta: &str, payload: &str) -> (reply: Option<Reply>)
        ensures
            ({
                let handled = old(self)@.dragged(meta@, payload@);
                final(self)@ == handled.state && opt_reply(reply) == handled.reply
                    && handled.paste is None
            }),
    {
        if field_is(meta, "x", "-1") && field_is(meta, "y", "-1") {
            return None;
        }
        self.take_offer(payload);
        let accepted = match preferred_mime(&self.mime_list) {
            Some(mime) => mime.to_owned(),
            None => String::new(),
        };
        assert(preferred(self@.mimes) is None ==> accepted@ =~= Seq::empty());
        Some(Reply::of("t=m:o=1", &accepted))
    }

    fn released(&mut self, payload: &str) -> (reply: Option<Reply>)
        ensures
            ({
                let handled = old(self)@.released(payload@);
                final(self)@ == handled.state && opt_reply(reply) == handled.reply
                    && handled.paste is None
            }),
    {
        self.take_offer(payload);
        let empty = String::new();
        assert(empty@ =~= Seq::empty());
        match preferred_mime_index(&self.mime_list) {
            Some(index) => {
                self.pending_data = Vec::new();
                assert(self@.pending =~= Seq::empty());
                let mut metadata = "t=r:x=".to_owned();
                append_decimal(&mut metadata, index as u64);
                Some(Reply { metadata, payload: empty })
            },
            None => Some(Reply { metadata: "t=r:o=0".to_owned(), payload: empty }),
        }
    }

    fn received(&mut self, meta: &str, payload: &str) -> (outcome: (Option<Reply>, Option<String>))
        ensures
            ({
                let handled = old(self)@.received(meta@, payload@);
                final(self)@ == handled.state && opt_reply(outcome.0) == handled.reply
                    && handled.paste == match outcome.1 {
                    Some(text) => Some(text@),
                    None => None,
                }
            }),
    {
        if let Some(mut decoded) = decode_base64(payload) {
            self.pending_data.append(&mut decoded);
        }
        if field_is(meta, "m", "1") {
            return (None, None);
        }
        let text = text_from_utf8_lossy(&self.pending_data);
        self.pending_data = Vec::new();
        assert(self@.pending =~= Seq::empty());
        let empty = String::new();
        assert(empty@ =~= Seq::empty());
        let reply = Some(Reply { metadata: "t=r:o=1".to_owned(), payload: empty });
        if text.as_str().is_empty() {
            (reply, None)
        } else {
            (reply, Some(text))
        }
    }

    /// Acts on a message from the terminal: what is answered, and what was dropped.
    pub fn handle_osc(&mut self, body: &str) -> (outcome: (Option<Reply>, Option<String>))
        ensures
            ({
                let handled = old(self)@.handled(body@);
                final(self)@ == handled.state && opt_reply(outcome.0) == handled.reply
                    && handled.paste == match outcome.1 {
                    Some(text) => Some(text@),
                    None => None,
                }
            }),
    {
        let rest = match strip_prefix(body, "72;") {
            Some(rest) => rest,
            None => {
                return (None, None);
            },
        };
        let (meta, payload) = match split_once(&rest, ';') {
            Some(halves) => halves,
            None => (rest, String::new()),
        };
        assert(cut(rest@, ';') is None ==> payload@ =~= Seq::empty());
        if field_is(&meta, "t", "m") {
            return (self.dragged(&meta, &payload), None);
        }
        if field_is(&meta, "t", "M") {
            return (self.released(&payload), None);
        }
        if field_is(&meta, "t", "r") {
            return self.received(&meta, &payload);
        }
        if field_is(&meta, "t", "R") {
            self.pending_data = Vec::new();
            assert(self@.pending =~= Seq::empty());
        }
        (None, None)
    }

    /// Takes messages from the terminal out of a burst of events: what is left of the events,
    /// what was dropped among them, and what is answered.
    pub fn ingest(&mut self, events: Vec<InputEvent>) -> (outcome: (Vec<InputEvent>, Vec<Reply>))
        ensures
            !old(self)@.enabled ==> outcome.0 == events && outcome.1@.len() == 0
                && *final(self) == *old(self),
            old(self)@.enabled ==> {
                let whole = ingested(old(self)@, event_views(events@));
                &&& final(self)@ == whole.state
                &&& event_views(outcome.0@) == whole.events
                &&& reply_views(outcome.1@) == whole.replies
            },
    {
        let mut replies: Vec<Reply> = Vec::new();
        if !self.enabled {
            return (events, replies);
        }
        let ghost start = self@;
        let ghost all = event_views(events@);
        let mut out: Vec<InputEvent> = Vec::new();
        assert(event_views(out@) =~= Seq::empty());
        assert(reply_views(replies@) =~= Seq::empty());
        assert(all.take(0) =~= Seq::empty());
        let mut rest = events;
        let count: usize = rest.len();
        let mut i: usize = 0;
        while i < count
            invariant
                i <= count,
                rest@.len() == count,
                all == event_views(events@),
                count == events@.len(),
                forall|k: int| i <= k < count ==> rest@[k] == events@[k],
                self@ == ingested(start, all.take(i as int)).state,
                event_views(out@) == ingested(start, all.take(i as int)).events,
                reply_views(replies@) == ingested(start, all.take(i as int)).replies,
            decreases count - i,
        {
            assert(all.take(i + 1).drop_last() =~= all.take(i as int));
            assert(all.take(i + 1).last() == events@[i as int]@);
            let ghost kept = out@;
            let ghost told = replies@;
            let mut event = InputEvent::Other;
            core::mem::swap(&mut event, &mut rest[i]);
            match self.collector.push(&event) {
                CollectResult::Hold => {},
                CollectResult::Pass => {
                    out.push(event);
                    assert(event_views(out@) =~= event_views(kept).push(event@));
                },
                CollectResult::Osc(body) => {
                    let (reply, paste) = self.handle_osc(&body);
                    if let Some(text) = paste {
                        out.push(InputEvent::Paste(text));
                        assert(event_views(out@) =~= event_views(kept).push(
                            EventView::Paste(text@),
                        ));
                    }
                    if let Some(reply) = reply {
                        replies.push(reply);
                        assert(reply_views(replies@) =~= reply_views(told).push(reply@));
                    }
                },
            }
            i = i + 1;
        }
        assert(all.take(i as int) =~= all);
        (out, replies)
    }
}

/// The press of a key that writes a character.
pub open spec fn pressed(c: char, alt: bool) -> EventView {
    EventView::Key(
        KeyInput {
            code: KeyCode::Char(c),
            modifiers: Modifiers { control: false, shift: false, alt, other: false },
            kind: KeyKind::Press,
        },
    )
}

/// The keys that a terminal sends a message as.
pub open spec fn burst(rest: Seq<char>) -> Seq<EventView> {
    seq![pressed(']', true), pressed('7', false), pressed('2', false)] + rest.map_values(
        |c: char| pressed(c, false),
    )
}

proof fn lemma_burst(state: DndView, rest: Seq<char>)
    requires
        state.collecting == Collecting::idle(),
    ensures
        ingested(state, burst(rest)) == (Ingested {
            state: DndView {
                collecting: Collecting { state: CollectState::Body, buf: "72"@ + rest },
                ..state
            },
            events: Seq::empty(),
            replies: Seq::empty(),
        }),
    decreases rest.len(),
{
    let keys = burst(rest);
    if rest.len() == 0 {
        let one = keys.drop_last();
        let two = one.drop_last();
        assert(two.drop_last() =~= Seq::empty());
        assert(keys.last() == pressed('2', false));
        assert(one.last() == pressed('7', false));
        assert(two.last() == pressed(']', true));
        reveal_with_fuel(ingested, 4);
        assert("72"@ + rest =~= "72"@);
    } else {
        lemma_burst(state, rest.drop_last());
        assert(keys.drop_last() =~= burst(rest.drop_last()));
        assert(keys.last() == pressed(rest.last(), false));
        assert("72"@ + rest =~= ("72"@ + rest.drop_last()).push(rest.last()));
    }
}

/// A message that comes as a burst of keys is put together again and acted on, and none of its
/// keys gets through.
pub proof fn law_bursts_are_put_together(state: DndView, rest: Seq<char>)
    requires
        state.collecting == Collecting::idle(),
    ensures
        ({
            let whole = ingested(state, burst(rest).push(pressed('\\', true)));
            let handled = state.handled("72"@ + rest);
            &&& whole.state == handled.state
            &&& whole.events == match handled.paste {
                Some(text) => seq![EventView::Paste(text)],
                None => Seq::empty(),
            }
            &&& whole.replies == match handled.reply {
                Some(reply) => seq![reply],
                None => Seq::empty(),
            }
        }),
{
    lemma_burst(state, rest);
    let keys = burst(rest).push(pressed('\\', true));
    assert(keys.drop_last() =~= burst(rest));
    let whole = ingested(state, keys);
    let handled = state.handled("72"@ + rest);
    assert(DndView { collecting: Collecting::idle(), ..state } == state);
    match handled.paste {
        Some(text) => assert(whole.events =~= seq![EventView::Paste(text)]),
        None => {},
    }
    match handled.reply {
        Some(reply) => assert(whole.replies =~= seq![reply]),
        None => {},
    }
}

/// Ordinary keys get through untouched.
pub proof fn law_ordinary_keys_pass(state: DndView, event: EventView)
    requires
        state.collecting.state == CollectState::Idle,
        event != pressed(']', true),
        event matches EventView::Key(key) ==> !key.modifiers.alt,
    ensures
        ingested(state, seq![event]).events == seq![event],
        ingested(state, seq![event]).state == state,
{
    let events = seq![event];
    assert(events.drop_last() =~= Seq::empty());
    reveal_with_fuel(ingested, 2);
    assert(ingested(state, events).events =~= seq![event]);
}

proof fn lemma_numbered_place(texts: Seq<Seq<char>>, text: Seq<char>, from: int)
    requires
        0 <= from,
        exists|k: int| from <= k < texts.len() && #[trigger] texts[k] == text,
    ensures
        from < numbered_place(texts, text, from) <= texts.len(),
        texts[numbered_place(texts, text, from) - 1] == text,
    decreases texts.len() - from,
{
    if texts[from] != text {
        lemma_numbered_place(texts, text, from + 1);
    }
}

/// Of what a drag offers, a list of addresses is asked for where there is one, else a plain text,
/// by its place in the offer, counted from one; anything else is not asked for.
pub proof fn law_addresses_are_asked_for_first(mimes: Seq<Seq<char>>)
    ensures
        mimes.contains("text/uri-list"@) ==> (preferred_place(mimes) matches Some(n) && 1 <= n
            <= mimes.len() && mimes[n - 1] == "text/uri-list"@),
        !mimes.contains("text/uri-list"@) && mimes.contains("text/plain"@) ==> (preferred_place(
            mimes,
        ) matches Some(n) && 1 <= n <= mimes.len() && mimes[n - 1] == "text/plain"@),
        !mimes.contains("text/uri-list"@) && !mimes.contains("text/plain"@) ==> preferred_place(
            mimes,
        ) is None,
{
    if mimes.contains("text/uri-list"@) {
        let k = choose|k: int| 0 <= k < mimes.len() && mimes[k] == "text/uri-list"@;
        assert(mimes[k] == "text/uri-list"@);
        lemma_numbered_place(mimes, "text/uri-list"@, 0);
    } else if mimes.contains("text/plain"@) {
        let k = choose|k: int| 0 <= k < mimes.len() && mimes[k] == "text/plain"@;
        assert(mimes[k] == "text/plain"@);
        lemma_numbered_place(mimes, "text/plain"@, 0);
    }
}

} // verus!
