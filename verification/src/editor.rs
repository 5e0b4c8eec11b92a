use vstd::prelude::*;
use vstd::string::*;

use crate::document::{EditingModel, ScreenSize};
use crate::elm::Cmd;
use crate::navigation;
use crate::navigation::{Event, KeyCode, KeyStroke, NavigationModel};

verus! {

/// The history after `event` was recorded: the event is appended, and the
/// oldest event is dropped once there are more than `horizon`.
pub open spec fn recorded(events: Seq<KeyStroke>, event: KeyStroke, horizon: usize) -> Seq<
    KeyStroke,
> {
    if events.len() + 1 > horizon {
        events.push(event).drop_first()
    } else {
        events.push(event)
    }
}

/// The last `n` elements of `s` (all of them, when there are fewer).
pub open spec fn latest<T>(s: Seq<T>, n: nat) -> Seq<T> {
    if s.len() <= n {
        s
    } else {
        s.subrange(s.len() - n, s.len() as int)
    }
}

/// How the history writes its events: each description followed by a
/// comma.
pub open spec fn listing(events: Seq<KeyStroke>) -> Seq<char>
    decreases events.len(),
{
    if events.len() == 0 {
        Seq::empty()
    } else {
        listing(events.drop_last()) + events.last().description@ + seq![',']
    }
}

/// The most recent key presses that the editor did not act upon.
pub struct KeyHistory {
    events: Vec<KeyStroke>,
    horizon: usize,
}

impl KeyHistory {
    pub closed spec fn events_seq(&self) -> Seq<KeyStroke> {
        self.events@
    }

    pub closed spec fn spec_horizon(&self) -> usize {
        self.horizon
    }

    /// The history holds no more events than its horizon.
    pub open spec fn wf(&self) -> bool {
        self.events_seq().len() <= self.spec_horizon()
    }

    /// An empty history that keeps the last `horizon` events.
    pub fn new(horizon: usize) -> (h: Self)
        ensures
            h.events_seq() == Seq::<KeyStroke>::empty(),
            h.spec_horizon() == horizon,
            h.wf(),
    {
        KeyHistory { events: Vec::new(), horizon }
    }

    pub fn events(&self) -> (e: &[KeyStroke])
        ensures
            e@ == self.events_seq(),
    {
        self.events.as_slice()
    }

    pub fn horizon(&self) -> (h: usize)
        ensures
            h == self.spec_horizon(),
    {
        self.horizon
    }

    /// Appends `event`, dropping the oldest event once there are more than
    /// the horizon.
    pub fn record(&mut self, event: &KeyStroke)
        ensures
            final(self).spec_horizon() == old(self).spec_horizon(),
            final(self).events_seq() == recorded(
                old(self).events_seq(),
                *event,
                old(self).spec_horizon(),
            ),
            old(self).wf() ==> final(self).wf(),
    {
        self.events.push(event.clone());
        if self.events.len() > self.horizon {
            self.events.remove(0);
        }
        assert(self.events@ =~= recorded(old(self).events@, *event, self.horizon));
    }

    /// The history as the editor shows it: `[` then each event's
    /// description followed by a comma, then `]`.
    pub fn describe(&self) -> (s: String)
        ensures
            s@ == seq!['['] + listing(self.events_seq()) + seq![']'],
    {
        let mut s = String::new();
        proof {
            reveal_strlit("[");
            reveal_strlit(",");
            reveal_strlit("]");
        }
        s.append("[");
        assert("["@ =~= seq!['[']);
        assert(listing(self.events@.take(0)) =~= Seq::<char>::empty());
        assert(s@ =~= seq!['['] + listing(self.events@.take(0)));
        for i in 0..self.events.len()
            invariant
                s@ == seq!['['] + listing(self.events@.take(i as int)),
        {
            let ghost before = s@;
            s.append(self.events[i].description.as_str());
            s.append(",");
            proof {
                let t = self.events@.take(i + 1);
                assert(t.drop_last() =~= self.events@.take(i as int));
                assert(t.last() == self.events@[i as int]);
                reveal_strlit(",");
                assert(","@ =~= seq![',']);
                assert(listing(t) == listing(self.events@.take(i as int))
                    + self.events@[i as int].description@ + seq![',']);
                assert(s@ =~= seq!['['] + listing(t));
            }
        }
        assert(self.events@.take(self.events@.len() as int) =~= self.events@);
        s.append("]");
        assert("]"@ =~= seq![']']);
        s
    }
}

impl Default for KeyHistory {
    fn default() -> (h: Self)
        ensures
            h.events_seq() == Seq::<KeyStroke>::empty(),
            h.spec_horizon() == 3,
    {
        KeyHistory::new(3)
    }
}

/// Recording keeps exactly the latest `horizon` events: if the history held
/// the latest `horizon` of the events seen so far, then after recording one
/// more it holds the latest `horizon` of them all.
pub proof fn lemma_history_keeps_latest(seen: Seq<KeyStroke>, event: KeyStroke, horizon: usize)
    ensures
        recorded(latest(seen, horizon as nat), event, horizon) == latest(
            seen.push(event),
            horizon as nat,
        ),
{
    let l = latest(seen, horizon as nat);
    let all = seen.push(event);
    if seen.len() + 1 <= horizon {
        assert(recorded(l, event, horizon) =~= latest(all, horizon as nat));
    } else {
        assert(l.push(event).drop_first() =~= latest(all, horizon as nat));
    }
}

impl NavigationModel {
    /// Takes note of the new size of the screen.
    pub fn screen_size_changed(&mut self, new_size: ScreenSize) -> (cmd: Cmd<Message, EditorEffect>)
        ensures
            cmd is Nothing,
            final(self).screen_size == new_size,
            final(self).cursor == old(self).cursor,
            final(self).viewport == old(self).viewport,
    {
        self.screen_size = new_size;
        Cmd::none()
    }
}

/// The effects that the editor asks its host to run.
#[derive(Debug)]
pub enum EditorEffect {
    /// Find out the size of the terminal, and report it with
    /// `Message::size_reported`.
    RequestSize,
}

/// What the editor reacts to.
#[derive(Clone, Debug)]
pub enum Message {
    SetBufferName(String),
    ExternalEvent(Event),
    SizedChanged(ScreenSize),
}

impl Message {
    /// The message that reports a terminal of `width` columns and `height`
    /// rows.
    pub fn size_reported(width: u16, height: u16) -> (m: Message)
        ensures
            m == Message::SizedChanged(ScreenSize { columns: width as usize, rows: height as usize }),
    {
        Message::SizedChanged(ScreenSize::from((width, height)))
    }
}

impl From<Event> for Message {
    fn from(value: Event) -> (m: Self) {
        Message::ExternalEvent(value)
    }
}

impl vstd::std_specs::convert::FromSpecImpl<Event> for Message {
    open spec fn obeys_from_spec() -> bool {
        true
    }

    open spec fn from_spec(value: Event) -> Message {
        Message::ExternalEvent(value)
    }
}

impl ScreenSize {
    /// The command that asks the host for the size of the terminal.
    pub fn request() -> (cmd: Cmd<Message, EditorEffect>)
        ensures
            cmd == Cmd::<Message, EditorEffect>::Suspend(EditorEffect::RequestSize),
    {
        Cmd::suspend(EditorEffect::RequestSize)
    }
}

/// Control-Q: the key that quits.
pub open spec fn is_quit_key(k: KeyStroke) -> bool {
    &&& k.code == KeyCode::Char('q')
    &&& k.modifiers.control
    &&& !k.modifiers.shift && !k.modifiers.alt && !k.modifiers.super_key && !k.modifiers.hyper
        && !k.modifiers.meta
}

/// A navigation key pressed without modifiers.
pub open spec fn is_move_key(k: KeyStroke) -> bool {
    k.modifiers.spec_is_empty() && navigation::is_navigation_key(k.code)
}

/// The editor: the buffer's name, the document, the navigation state and
/// the history of keys that it did not act upon.
pub struct Editor {
    pub buffer_name: String,
    pub contents: EditingModel,
    pub navigation: NavigationModel,
    pub key_history: KeyHistory,
}

/// How a key press changes the editor, and what it answers: Control-Q
/// quits and changes nothing; a navigation key without modifiers moves;
/// any other key is recorded in the history.
pub open spec fn key_effect(
    before: Editor,
    after: Editor,
    key: KeyStroke,
    cmd: Cmd<Message, EditorEffect>,
) -> bool {
    &&& after.buffer_name == before.buffer_name
    &&& after.contents == before.contents
    &&& if is_quit_key(key) {
        &&& cmd is Gtfo
        &&& after.navigation == before.navigation
        &&& after.key_history == before.key_history
    } else if is_move_key(key) {
        &&& cmd is Nothing
        &&& after.navigation == before.navigation.navigated(key.code)
        &&& after.key_history == before.key_history
    } else {
        &&& cmd is Nothing
        &&& after.navigation == before.navigation
        &&& after.key_history.spec_horizon() == before.key_history.spec_horizon()
        &&& after.key_history.events_seq() == recorded(
            before.key_history.events_seq(),
            key,
            before.key_history.spec_horizon(),
        )
    }
}

/// How an event from the terminal changes the editor: keys as
/// `key_effect` says, a resize sets the screen size, anything else changes
/// nothing.
pub open spec fn event_effect(
    before: Editor,
    after: Editor,
    event: Event,
    cmd: Cmd<Message, EditorEffect>,
) -> bool {
    match event {
        Event::Key(k) => key_effect(before, after, k, cmd),
        Event::Resize(w, h) => {
            &&& cmd is Nothing
            &&& after.buffer_name == before.buffer_name
            &&& after.contents == before.contents
            &&& after.key_history == before.key_history
            &&& after.navigation == NavigationModel {
                screen_size: ScreenSize { columns: w as usize, rows: h as usize },
                ..before.navigation
            }
        },
        Event::Other => cmd is Nothing && after == before,
    }
}

impl Editor {
    /// The keys that the editor handles without overflowing.
    pub open spec fn key_permitted(&self, key: KeyStroke) -> bool {
        is_move_key(key) ==> self.navigation.move_permitted(key.code)
    }

    pub open spec fn event_permitted(&self, event: Event) -> bool {
        match event {
            Event::Key(k) => self.key_permitted(k),
            _ => true,
        }
    }

    pub open spec fn update_permitted(&self, message: Message) -> bool {
        match message {
            Message::ExternalEvent(e) => self.event_permitted(e),
            _ => true,
        }
    }

    /// An editor on `contents`, named "Unnamed", with the cursor and the
    /// viewport at the top left, an unknown screen size, and an empty key
    /// history that keeps three keys.
    pub fn new(contents: EditingModel) -> (e: Editor)
        ensures
            e.buffer_name@ == "Unnamed"@,
            e.contents == contents,
            e.navigation.cursor.row == 0 && e.navigation.cursor.column == 0,
            e.navigation.viewport.row_offset == 0 && e.navigation.viewport.column_offset == 0,
            e.navigation.screen_size.rows == 0 && e.navigation.screen_size.columns == 0,
            e.key_history.events_seq() == Seq::<KeyStroke>::empty(),
            e.key_history.spec_horizon() == 3,
    {
        Editor {
            buffer_name: String::from_str("Unnamed"),
            contents,
            navigation: NavigationModel::default(),
            key_history: KeyHistory::default(),
        }
    }

    /// The editor on `contents`, and its first command: find out the size
    /// of the screen.
    pub fn init(contents: EditingModel) -> (r: (Editor, Cmd<Message, EditorEffect>))
        ensures
            r.0.buffer_name@ == "Unnamed"@,
            r.0.contents == contents,
            r.0.navigation.cursor.row == 0 && r.0.navigation.cursor.column == 0,
            r.0.navigation.viewport.row_offset == 0 && r.0.navigation.viewport.column_offset == 0,
            r.0.navigation.screen_size.rows == 0 && r.0.navigation.screen_size.columns == 0,
            r.0.key_history.events_seq() == Seq::<KeyStroke>::empty(),
            r.0.key_history.spec_horizon() == 3,
            r.1 == Cmd::<Message, EditorEffect>::Suspend(EditorEffect::RequestSize),
    {
        (Editor::new(contents), ScreenSize::request())
    }

    /// Reacts to a key press.
    pub fn key_typed(&mut self, key: &KeyStroke) -> (cmd: Cmd<Message, EditorEffect>)
        requires
            old(self).key_permitted(*key),
        ensures
            key_effect(*old(self), *final(self), *key, cmd),
    {
        if key.code == KeyCode::Char('q') && key.modifiers.is_control_only() {
            Cmd::gtfo()
        } else if key.modifiers.is_empty() && NavigationModel::is_recognized(&key.code) {
            self.navigation.move_intended(&key.code);
            Cmd::none()
        } else {
            self.record_key_event(key)
        }
    }

    /// Records a key press in the history.
    pub fn record_key_event(&mut self, ev: &KeyStroke) -> (cmd: Cmd<Message, EditorEffect>)
        ensures
            cmd is Nothing,
            final(self).buffer_name == old(self).buffer_name,
            final(self).contents == old(self).contents,
            final(self).navigation == old(self).navigation,
            final(self).key_history.spec_horizon() == old(self).key_history.spec_horizon(),
            final(self).key_history.events_seq() == recorded(
                old(self).key_history.events_seq(),
                *ev,
                old(self).key_history.spec_horizon(),
            ),
    {
        self.key_history.record(ev);
        Cmd::none()
    }

    /// Reacts to an event from the terminal.
    pub fn event_occurred(&mut self, event: &Event) -> (cmd: Cmd<Message, EditorEffect>)
        requires
            old(self).event_permitted(*event),
        ensures
            event_effect(*old(self), *final(self), *event, cmd),
    {
        match event {
            Event::Key(key) => self.key_typed(key),
            Event::Resize(width, height) => self.navigation.screen_size_changed(
                ScreenSize::from((*width, *height)),
            ),
            Event::Other => Cmd::none(),
        }
    }

    /// Reacts to a message; the answer is to quit (on Control-Q) or to do
    /// nothing more.
    pub fn update(&mut self, message: &Message) -> (cmd: Cmd<Message, EditorEffect>)
        requires
            old(self).update_permitted(*message),
        ensures
            match *message {
                Message::SetBufferName(name) => {
                    &&& cmd is Nothing
                    &&& final(self).buffer_name == name
                    &&& final(self).contents == old(self).contents
                    &&& final(self).navigation == old(self).navigation
                    &&& final(self).key_history == old(self).key_history
                },
                Message::ExternalEvent(e) => event_effect(*old(self), *final(self), e, cmd),
                Message::SizedChanged(size) => {
                    &&& cmd is Nothing
                    &&& final(self).buffer_name == old(self).buffer_name
                    &&& final(self).contents == old(self).contents
                    &&& final(self).key_history == old(self).key_history
                    &&& final(self).navigation == NavigationModel {
                        screen_size: size,
                        ..old(self).navigation
                    }
                },
            },
            cmd is Nothing || cmd is Gtfo,
            old(self).key_history.wf() ==> final(self).key_history.wf(),
    {
        match message {
            Message::SetBufferName(new_name) => {
                self.buffer_name = new_name.clone();
                Cmd::none()
            },
            Message::ExternalEvent(event) => self.event_occurred(event),
            Message::SizedChanged(size) => self.navigation.screen_size_changed(*size),
        }
    }
}

impl Editor {
    /// `render_line` neither overflows nor cuts a character apart on screen
    /// line `i`.
    pub open spec fn line_permitted(&self, i: usize) -> bool {
        self.navigation.viewport.clip_permitted(
            i,
            self.navigation.screen_size.columns,
            self.contents.lines@,
        )
    }

    /// What screen line `i` shows: the clipped document line, or `~` past
    /// the end of the document.
    pub open spec fn shows(&self, i: usize, text: Seq<char>) -> bool {
        let v = self.navigation.viewport;
        if v.row_offset + i >= self.contents.lines@.len() {
            text == "~"@
        } else {
            v.clips_to(
                i,
                self.navigation.screen_size.columns,
                self.contents.lines@,
                Some(text),
            )
        }
    }

    /// The text of screen line `viewport_line_index`.
    pub fn render_line(&self, viewport_line_index: usize) -> (r: &str)
        requires
            self.line_permitted(viewport_line_index),
        ensures
            self.shows(viewport_line_index, r@),
    {
        let width = self.navigation.screen_size.columns;
        let clipped = self.navigation.viewport.select_and_clip(
            viewport_line_index,
            width,
            self.contents.lines.as_slice(),
        );
        match clipped {
            Some(line) => line,
            None => "~",
        }
    }

    /// The texts of all screen lines, top to bottom.
    pub fn screen_lines(&self) -> (v: Vec<&str>)
        requires
            forall|i: usize| i < self.navigation.screen_size.rows ==> self.line_permitted(i),
        ensures
            v@.len() == self.navigation.screen_size.rows,
            forall|i: int| 0 <= i < v@.len() ==> self.shows(i as usize, #[trigger] v@[i]@),
    {
        let mut v: Vec<&str> = Vec::new();
        let rows = self.navigation.screen_size.rows;
        for i in 0..rows
            invariant
                rows == self.navigation.screen_size.rows,
                forall|i: usize| i < rows ==> self.line_permitted(i),
                v@.len() == i,
                forall|j: int| 0 <= j < i ==> self.shows(j as usize, #[trigger] v@[j]@),
        {
            v.push(self.render_line(i));
        }
        v
    }

    /// Where the terminal cursor goes: the cursor's column and row, as the
    /// terminal's 16-bit coordinates (cut to their low 16 bits).
    pub fn cursor_target(&self) -> (r: (u16, u16))
        ensures
            r.0 == self.navigation.cursor.column as u16,
            r.1 == self.navigation.cursor.row as u16,
    {
        (
            #[verifier::truncate]
            (self.navigation.cursor.column as u16),
            #[verifier::truncate]
            (self.navigation.cursor.row as u16),
        )
    }
}

impl Editor {
    /// Whether `update(message)` may be called.
    pub fn can_update(&self, message: &Message) -> (b: bool)
        ensures
            b == self.update_permitted(*message),
    {
        match message {
            Message::ExternalEvent(Event::Key(k)) => {
                if k.modifiers.is_empty() && NavigationModel::is_recognized(&k.code) {
                    self.navigation.can_move(&k.code)
                } else {
                    true
                }
            },
            _ => true,
        }
    }

    /// Whether `screen_lines` may be called.
    pub fn can_render(&self) -> (b: bool)
        ensures
            b == forall|i: usize| i < self.navigation.screen_size.rows ==> self.line_permitted(i),
    {
        let rows = self.navigation.screen_size.rows;
        for i in 0..rows
            invariant
                rows == self.navigation.screen_size.rows,
                forall|j: usize| j < i ==> self.line_permitted(j),
        {
            if !self.navigation.viewport.can_clip(
                i,
                self.navigation.screen_size.columns,
                self.contents.lines.as_slice(),
            ) {
                assert(!self.line_permitted(i));
                return false;
            }
        }
        true
    }
}

/// The length of the history's listing, summed from the oldest event on:
/// each description and its comma.
pub open spec fn listed_len(events: Seq<KeyStroke>) -> int
    decreases events.len(),
{
    if events.len() == 0 {
        0
    } else {
        events[0].description@.len() + 1 + listed_len(events.drop_first())
    }
}

proof fn lemma_listing_concat(a: Seq<KeyStroke>, b: Seq<KeyStroke>)
    ensures
        listing(a + b) == listing(a) + listing(b),
    decreases b.len(),
{
    if b.len() == 0 {
        assert(a + b =~= a);
        assert(listing(a) + listing(b) =~= listing(a));
    } else {
        lemma_listing_concat(a, b.drop_last());
        assert((a + b).drop_last() =~= a + b.drop_last());
        assert((a + b).last() == b.last());
        assert(listing(a + b) =~= listing(a) + listing(b));
    }
}

proof fn lemma_listing_single(e: KeyStroke)
    ensures
        listing(seq![e]) == e.description@ + seq![','],
{
    let one = seq![e];
    assert(one.drop_last() =~= Seq::<KeyStroke>::empty());
    assert(listing(Seq::<KeyStroke>::empty()) == Seq::<char>::empty());
    assert(one.last() == e);
    assert(listing(one) == listing(one.drop_last()) + e.description@ + seq![',']);
    assert(Seq::<char>::empty() + e.description@ + seq![','] =~= e.description@ + seq![',']);
}

proof fn lemma_listing_len(events: Seq<KeyStroke>)
    ensures
        listing(events).len() == listed_len(events),
    decreases events.len(),
{
    if events.len() > 0 {
        let rest = events.drop_first();
        lemma_listing_len(rest);
        lemma_listing_concat(seq![events[0]], rest);
        assert(seq![events[0]] + rest =~= events);
        lemma_listing_single(events[0]);
    }
}

/// The history text lists every held event, in order, each once: the text
/// of two runs of events is the text of the first followed by that of the
/// second; one event is written as its description and a comma; so the
/// text is `[`, then for each event its description and a comma, then `]`,
/// and its length is 2 plus the sum, over the events, of their description
/// lengths plus one.
pub proof fn lemma_history_listing(a: Seq<KeyStroke>, b: Seq<KeyStroke>, e: KeyStroke)
    ensures
        listing(a + b) == listing(a) + listing(b),
        listing(seq![e]) == e.description@ + seq![','],
        (seq!['['] + listing(a) + seq![']']).len() == 2 + listed_len(a),
{
    lemma_listing_concat(a, b);
    lemma_listing_single(e);
    lemma_listing_len(a);
}

/// A navigation key (arrow or page key) pressed without any modifier moves
/// exactly as that key's navigation step says, leaves the key history alone
/// and asks for nothing more; any other key without Control-Q's modifiers
/// goes to the history and leaves the navigation alone.
pub proof fn lemma_navigation_keys_navigate(
    before: Editor,
    after: Editor,
    key: KeyStroke,
    cmd: Cmd<Message, EditorEffect>,
)
    requires
        key_effect(before, after, key, cmd),
    ensures
        (key.code is Up || key.code is Down || key.code is Left || key.code is Right
            || key.code is PageUp || key.code is PageDown) && !key.modifiers.shift
            && !key.modifiers.control && !key.modifiers.alt && !key.modifiers.super_key
            && !key.modifiers.hyper && !key.modifiers.meta ==> {
            &&& cmd is Nothing
            &&& after.navigation == before.navigation.navigated(key.code)
            &&& after.key_history == before.key_history
        },
        !(key.code is Up || key.code is Down || key.code is Left || key.code is Right
            || key.code is PageUp || key.code is PageDown) && !key.modifiers.control ==> {
            &&& cmd is Nothing
            &&& after.navigation == before.navigation
            &&& after.key_history.events_seq() == recorded(
                before.key_history.events_seq(),
                key,
                before.key_history.spec_horizon(),
            )
        },
{
}

/// A resize sets the screen size to exactly the reported size, whatever it
/// was before, and moves neither the cursor nor the viewport; of two resizes
/// in a row the second one wins.
pub proof fn lemma_resize_sets_size(
    e0: Editor,
    e1: Editor,
    e2: Editor,
    w1: u16,
    h1: u16,
    w2: u16,
    h2: u16,
    c1: Cmd<Message, EditorEffect>,
    c2: Cmd<Message, EditorEffect>,
)
    requires
        event_effect(e0, e1, Event::Resize(w1, h1), c1),
    ensures
        c1 is Nothing,
        e1.navigation.screen_size.columns == w1,
        e1.navigation.screen_size.rows == h1,
        e1.navigation.cursor == e0.navigation.cursor,
        e1.navigation.viewport == e0.navigation.viewport,
        e1.key_history == e0.key_history,
        event_effect(e1, e2, Event::Resize(w2, h2), c2) ==> {
            &&& e2.navigation.screen_size.columns == w2
            &&& e2.navigation.screen_size.rows == h2
            &&& e2.navigation.cursor == e0.navigation.cursor
            &&& e2.navigation.viewport == e0.navigation.viewport
        },
{
}

} // verus!
