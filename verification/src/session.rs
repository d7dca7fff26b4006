//! The connection of one run of the program: when it is opened, what is owed to
//! it, and how it is closed.
use vstd::prelude::*;

use crate::console::stands_in;
use crate::error::{CliError, ErrorView};
use crate::text::{concat, opt_text};

verus! {

/// Something that is done with an open connection.
#[derive(Debug, Clone, Copy, PartialEq, Eq)]
pub enum LinkAction<S> {
    /// Disable the console source `S`.
    DisableSource(S),
    /// Append the console history to the preserved one.
    SaveHistory,
    /// Close the connection.
    Disconnect,
}

/// The state of the connection. `S` tells console sources apart.
#[derive(Debug)]
pub struct Session<S> {
    pub connected: bool,
    /// The source that was being enabled, or is.
    pub source: Option<S>,
    /// Whether the console history outlives the connection.
    pub preserve_console: bool,
}

/// Something that happens to the session.
pub enum SessionEvent<S> {
    /// A connection was opened.
    LinkUp,
    /// A console source is about to be enabled.
    EnablingSource(S),
    /// A connection that was opened for a question is no longer needed.
    QueryDone,
    /// The command has ended, in whatever way.
    Ended,
}

/// What closing the connection takes.
pub open spec fn closing<S>(preserve_console: bool) -> Seq<LinkAction<S>> {
    if preserve_console {
        seq![LinkAction::SaveHistory, LinkAction::Disconnect]
    } else {
        seq![LinkAction::Disconnect]
    }
}

impl<S> Session<S> {
    /// The session after an event.
    pub open spec fn after(self, event: SessionEvent<S>) -> Session<S> {
        match event {
            SessionEvent::LinkUp => Session { connected: true, ..self },
            SessionEvent::EnablingSource(s) => Session { source: Some(s), ..self },
            SessionEvent::QueryDone => Session { connected: false, ..self },
            SessionEvent::Ended => Session { connected: false, source: None, ..self },
        }
    }

    /// What is done on an event.
    pub open spec fn actions(self, event: SessionEvent<S>) -> Seq<LinkAction<S>> {
        match event {
            SessionEvent::LinkUp => Seq::empty(),
            SessionEvent::EnablingSource(_) => Seq::empty(),
            SessionEvent::QueryDone => if self.connected {
                closing(self.preserve_console)
            } else {
                Seq::empty()
            },
            SessionEvent::Ended => if self.connected {
                (match self.source {
                    Some(s) => seq![LinkAction::DisableSource(s)],
                    None => Seq::empty(),
                }) + closing(self.preserve_console)
            } else {
                Seq::empty()
            },
        }
    }

    /// Everything that is done over a run of events.
    pub open spec fn trace(self, events: Seq<SessionEvent<S>>) -> Seq<LinkAction<S>>
        decreases events.len(),
    {
        if events.len() == 0 {
            Seq::empty()
        } else {
            self.actions(events[0]) + self.after(events[0]).trace(events.skip(1))
        }
    }

    /// The session after a run of events.
    pub open spec fn after_all(self, events: Seq<SessionEvent<S>>) -> Session<S>
        decreases events.len(),
    {
        if events.len() == 0 {
            self
        } else {
            self.after(events[0]).after_all(events.skip(1))
        }
    }

    /// A session without a connection.
    pub fn new(preserve_console: bool) -> (session: Self)
        ensures
            session == (Session { connected: false, source: None::<S>, preserve_console }),
    {
        Session { connected: false, source: None, preserve_console }
    }

    /// Takes note that a connection was opened.
    pub fn link_up(&mut self)
        ensures
            *final(self) == old(self).after(SessionEvent::LinkUp),
    {
        self.connected = true;
    }

    /// Takes note that a source is about to be enabled. From here on it is
    /// disabled at the end: the device may have accepted the request by then.
    pub fn enabling_source(&mut self, source: S)
        ensures
            *final(self) == old(self).after(SessionEvent::EnablingSource(source)),
    {
        self.source = Some(source);
    }

    /// What closes a connection that was opened for a question.
    pub fn query_done(&mut self) -> (actions: Vec<LinkAction<S>>)
        ensures
            *final(self) == old(self).after(SessionEvent::QueryDone),
            actions@ == old(self).actions(SessionEvent::QueryDone),
    {
        let mut actions: Vec<LinkAction<S>> = Vec::new();
        if self.connected {
            if self.preserve_console {
                actions.push(LinkAction::SaveHistory);
            }
            actions.push(LinkAction::Disconnect);
        }
        self.connected = false;
        assert(actions@ =~= old(self).actions(SessionEvent::QueryDone));
        actions
    }

    /// What is done when the command has ended, in whatever way.
    pub fn ended(&mut self) -> (actions: Vec<LinkAction<S>>)
        ensures
            *final(self) == old(self).after(SessionEvent::Ended),
            actions@ == old(self).actions(SessionEvent::Ended),
    {
        let source = self.source.take();
        let mut actions: Vec<LinkAction<S>> = Vec::new();
        if self.connected {
            if let Some(s) = source {
                actions.push(LinkAction::DisableSource(s));
            }
            if self.preserve_console {
                actions.push(LinkAction::SaveHistory);
            }
            actions.push(LinkAction::Disconnect);
        }
        self.connected = false;
        assert(actions@ =~= old(self).actions(SessionEvent::Ended));
        actions
    }
}

/// The error for a connection that could not be opened.
pub open spec fn not_connected(uri: Seq<char>, detail: Seq<char>) -> ErrorView {
    ErrorView::Connection("connecting to "@ + uri + ": "@ + detail)
}

/// The error for a connection that could not be opened.
pub fn connection_error(uri: &str, detail: &str) -> (err: CliError)
    ensures
        err@ == not_connected(uri@, detail@),
{
    CliError::Connection("connecting to ".to_owned().concat(uri).concat(": ").concat(detail))
}

// ---- Preserved console history ---------------------------------------------

/// What is appended to the preserved history when a connection is closed.
pub open spec fn appended(first_output: Option<Seq<char>>) -> Option<Seq<char>> {
    match first_output {
        Some(text) => if text.len() > 0 {
            Some(text)
        } else {
            None
        },
        None => None,
    }
}

/// The text of a file, which is empty where there is no file that can be read.
pub open spec fn content_of(file: Option<Seq<char>>) -> Seq<char> {
    match file {
        Some(text) => text,
        None => Seq::empty(),
    }
}

/// Whether a file is to be emptied once it was read.
pub open spec fn is_emptied(file: Option<Seq<char>>) -> bool {
    content_of(file).len() > 0
}

/// What is appended to the preserved history when a connection is closed: the
/// first output of the console, which replays what it has kept, unless there is
/// none.
pub fn history_to_append(first_output: Option<String>) -> (r: Option<String>)
    ensures
        opt_text(r) == appended(opt_text(first_output)),
{
    match first_output {
        Some(text) => if text.as_str().is_empty() {
            None
        } else {
            Some(text)
        },
        None => None,
    }
}

/// The preserved history as it is read back: its text, which is empty where it
/// cannot be read, and whether the file is to be emptied now.
pub fn history_to_replay(content: Option<String>) -> (r: (String, bool))
    ensures
        r.0@ == content_of(opt_text(content)),
        r.1 == is_emptied(opt_text(content)),
{
    let text = match content {
        Some(text) => text,
        None => String::new(),
    };
    let clear = !text.as_str().is_empty();
    (text, clear)
}

/// What the user is warned of when the console history could not be saved.
pub fn history_warning(detail: &str) -> (text: String)
    ensures
        text@ == "Warning: could not save console history: "@ + detail@,
{
    concat("Warning: could not save console history: ", detail)
}

// ---- Laws ------------------------------------------------------------------

/// How many connections a run of events opens.
pub open spec fn openings<S>(events: Seq<SessionEvent<S>>) -> nat
    decreases events.len(),
{
    if events.len() == 0 {
        0
    } else {
        openings(events.skip(1)) + if events[0] is LinkUp {
            1nat
        } else {
            0
        }
    }
}

/// How many connections are closed.
pub open spec fn closings<S>(actions: Seq<LinkAction<S>>) -> nat
    decreases actions.len(),
{
    if actions.len() == 0 {
        0
    } else {
        closings(actions.skip(1)) + if actions[0] is Disconnect {
            1nat
        } else {
            0
        }
    }
}

/// Whether connections are only opened while there is none.
pub open spec fn one_at_a_time<S>(session: Session<S>, events: Seq<SessionEvent<S>>) -> bool
    decreases events.len(),
{
    events.len() > 0 ==> (events[0] is LinkUp ==> !session.connected) && one_at_a_time(
        session.after(events[0]),
        events.skip(1),
    )
}

proof fn lemma_closings_add<S>(a: Seq<LinkAction<S>>, b: Seq<LinkAction<S>>)
    ensures
        closings(a + b) == closings(a) + closings(b),
    decreases a.len(),
{
    if a.len() == 0 {
        assert(a + b =~= b);
    } else {
        assert((a + b).skip(1) =~= a.skip(1) + b);
        lemma_closings_add(a.skip(1), b);
    }
}

proof fn lemma_closings_of_actions<S>(session: Session<S>, event: SessionEvent<S>)
    ensures
        closings(session.actions(event)) == (if session.connected && (event is QueryDone
            || event is Ended) {
            1nat
        } else {
            0nat
        }),
{
    reveal_with_fuel(closings, 5);
    let c = closing::<S>(session.preserve_console);
    assert(closings(c) == 1) by {
        if session.preserve_console {
            assert(c.skip(1) =~= seq![LinkAction::Disconnect]);
            assert(c.skip(1).skip(1) =~= Seq::empty());
        } else {
            assert(c.skip(1) =~= Seq::empty());
        }
    }
    if session.connected && event is Ended {
        match session.source {
            Some(s) => {
                let d = seq![LinkAction::DisableSource(s)];
                assert(d.skip(1) =~= Seq::empty());
                lemma_closings_add(d, c);
            },
            None => {
                assert(Seq::<LinkAction<S>>::empty() + c =~= c);
            },
        }
    }
}

/// Every connection that is opened is closed exactly once by the end, and none
/// that was not opened.
pub proof fn connections_are_closed_once<S>(session: Session<S>, events: Seq<SessionEvent<S>>)
    requires
        one_at_a_time(session, events),
    ensures
        closings(session.trace(events)) + (if session.after_all(events).connected {
            1nat
        } else {
            0
        }) == openings(events) + (if session.connected {
            1nat
        } else {
            0
        }),
    decreases events.len(),
{
    if events.len() > 0 {
        let next = session.after(events[0]);
        lemma_closings_add(session.actions(events[0]), next.trace(events.skip(1)));
        lemma_closings_of_actions(session, events[0]);
        connections_are_closed_once(next, events.skip(1));
    }
}

/// Once the command has ended, no connection is open, whatever went before.
pub proof fn nothing_stays_open<S>(session: Session<S>, events: Seq<SessionEvent<S>>)
    ensures
        !session.after_all(events.push(SessionEvent::Ended)).connected,
    decreases events.len(),
{
    let all = events.push(SessionEvent::Ended);
    if events.len() == 0 {
        reveal_with_fuel(Session::after_all, 2);
        assert(all.skip(1) =~= Seq::empty());
    } else {
        assert(all.skip(1) =~= events.skip(1).push(SessionEvent::Ended));
        nothing_stays_open(session.after(events[0]), events.skip(1));
    }
}

/// Whether every close comes right after the history was saved, where it is
/// preserved, and the history is touched for no other reason.
pub open spec fn saves_before_closing<S>(preserve: bool, actions: Seq<LinkAction<S>>) -> bool {
    forall|i: int|
        #![trigger actions[i]]
        0 <= i < actions.len() ==> {
            &&& actions[i] is Disconnect && preserve ==> i > 0 && actions[i - 1] is SaveHistory
            &&& actions[i] is SaveHistory ==> preserve && i + 1 < actions.len() && actions[i
                + 1] is Disconnect
        }
}

/// Whether every source that is disabled is disabled while its connection is
/// still to be closed.
pub open spec fn disables_before_closing<S>(actions: Seq<LinkAction<S>>) -> bool {
    forall|i: int|
        #![trigger actions[i]]
        0 <= i < actions.len() && actions[i] is DisableSource ==> i + 1 < actions.len()
            && !(actions[i + 1] is DisableSource)
}

/// The console history is saved right before each close and nowhere else, and
/// only where it is preserved; a source is disabled before the close.
pub proof fn closing_is_orderly<S>(session: Session<S>, events: Seq<SessionEvent<S>>)
    ensures
        saves_before_closing(session.preserve_console, session.trace(events)),
        disables_before_closing(session.trace(events)),
    decreases events.len(),
{
    if events.len() > 0 {
        let now = session.actions(events[0]);
        let later = session.after(events[0]).trace(events.skip(1));
        let all = now + later;
        closing_is_orderly(session.after(events[0]), events.skip(1));
        assert(session.trace(events) == all);
        assert forall|i: int| #![trigger all[i]] 0 <= i < all.len() implies {
            &&& all[i] is Disconnect && session.preserve_console ==> i > 0
                && all[i - 1] is SaveHistory
            &&& all[i] is SaveHistory ==> session.preserve_console && i + 1 < all.len()
                && all[i + 1] is Disconnect
            &&& all[i] is DisableSource ==> i + 1 < all.len() && !(all[i + 1] is DisableSource)
        } by {
            if i >= now.len() {
                let j = i - now.len();
                assert(all[i] == later[j]);
                if j > 0 {
                    assert(all[i - 1] == later[j - 1]);
                }
                if j + 1 < later.len() {
                    assert(all[i + 1] == later[j + 1]);
                }
            } else {
                assert(all[i] == now[i]);
            }
        }
    }
}

/// The file with the preserved history after one more connection was closed.
pub open spec fn saved(file: Option<Seq<char>>, first_output: Option<Seq<char>>) -> Option<
    Seq<char>,
> {
    match appended(first_output) {
        Some(text) => Some(content_of(file) + text),
        None => file,
    }
}

/// The file with the preserved history after it was replayed.
pub open spec fn replayed(file: Option<Seq<char>>) -> Option<Seq<char>> {
    if is_emptied(file) {
        Some(Seq::empty())
    } else {
        file
    }
}

/// The file after a number of connections, each with its first output.
pub open spec fn saved_all(file: Option<Seq<char>>, outputs: Seq<Option<Seq<char>>>) -> Option<
    Seq<char>,
>
    decreases outputs.len(),
{
    if outputs.len() == 0 {
        file
    } else {
        saved(saved_all(file, outputs.drop_last()), outputs.last())
    }
}

/// The outputs one after the other.
pub open spec fn all_of(outputs: Seq<Option<Seq<char>>>) -> Seq<char>
    decreases outputs.len(),
{
    if outputs.len() == 0 {
        Seq::empty()
    } else {
        all_of(outputs.drop_last()) + content_of(outputs.last())
    }
}

/// The console output of one connection after the other accumulates, in order
/// and in full; once it was replayed, nothing of it is left to replay.
pub proof fn history_accumulates_until_it_is_replayed(
    file: Option<Seq<char>>,
    outputs: Seq<Option<Seq<char>>>,
)
    ensures
        content_of(saved_all(file, outputs)) == content_of(file) + all_of(outputs),
        content_of(replayed(saved_all(file, outputs))) == Seq::<char>::empty(),
    decreases outputs.len(),
{
    let now = saved_all(file, outputs);
    if outputs.len() == 0 {
        assert(content_of(file) + all_of(outputs) =~= content_of(file));
    } else {
        let before = saved_all(file, outputs.drop_last());
        history_accumulates_until_it_is_replayed(file, outputs.drop_last());
        assert(content_of(now) =~= content_of(before) + content_of(outputs.last()));
        assert(content_of(file) + all_of(outputs) =~= content_of(file) + all_of(
            outputs.drop_last(),
        ) + content_of(outputs.last()));
    }
    assert(content_of(replayed(now)) =~= Seq::empty());
}

/// A source that was about to be enabled on an open connection is the first
/// thing that is dealt with when the command ends, and the close is the last.
pub proof fn enabled_source_is_disabled<S>(session: Session<S>, source: S)
    requires
        session.connected,
    ensures
        ({
            let actions = session.after(SessionEvent::EnablingSource(source)).actions(
                SessionEvent::Ended,
            );
            &&& actions.first() == LinkAction::DisableSource(source)
            &&& actions.last() == LinkAction::<S>::Disconnect
        }),
{
}

/// A connection that failed is an error of its class, and tells which link and
/// why.
pub proof fn failed_connections_are_told(uri: Seq<char>, detail: Seq<char>)
    ensures
        not_connected(uri, detail) matches ErrorView::Connection(text) && stands_in(uri, text)
            && stands_in(detail, text),
{
    let text = "connecting to "@ + uri + ": "@ + detail;
    assert(text =~= "connecting to "@ + uri + (": "@ + detail));
    assert(text =~= ("connecting to "@ + uri + ": "@) + detail + Seq::empty());
}

/// Output is kept in full unless it is empty, and a file is emptied exactly where
/// something was read from it.
pub proof fn output_is_kept_in_full(output: Seq<char>, file: Option<Seq<char>>)
    ensures
        output.len() > 0 ==> appended(Some(output)) == Some(output),
        output.len() == 0 ==> appended(Some(output)) is None,
        appended(None) is None,
        file matches Some(text) ==> content_of(file) == text,
        file is None ==> content_of(file).len() == 0,
        is_emptied(file) <==> content_of(file).len() > 0,
{
}

/// Nothing is done while a connection is opened or a source is enabled, nor at the
/// end of a session without a connection. Only the source that was enabled last is
/// disabled, only at the end, and only over an open connection.
pub proof fn only_the_enabled_source_is_disabled<S>(
    session: Session<S>,
    event: SessionEvent<S>,
    i: int,
)
    requires
        0 <= i < session.actions(event).len(),
    ensures
        session.connected,
        event is QueryDone || event is Ended,
        session.actions(event)[i] matches LinkAction::DisableSource(s) ==> event is Ended && i == 0
            && session.source == Some(s),
        session.actions(event)[i] is SaveHistory ==> session.preserve_console,
        session.actions(event).last() is Disconnect,
{
}

/// A connection counts as open from when it was opened until it is closed, a source
/// as enabled until the session ends, and whether the history is preserved never
/// changes.
pub proof fn sessions_remember_what_is_open<S>(session: Session<S>, source: S, event: SessionEvent<S>)
    ensures
        session.after(SessionEvent::LinkUp).connected,
        !session.after(SessionEvent::QueryDone).connected,
        !session.after(SessionEvent::Ended).connected,
        session.after(SessionEvent::EnablingSource(source)).connected == session.connected,
        session.after(SessionEvent::EnablingSource(source)).source == Some(source),
        session.after(SessionEvent::LinkUp).source == session.source,
        session.after(SessionEvent::Ended).source is None,
        session.after(event).preserve_console == session.preserve_console,
{
}

}
