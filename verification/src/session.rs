//! The state machine of the input loop.
//!
//! The loop has one state, in which it awaits input. A driver draws
//! [`Session::screen`], polls the keyboard, hands what it found to
//! [`Session::step`] and carries out the [`Action`] that comes back. Where the
//! action is to execute an invocation, the driver runs it and hands the
//! outcome to `step` as the next event.
//!
//! Two policies are fixed here. Submitting a line leaves the line in place: it
//! stays on the prompt until it is edited. And the empty line is submitted
//! like any other: it falls back to the interpreter with an empty argument.

use crate::command::{resolution, CommandTable, Invocation, InvocationDescriptor, TableView};
use crate::input::InputBuffer;
use crate::key::{KeyCode, KeyEvent, Phase};
use crate::render::{body_text, body_title, prompt_text, prompt_title, render, Screen};
use crate::text::all_printable;
use vstd::prelude::*;

verus! {

/// Why an invocation did not succeed.
#[derive(Debug, PartialEq, Eq)]
pub enum ExecError {
    /// The program could not be started; the text says why.
    Spawn(String),
    /// The program ran and ended in failure; the text says how.
    Exit(String),
}

impl ExecError {
    /// The text that the error carries.
    pub open spec fn spec_message(self) -> Seq<char> {
        match self {
            ExecError::Spawn(text) => text@,
            ExecError::Exit(text) => text@,
        }
    }

    /// The text that the error carries.
    pub fn message(&self) -> (text: &str)
        ensures
            text@ == self.spec_message(),
    {
        match self {
            ExecError::Spawn(text) => text.as_str(),
            ExecError::Exit(text) => text.as_str(),
        }
    }
}

/// What one turn of the loop found.
#[derive(Debug, PartialEq, Eq)]
pub enum Event {
    /// No key event was waiting.
    Idle,
    /// A key event.
    Key(KeyEvent),
    /// The invocation that the last action asked for has come back.
    Executed(Result<(), ExecError>),
}

/// What the driver is to do after a step.
#[derive(Debug, PartialEq, Eq)]
pub enum Action {
    /// Nothing: go on with the next turn.
    Continue,
    /// Run the invocation, wait for it, and hand its outcome back.
    Execute(InvocationDescriptor),
    /// Show the text to the user, and go on with the next turn.
    Report(String),
    /// Leave the loop.
    Quit,
}

/// The mathematical value of an [`Action`].
pub enum ActionView {
    Continue,
    Execute(Invocation),
    Report(Seq<char>),
    Quit,
}

impl View for Action {
    type V = ActionView;

    open spec fn view(&self) -> ActionView {
        match *self {
            Action::Continue => ActionView::Continue,
            Action::Execute(descriptor) => ActionView::Execute(descriptor@),
            Action::Report(text) => ActionView::Report(text@),
            Action::Quit => ActionView::Quit,
        }
    }
}

/// The line after `event`, where it was `input` before. The release of a
/// character key without control appends its character, if printable; the
/// release of backspace removes the last character, if there is one; nothing
/// else changes the line.
pub open spec fn next_input(input: Seq<char>, event: Event) -> Seq<char> {
    match event {
        Event::Key(key) => match key.code {
            KeyCode::Char(c) => if key.types(c) {
                input.push(c)
            } else {
                input
            },
            KeyCode::Backspace => if key.is_delete() && input.len() > 0 {
                input.drop_last()
            } else {
                input
            },
            _ => input,
        },
        _ => input,
    }
}

/// The action that answers `event`, where the line is `input`. Control with
/// `c` quits; enter executes what the line resolves to; a failed execution is
/// reported; everything else goes on.
pub open spec fn action_for(table: TableView, input: Seq<char>, event: Event) -> ActionView {
    match event {
        Event::Idle => ActionView::Continue,
        Event::Key(key) => if key.is_interrupt() {
            ActionView::Quit
        } else if key.is_submit() {
            ActionView::Execute(resolution(table, input))
        } else {
            ActionView::Continue
        },
        Event::Executed(Ok(_)) => ActionView::Continue,
        Event::Executed(Err(error)) => ActionView::Report(error.spec_message()),
    }
}

/// The mathematical value of a [`Session`].
pub struct SessionView {
    /// The command table, fixed when the session starts.
    pub table: TableView,
    /// The label of the working directory, fixed when the session starts.
    pub directory: Seq<char>,
    /// The line that is being typed.
    pub input: Seq<char>,
}

/// The session after `event`: the line moves on, the rest stays.
pub open spec fn next(state: SessionView, event: Event) -> SessionView {
    SessionView {
        table: state.table,
        directory: state.directory,
        input: next_input(state.input, event),
    }
}

/// The session after the events of `events`, from first to last.
pub open spec fn after(state: SessionView, events: Seq<Event>) -> SessionView
    decreases events.len(),
{
    if events.len() == 0 {
        state
    } else {
        next(after(state, events.drop_last()), events.last())
    }
}

/// The input loop's state: the command table and the directory label, both
/// fixed from the start, and the line that is being typed.
pub struct Session {
    table: CommandTable,
    directory: String,
    input: InputBuffer,
}

impl View for Session {
    type V = SessionView;

    closed spec fn view(&self) -> SessionView {
        SessionView { table: self.table@, directory: self.directory@, input: self.input@ }
    }
}

impl Session {
    /// The invariant of the type: the table is well formed and the line holds
    /// printable characters only.
    pub closed spec fn wf(&self) -> bool {
        self.table.wf() && self.input.wf()
    }

    /// A session that starts with the empty line.
    pub fn new(table: CommandTable, directory: String) -> (session: Session)
        requires
            table.wf(),
        ensures
            session.wf(),
            session@ == (SessionView {
                table: table@,
                directory: directory@,
                input: Seq::<char>::empty(),
            }),
    {
        Session { table, directory, input: InputBuffer::new() }
    }

    /// The line that is being typed.
    pub fn input(&self) -> (line: &str)
        ensures
            line@ == self@.input,
    {
        self.input.as_str()
    }

    /// The line of a well-formed session holds printable characters only.
    pub proof fn line_is_printable(&self)
        requires
            self.wf(),
        ensures
            all_printable(self@.input),
    {
    }

    /// The label of the working directory.
    pub fn directory(&self) -> (label: &str)
        ensures
            label@ == self@.directory,
    {
        self.directory.as_str()
    }

    /// The command table.
    pub fn table(&self) -> (table: &CommandTable)
        ensures
            table@ == self@.table,
            self.wf() ==> table.wf(),
    {
        &self.table
    }

    /// What the screen shows now: a function of the line and of the directory
    /// label.
    pub fn screen(&self) -> (screen: Screen)
        ensures
            screen.body.title@ == body_title(),
            screen.body.text@ == body_text(),
            screen.prompt.title@ == prompt_title(self@.directory),
            screen.prompt.text@ == prompt_text(self@.input),
    {
        render(&self.input, self.directory.as_str())
    }

    fn on_key(&mut self, key: KeyEvent) -> (action: Action)
        requires
            old(self).wf(),
        ensures
            final(self).wf(),
            final(self)@ == next(old(self)@, Event::Key(key)),
            action@ == action_for(old(self)@.table, old(self)@.input, Event::Key(key)),
    {
        let released = match key.phase {
            Phase::Release => true,
            _ => false,
        };
        match key.code {
            KeyCode::Char(c) => {
                if key.ctrl {
                    if c == 'c' {
                        Action::Quit
                    } else {
                        Action::Continue
                    }
                } else {
                    if released {
                        self.input.push(c);
                    }
                    Action::Continue
                }
            },
            KeyCode::Backspace => {
                if released {
                    self.input.backspace();
                }
                Action::Continue
            },
            KeyCode::Enter => Action::Execute(self.table.resolve(self.input.as_str())),
            KeyCode::Other => Action::Continue,
        }
    }

    /// Takes one event and says what the driver is to do.
    ///
    /// Only the line can change, as [`next_input`] says; the table and the
    /// directory label stay. The action is the one that [`action_for`] names:
    /// it is `Quit` for control with `c` and for nothing else.
    pub fn step(&mut self, event: Event) -> (action: Action)
        requires
            old(self).wf(),
        ensures
            final(self).wf(),
            final(self)@ == next(old(self)@, event),
            action@ == action_for(old(self)@.table, old(self)@.input, event),
    {
        match event {
            Event::Idle => Action::Continue,
            Event::Key(key) => self.on_key(key),
            Event::Executed(Ok(_)) => Action::Continue,
            Event::Executed(Err(error)) => Action::Report(error.message().to_owned()),
        }
    }
}

/// `event` is a key event that types `c`.
pub open spec fn types_char(event: Event, c: char) -> bool {
    event matches Event::Key(key) && key.types(c)
}

/// `event` is the release of the backspace key.
pub open spec fn deletes(event: Event) -> bool {
    event matches Event::Key(key) && key.is_delete()
}

/// No event brings a control character into the line: a line of printable
/// characters stays one.
pub proof fn line_stays_printable(input: Seq<char>, event: Event)
    requires
        all_printable(input),
    ensures
        all_printable(next_input(input, event)),
{
}

/// Character keys that are released one after the other, with nothing between
/// them, leave the line that was there followed by the typed characters in
/// their order. Table and directory label stay as they were.
pub proof fn typing_appends_in_order(state: SessionView, events: Seq<Event>, chars: Seq<char>)
    requires
        events.len() == chars.len(),
        forall|i: int| 0 <= i < events.len() ==> types_char(#[trigger] events[i], chars[i]),
    ensures
        after(state, events).input == state.input + chars,
        after(state, events).table == state.table,
        after(state, events).directory == state.directory,
    decreases events.len(),
{
    if events.len() == 0 {
        assert(state.input + chars =~= state.input);
    } else {
        typing_appends_in_order(state, events.drop_last(), chars.drop_last());
        assert(types_char(events.last(), chars.last()));
        assert((state.input + chars.drop_last()).push(chars.last()) =~= state.input + chars);
    }
}

/// Backspace on the empty line does nothing, however often it is released.
pub proof fn backspace_on_empty_line_does_nothing(state: SessionView, events: Seq<Event>)
    requires
        state.input.len() == 0,
        forall|i: int| 0 <= i < events.len() ==> deletes(#[trigger] events[i]),
    ensures
        after(state, events) == state,
    decreases events.len(),
{
    if events.len() > 0 {
        backspace_on_empty_line_does_nothing(state, events.drop_last());
        assert(deletes(events.last()));
    }
}

/// Backspace after some characters were typed removes the last of them and
/// nothing else.
pub proof fn backspace_removes_last_typed(
    state: SessionView,
    events: Seq<Event>,
    chars: Seq<char>,
    delete: Event,
)
    requires
        chars.len() > 0,
        events.len() == chars.len(),
        forall|i: int| 0 <= i < events.len() ==> types_char(#[trigger] events[i], chars[i]),
        deletes(delete),
    ensures
        after(state, events.push(delete)).input == state.input + chars.drop_last(),
{
    typing_appends_in_order(state, events, chars);
    assert(events.push(delete).drop_last() =~= events);
    assert(events.push(delete).last() == delete);
    assert((state.input + chars).drop_last() =~= state.input + chars.drop_last());
}

/// Control with `c` quits, whatever the line holds and whatever came before,
/// and leaves the session as it was.
pub proof fn interrupt_quits(state: SessionView, history: Seq<Event>, key: KeyEvent)
    requires
        key.is_interrupt(),
    ensures
        action_for(state.table, state.input, Event::Key(key)) == ActionView::Quit,
        next(state, Event::Key(key)) == state,
        action_for(
            after(state, history).table,
            after(state, history).input,
            Event::Key(key),
        ) == ActionView::Quit,
{
}

/// Nothing but control with `c` quits: no other key, no idle turn, and no
/// outcome of an execution, failed or not.
pub proof fn only_interrupt_quits(table: TableView, input: Seq<char>, event: Event)
    requires
        action_for(table, input, event) == ActionView::Quit,
    ensures
        event matches Event::Key(key) && key.is_interrupt(),
{
}

/// A failed execution is reported with the text of its error, and the
/// session goes on as it was.
pub proof fn failure_is_reported(state: SessionView, error: ExecError)
    ensures
        action_for(state.table, state.input, Event::Executed(Err(error))) == ActionView::Report(
            error.spec_message(),
        ),
        next(state, Event::Executed(Err(error))) == state,
{
}

/// What a line resolves to does not depend on what happened before: no event
/// changes the table, so the resolution after any history is the resolution
/// at the start.
pub proof fn history_keeps_resolution(state: SessionView, history: Seq<Event>, line: Seq<char>)
    ensures
        after(state, history).table == state.table,
        after(state, history).directory == state.directory,
        resolution(after(state, history).table, line) == resolution(state.table, line),
    decreases history.len(),
{
    if history.len() > 0 {
        history_keeps_resolution(state, history.drop_last(), line);
    }
}

} // verus!
