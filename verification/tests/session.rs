use shellpane::command::{CommandTable, InvocationDescriptor};
use shellpane::key::{KeyCode, KeyEvent, Phase};
use shellpane::session::{Action, Event, ExecError, Session};

fn release(c: char) -> Event {
    Event::Key(KeyEvent { code: KeyCode::Char(c), ctrl: false, phase: Phase::Release })
}

fn key(code: KeyCode, ctrl: bool, phase: Phase) -> Event {
    Event::Key(KeyEvent { code, ctrl, phase })
}

fn typed(session: &mut Session, text: &str) {
    for c in text.chars() {
        assert_eq!(session.step(release(c)), Action::Continue);
    }
}

fn fresh() -> Session {
    Session::new(CommandTable::standard(), String::from("C:\\work"))
}

#[test]
fn a_new_session_has_an_empty_line() {
    let session = fresh();
    assert_eq!(session.input(), "");
    assert_eq!(session.directory(), "C:\\work");
    assert_eq!(session.table().interpreter(), "Powershell");
}

#[test]
fn released_characters_are_appended_in_order() {
    let mut session = fresh();
    typed(&mut session, "git status --short");
    assert_eq!(session.input(), "git status --short");
}

#[test]
fn typing_continues_after_what_is_there() {
    let mut session = fresh();
    typed(&mut session, "ab");
    typed(&mut session, "cd");
    assert_eq!(session.input(), "abcd");
}

#[test]
fn pressed_and_repeated_characters_are_not_appended() {
    let mut session = fresh();
    assert_eq!(session.step(key(KeyCode::Char('a'), false, Phase::Press)), Action::Continue);
    assert_eq!(session.step(key(KeyCode::Char('a'), false, Phase::Repeat)), Action::Continue);
    assert_eq!(session.input(), "");
    assert_eq!(session.step(key(KeyCode::Char('a'), false, Phase::Release)), Action::Continue);
    assert_eq!(session.input(), "a");
}

#[test]
fn control_characters_are_left_out_of_the_line() {
    let mut session = fresh();
    typed(&mut session, "a");
    assert_eq!(session.step(release('\u{7}')), Action::Continue);
    assert_eq!(session.step(release('\u{1f}')), Action::Continue);
    assert_eq!(session.step(release('\u{7f}')), Action::Continue);
    assert_eq!(session.step(release('\u{9f}')), Action::Continue);
    assert_eq!(session.input(), "a");
    assert_eq!(session.step(release(' ')), Action::Continue);
    assert_eq!(session.step(release('\u{a0}')), Action::Continue);
    assert_eq!(session.step(release('é')), Action::Continue);
    assert_eq!(session.input(), "a \u{a0}é");
}

#[test]
fn control_with_another_character_does_nothing() {
    let mut session = fresh();
    typed(&mut session, "x");
    assert_eq!(session.step(key(KeyCode::Char('a'), true, Phase::Release)), Action::Continue);
    assert_eq!(session.step(key(KeyCode::Char('C'), true, Phase::Release)), Action::Continue);
    assert_eq!(session.input(), "x");
}

#[test]
fn backspace_on_the_empty_line_does_nothing() {
    let mut session = fresh();
    assert_eq!(session.step(key(KeyCode::Backspace, false, Phase::Release)), Action::Continue);
    assert_eq!(session.input(), "");
    assert_eq!(session.step(key(KeyCode::Backspace, false, Phase::Release)), Action::Continue);
    assert_eq!(session.input(), "");
}

#[test]
fn backspace_removes_exactly_the_last_character() {
    let mut session = fresh();
    typed(&mut session, "hello");
    assert_eq!(session.step(key(KeyCode::Backspace, false, Phase::Release)), Action::Continue);
    assert_eq!(session.input(), "hell");
}

#[test]
fn backspace_counts_only_when_released() {
    let mut session = fresh();
    typed(&mut session, "hello");
    assert_eq!(session.step(key(KeyCode::Backspace, false, Phase::Press)), Action::Continue);
    assert_eq!(session.step(key(KeyCode::Backspace, false, Phase::Repeat)), Action::Continue);
    assert_eq!(session.input(), "hello");
    assert_eq!(session.step(key(KeyCode::Backspace, true, Phase::Release)), Action::Continue);
    assert_eq!(session.input(), "hell");
}

#[test]
fn backspace_removes_a_whole_character() {
    let mut session = fresh();
    typed(&mut session, "né");
    assert_eq!(session.step(key(KeyCode::Backspace, false, Phase::Release)), Action::Continue);
    assert_eq!(session.input(), "n");
}

#[test]
fn other_keys_and_idle_turns_change_nothing() {
    let mut session = fresh();
    typed(&mut session, "dir");
    assert_eq!(session.step(key(KeyCode::Other, false, Phase::Release)), Action::Continue);
    assert_eq!(session.step(key(KeyCode::Other, true, Phase::Press)), Action::Continue);
    assert_eq!(session.step(Event::Idle), Action::Continue);
    assert_eq!(session.step(Event::Executed(Ok(()))), Action::Continue);
    assert_eq!(session.input(), "dir");
}

#[test]
fn control_c_quits_whatever_the_line_holds() {
    let mut session = fresh();
    assert_eq!(session.step(key(KeyCode::Char('c'), true, Phase::Press)), Action::Quit);
    typed(&mut session, "half a comm");
    assert_eq!(session.step(key(KeyCode::Char('c'), true, Phase::Release)), Action::Quit);
    assert_eq!(session.step(key(KeyCode::Char('c'), true, Phase::Repeat)), Action::Quit);
    assert_eq!(session.input(), "half a comm");
}

#[test]
fn a_plain_c_is_typed_and_does_not_quit() {
    let mut session = fresh();
    assert_eq!(session.step(release('c')), Action::Continue);
    assert_eq!(session.input(), "c");
}

#[test]
fn typing_a_trigger_and_enter_executes_the_predefined_invocation() {
    let mut session = fresh();
    typed(&mut session, "fe");
    let action = session.step(key(KeyCode::Enter, false, Phase::Press));
    assert_eq!(
        action,
        Action::Execute(InvocationDescriptor::Predefined {
            program: String::from("Powershell"),
            argument: String::from("fzf | Split-Path | cd"),
        })
    );
}

#[test]
fn typing_another_line_and_enter_executes_the_fallback() {
    let mut session = fresh();
    typed(&mut session, "ls -la");
    let action = session.step(key(KeyCode::Enter, false, Phase::Press));
    assert_eq!(
        action,
        Action::Execute(InvocationDescriptor::Fallback {
            interpreter: String::from("Powershell"),
            line: String::from("ls -la"),
        })
    );
}

#[test]
fn blanks_typed_around_a_trigger_do_not_hide_it() {
    let mut session = fresh();
    typed(&mut session, " fe ");
    assert_eq!(session.input(), " fe ");
    assert_eq!(
        session.step(key(KeyCode::Enter, false, Phase::Press)),
        Action::Execute(InvocationDescriptor::Predefined {
            program: String::from("Powershell"),
            argument: String::from("fzf | Split-Path | cd"),
        })
    );
}

#[test]
fn enter_submits_in_every_phase() {
    let mut session = fresh();
    typed(&mut session, "ef");
    let expected = Action::Execute(InvocationDescriptor::Predefined {
        program: String::from("Powershell"),
        argument: String::from("fzf | $ { code $_ }"),
    });
    assert_eq!(session.step(key(KeyCode::Enter, false, Phase::Press)), expected);
    assert_eq!(session.step(key(KeyCode::Enter, false, Phase::Repeat)), expected);
    assert_eq!(session.step(key(KeyCode::Enter, false, Phase::Release)), expected);
    assert_eq!(session.step(key(KeyCode::Enter, true, Phase::Release)), expected);
}

#[test]
fn the_empty_line_is_submitted_to_the_interpreter() {
    let mut session = fresh();
    let action = session.step(key(KeyCode::Enter, false, Phase::Press));
    assert_eq!(
        action,
        Action::Execute(InvocationDescriptor::Fallback {
            interpreter: String::from("Powershell"),
            line: String::new(),
        })
    );
}

#[test]
fn submitting_leaves_the_line_in_place() {
    let mut session = fresh();
    typed(&mut session, "fe");
    session.step(key(KeyCode::Enter, false, Phase::Press));
    assert_eq!(session.input(), "fe");
    typed(&mut session, "x");
    let action = session.step(key(KeyCode::Enter, false, Phase::Press));
    assert_eq!(
        action,
        Action::Execute(InvocationDescriptor::Fallback {
            interpreter: String::from("Powershell"),
            line: String::from("fex"),
        })
    );
}

#[test]
fn a_spawn_failure_is_reported_and_the_loop_goes_on() {
    let mut session = fresh();
    typed(&mut session, "nosuch");
    let action = session.step(key(KeyCode::Enter, false, Phase::Press));
    assert!(matches!(action, Action::Execute(_)));
    let failure = ExecError::Spawn(String::from("program not found"));
    let action = session.step(Event::Executed(Err(failure)));
    assert_eq!(action, Action::Report(String::from("program not found")));
    assert_eq!(session.screen().prompt.text, " nosuch");
    typed(&mut session, "!");
    assert_eq!(session.screen().prompt.text, " nosuch!");
}

#[test]
fn a_failed_exit_is_reported_too() {
    let mut session = fresh();
    let failure = ExecError::Exit(String::from("exit status: 1"));
    assert_eq!(failure.message(), "exit status: 1");
    let action = session.step(Event::Executed(Err(failure)));
    assert_eq!(action, Action::Report(String::from("exit status: 1")));
    assert_eq!(session.input(), "");
}

#[test]
fn the_screen_follows_the_line_character_by_character() {
    let mut session = fresh();
    assert_eq!(session.screen().prompt.text, " ");
    session.step(release('l'));
    assert_eq!(session.screen().prompt.text, " l");
    session.step(release('s'));
    assert_eq!(session.screen().prompt.text, " ls");
    session.step(key(KeyCode::Backspace, false, Phase::Release));
    assert_eq!(session.screen().prompt.text, " l");
    assert_eq!(session.screen().prompt.title, " PS C:\\work ");
    assert_eq!(session.screen().body.title, " body ");
    assert_eq!(session.screen().body.text, " Welcome to the CLI app!");
}

#[test]
fn a_trigger_resolves_the_same_before_and_after_other_input() {
    let mut session = fresh();
    let before = session.table().resolve("fe");
    typed(&mut session, "something else");
    session.step(key(KeyCode::Enter, false, Phase::Press));
    session.step(Event::Executed(Err(ExecError::Spawn(String::from("no")))));
    session.step(key(KeyCode::Backspace, false, Phase::Release));
    let after = session.table().resolve("fe");
    assert_eq!(before, after);
    assert_eq!(
        after,
        InvocationDescriptor::Predefined {
            program: String::from("Powershell"),
            argument: String::from("fzf | Split-Path | cd"),
        }
    );
}

#[test]
fn a_session_takes_a_table_of_its_own() {
    let mut table = CommandTable::new("sh");
    table.insert("ll", "ls", "-l");
    let mut session = Session::new(table, String::new());
    typed(&mut session, "ll");
    assert_eq!(
        session.step(key(KeyCode::Enter, false, Phase::Press)),
        Action::Execute(InvocationDescriptor::Predefined {
            program: String::from("ls"),
            argument: String::from("-l"),
        })
    );
    typed(&mut session, " -a");
    assert_eq!(
        session.step(key(KeyCode::Enter, false, Phase::Press)),
        Action::Execute(InvocationDescriptor::Fallback {
            interpreter: String::from("sh"),
            line: String::from("ll -a"),
        })
    );
}
