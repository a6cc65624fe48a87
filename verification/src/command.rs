//! The command table and the resolution of a submitted line.

use crate::text::{firm_text_is_trimmed, trim, trimmed, trimmed_is_idempotent};
use vstd::prelude::*;

verus! {

/// What is to be run for a submitted line.
#[derive(Debug, PartialEq, Eq)]
pub enum InvocationDescriptor {
    /// The line is a trigger of the table: the program and the argument that
    /// the table holds for it.
    Predefined { program: String, argument: String },
    /// The line is no trigger: the shell interpreter, with the line itself as
    /// its argument.
    Fallback { interpreter: String, line: String },
}

/// The mathematical value of an [`InvocationDescriptor`].
pub enum Invocation {
    Predefined { program: Seq<char>, argument: Seq<char> },
    Fallback { interpreter: Seq<char>, line: Seq<char> },
}

impl View for InvocationDescriptor {
    type V = Invocation;

    open spec fn view(&self) -> Invocation {
        match *self {
            InvocationDescriptor::Predefined { program, argument } => Invocation::Predefined {
                program: program@,
                argument: argument@,
            },
            InvocationDescriptor::Fallback { interpreter, line } => Invocation::Fallback {
                interpreter: interpreter@,
                line: line@,
            },
        }
    }
}

impl Invocation {
    /// The program that is started.
    pub open spec fn program(self) -> Seq<char> {
        match self {
            Invocation::Predefined { program, .. } => program,
            Invocation::Fallback { interpreter, .. } => interpreter,
        }
    }

    /// The one argument that the program is given.
    pub open spec fn argument(self) -> Seq<char> {
        match self {
            Invocation::Predefined { argument, .. } => argument,
            Invocation::Fallback { line, .. } => line,
        }
    }
}

impl InvocationDescriptor {
    /// The program to start.
    pub fn program(&self) -> (name: &str)
        ensures
            name@ == self@.program(),
    {
        match self {
            InvocationDescriptor::Predefined { program, .. } => program.as_str(),
            InvocationDescriptor::Fallback { interpreter, .. } => interpreter.as_str(),
        }
    }

    /// The one argument to hand to the program.
    pub fn argument(&self) -> (text: &str)
        ensures
            text@ == self@.argument(),
    {
        match self {
            InvocationDescriptor::Predefined { argument, .. } => argument.as_str(),
            InvocationDescriptor::Fallback { line, .. } => line.as_str(),
        }
    }

    /// Tells whether the descriptor came from the table.
    pub fn is_predefined(&self) -> (hit: bool)
        ensures
            hit == (self@ is Predefined),
    {
        match self {
            InvocationDescriptor::Predefined { .. } => true,
            InvocationDescriptor::Fallback { .. } => false,
        }
    }
}

/// The mathematical value of a [`CommandTable`].
pub struct TableView {
    /// The shell interpreter that runs a line which is no trigger.
    pub interpreter: Seq<char>,
    /// For each trigger, the program and the argument that it stands for.
    pub commands: Map<Seq<char>, (Seq<char>, Seq<char>)>,
}

impl TableView {
    /// No trigger begins or ends with white space.
    pub open spec fn wf(self) -> bool {
        forall|trigger: Seq<char>| #[trigger]
            self.commands.contains_key(trigger) ==> trimmed(trigger) == trigger
    }
}

/// What `line` resolves to under `table`. The key is the whole line without
/// the white space around it: where the key is a trigger, character for
/// character, the entry of the table; and else the interpreter with the line
/// as it was typed.
pub open spec fn resolution(table: TableView, line: Seq<char>) -> Invocation {
    if table.commands.contains_key(trimmed(line)) {
        Invocation::Predefined {
            program: table.commands[trimmed(line)].0,
            argument: table.commands[trimmed(line)].1,
        }
    } else {
        Invocation::Fallback { interpreter: table.interpreter, line }
    }
}

struct Entry {
    trigger: String,
    program: String,
    argument: String,
}

/// A mapping from triggers to predefined invocations, together with the shell
/// interpreter for every other line. It is built before the loop starts and
/// only read afterwards.
pub struct CommandTable {
    interpreter: String,
    entries: Vec<Entry>,
}

spec fn holds_at(entries: Seq<Entry>, i: int, trigger: Seq<char>) -> bool {
    0 <= i < entries.len() && entries[i].trigger@ == trigger
}

spec fn distinct_triggers(entries: Seq<Entry>) -> bool {
    forall|i: int, j: int|
        0 <= i < j < entries.len() ==> #[trigger] entries[i].trigger@ != #[trigger] entries[j].trigger@
}

spec fn commands_of(entries: Seq<Entry>) -> Map<Seq<char>, (Seq<char>, Seq<char>)> {
    Map::new(
        |trigger: Seq<char>| exists|i: int| holds_at(entries, i, trigger),
        |trigger: Seq<char>|
            {
                let i = choose|i: int| holds_at(entries, i, trigger);
                (entries[i].program@, entries[i].argument@)
            },
    )
}

proof fn lemma_entry_is_command(entries: Seq<Entry>, i: int)
    requires
        distinct_triggers(entries),
        0 <= i < entries.len(),
    ensures
        commands_of(entries).contains_key(entries[i].trigger@),
        commands_of(entries)[entries[i].trigger@] == (entries[i].program@, entries[i].argument@),
{
    let trigger = entries[i].trigger@;
    assert(holds_at(entries, i, trigger));
    let j = choose|j: int| holds_at(entries, j, trigger);
    assert(holds_at(entries, j, trigger));
    assert(i == j);
}

proof fn lemma_replaced(before: Seq<Entry>, after: Seq<Entry>, i: int)
    requires
        distinct_triggers(before),
        0 <= i < before.len(),
        after == before.update(i, after[i]),
        after[i].trigger@ == before[i].trigger@,
    ensures
        distinct_triggers(after),
        commands_of(after) == commands_of(before).insert(
            after[i].trigger@,
            (after[i].program@, after[i].argument@),
        ),
{
    assert(distinct_triggers(after)) by {
        assert forall|a: int, b: int| 0 <= a < b < after.len() implies #[trigger] after[a].trigger@
            != #[trigger] after[b].trigger@ by {
            assert(after[a].trigger@ == before[a].trigger@);
            assert(after[b].trigger@ == before[b].trigger@);
        }
    }
    let expected = commands_of(before).insert(
        after[i].trigger@,
        (after[i].program@, after[i].argument@),
    );
    assert forall|trigger: Seq<char>| commands_of(after).contains_key(trigger) implies (
    #[trigger] expected.contains_key(trigger)) by {
        let j = choose|j: int| holds_at(after, j, trigger);
        assert(holds_at(before, j, trigger));
    }
    assert forall|trigger: Seq<char>| #[trigger] expected.contains_key(trigger) implies (
    commands_of(after).contains_key(trigger)) by {
        if trigger == after[i].trigger@ {
            assert(holds_at(after, i, trigger));
        } else {
            let j = choose|j: int| holds_at(before, j, trigger);
            assert(holds_at(after, j, trigger));
        }
    }
    assert forall|trigger: Seq<char>| #[trigger] expected.contains_key(trigger) implies (
    commands_of(after)[trigger] == expected[trigger]) by {
        let j = choose|j: int| holds_at(after, j, trigger);
        assert(holds_at(after, j, trigger)) by {
            if trigger == after[i].trigger@ {
                assert(holds_at(after, i, trigger));
            } else {
                let k = choose|k: int| holds_at(before, k, trigger);
                assert(holds_at(after, k, trigger));
            }
        }
        lemma_entry_is_command(after, j);
        if j != i {
            lemma_entry_is_command(before, j);
        }
    }
    assert(commands_of(after) =~= expected);
}

proof fn lemma_appended(before: Seq<Entry>, entry: Entry)
    requires
        distinct_triggers(before),
        !commands_of(before).contains_key(entry.trigger@),
    ensures
        distinct_triggers(before.push(entry)),
        commands_of(before.push(entry)) == commands_of(before).insert(
            entry.trigger@,
            (entry.program@, entry.argument@),
        ),
{
    let after = before.push(entry);
    let last = before.len() as int;
    assert(distinct_triggers(after)) by {
        assert forall|a: int, b: int| 0 <= a < b < after.len() implies #[trigger] after[a].trigger@
            != #[trigger] after[b].trigger@ by {
            if b == last {
                assert(holds_at(before, a, before[a].trigger@));
            }
        }
    }
    let expected = commands_of(before).insert(entry.trigger@, (entry.program@, entry.argument@));
    assert forall|trigger: Seq<char>| commands_of(after).contains_key(trigger) implies (
    #[trigger] expected.contains_key(trigger)) by {
        let j = choose|j: int| holds_at(after, j, trigger);
        if j != last {
            assert(holds_at(before, j, trigger));
        }
    }
    assert forall|trigger: Seq<char>| #[trigger] expected.contains_key(trigger) implies (
    commands_of(after).contains_key(trigger)) by {
        if trigger == entry.trigger@ {
            assert(holds_at(after, last, trigger));
        } else {
            let j = choose|j: int| holds_at(before, j, trigger);
            assert(holds_at(after, j, trigger));
        }
    }
    assert forall|trigger: Seq<char>| #[trigger] expected.contains_key(trigger) implies (
    commands_of(after)[trigger] == expected[trigger]) by {
        let j = choose|j: int| holds_at(after, j, trigger);
        assert(holds_at(after, j, trigger)) by {
            if trigger == entry.trigger@ {
                assert(holds_at(after, last, trigger));
            } else {
                let k = choose|k: int| holds_at(before, k, trigger);
                assert(holds_at(after, k, trigger));
            }
        }
        lemma_entry_is_command(after, j);
        if j != last {
            assert(holds_at(before, j, trigger));
            lemma_entry_is_command(before, j);
        }
    }
    assert(commands_of(after) =~= expected);
}

/// The value of the table that [`CommandTable::standard`] builds.
pub open spec fn standard_table() -> TableView {
    TableView {
        interpreter: "Powershell"@,
        commands: Map::<Seq<char>, (Seq<char>, Seq<char>)>::empty().insert(
            "fe"@,
            ("Powershell"@, "fzf | Split-Path | cd"@),
        ).insert("ef"@, ("Powershell"@, "fzf | $ { code $_ }"@)),
    }
}

impl View for CommandTable {
    type V = TableView;

    closed spec fn view(&self) -> TableView {
        TableView { interpreter: self.interpreter@, commands: commands_of(self.entries@) }
    }
}

impl CommandTable {
    /// The invariant of the type: no trigger stands in the table twice, and
    /// none begins or ends with white space.
    pub closed spec fn wf(&self) -> bool {
        distinct_triggers(self.entries@) && self@.wf()
    }

    /// The value of a well-formed table is well formed.
    pub proof fn view_is_wf(&self)
        requires
            self.wf(),
        ensures
            self@.wf(),
    {
    }

    /// A table without triggers: every line goes to `interpreter`.
    pub fn new(interpreter: &str) -> (table: CommandTable)
        ensures
            table.wf(),
            table@.interpreter == interpreter@,
            table@.commands == Map::<Seq<char>, (Seq<char>, Seq<char>)>::empty(),
    {
        let table = CommandTable { interpreter: interpreter.to_owned(), entries: Vec::new() };
        proof {
            assert(table@.commands =~= Map::<Seq<char>, (Seq<char>, Seq<char>)>::empty()) by {
                assert forall|trigger: Seq<char>| !commands_of(table.entries@).contains_key(
                    trigger,
                ) by {
                    if commands_of(table.entries@).contains_key(trigger) {
                        let i = choose|i: int| holds_at(table.entries@, i, trigger);
                        assert(holds_at(table.entries@, i, trigger));
                    }
                }
            }
        }
        table
    }

    /// Where `trigger` stands in the table, if it does.
    fn position(&self, trigger: &String) -> (found: Option<usize>)
        ensures
            match found {
                Some(i) => holds_at(self.entries@, i as int, trigger@),
                None => !self@.commands.contains_key(trigger@),
            },
    {
        let mut i: usize = 0;
        while i < self.entries.len()
            invariant
                i <= self.entries.len(),
                forall|j: int| 0 <= j < i ==> !holds_at(self.entries@, j, trigger@),
            decreases self.entries.len() - i,
        {
            if self.entries[i].trigger == *trigger {
                return Some(i);
            }
            i += 1;
        }
        proof {
            if self@.commands.contains_key(trigger@) {
                let j = choose|j: int| holds_at(self.entries@, j, trigger@);
                assert(holds_at(self.entries@, j, trigger@));
            }
        }
        None
    }

    /// Lets `trigger`, without the white space around it, stand for `program`
    /// with `argument`, in place of what it stood for before, if anything.
    pub fn insert(&mut self, trigger: &str, program: &str, argument: &str)
        requires
            old(self).wf(),
        ensures
            final(self).wf(),
            final(self)@.interpreter == old(self)@.interpreter,
            final(self)@.commands == old(self)@.commands.insert(
                trimmed(trigger@),
                (program@, argument@),
            ),
    {
        let entry = Entry {
            trigger: trim(trigger).to_owned(),
            program: program.to_owned(),
            argument: argument.to_owned(),
        };
        let ghost before = self.entries@;
        let ghost key = entry.trigger@;
        match self.position(&entry.trigger) {
            Some(i) => {
                self.entries.set(i, entry);
                proof {
                    lemma_replaced(before, self.entries@, i as int);
                }
            },
            None => {
                proof {
                    lemma_appended(before, entry);
                }
                self.entries.push(entry);
            },
        }
        proof {
            assert(self@.commands == old(self)@.commands.insert(key, (program@, argument@)));
            assert forall|other: Seq<char>| #[trigger]
                self@.commands.contains_key(other) implies trimmed(other) == other by {
                if other != key {
                    assert(old(self)@.commands.contains_key(other));
                }
            }
        }
    }

    /// The table of the shell front-end: `fe` and `ef` each stand for a
    /// PowerShell pipeline around `fzf`, and PowerShell runs every other line.
    pub fn standard() -> (table: CommandTable)
        ensures
            table.wf(),
            table@ == standard_table(),
    {
        proof {
            reveal_strlit("fe");
            reveal_strlit("ef");
            firm_text_is_trimmed("fe"@);
            firm_text_is_trimmed("ef"@);
        }
        let mut table = CommandTable::new("Powershell");
        table.insert("fe", "Powershell", "fzf | Split-Path | cd");
        table.insert("ef", "Powershell", "fzf | $ { code $_ }");
        table
    }

    /// The shell interpreter that runs a line which is no trigger.
    pub fn interpreter(&self) -> (name: &str)
        ensures
            name@ == self@.interpreter,
    {
        self.interpreter.as_str()
    }

    /// Resolves a submitted line: the predefined invocation where the whole
    /// line, without the white space around it, is a trigger, and else the
    /// interpreter with the line as it was typed. The empty line is a line
    /// like any other.
    pub fn resolve(&self, line: &str) -> (descriptor: InvocationDescriptor)
        requires
            self.wf(),
        ensures
            descriptor@ == resolution(self@, line@),
    {
        let key = trim(line).to_owned();
        match self.position(&key) {
            Some(i) => {
                proof {
                    lemma_entry_is_command(self.entries@, i as int);
                }
                InvocationDescriptor::Predefined {
                    program: self.entries[i].program.clone(),
                    argument: self.entries[i].argument.clone(),
                }
            },
            None => InvocationDescriptor::Fallback {
                interpreter: self.interpreter.clone(),
                line: line.to_owned(),
            },
        }
    }
}

/// A line that is a trigger of the table resolves to what the table holds for
/// it, unchanged: the resolution reads the table and the line and nothing
/// else.
pub proof fn trigger_resolves_to_its_entry(table: TableView, trigger: Seq<char>)
    requires
        table.wf(),
        table.commands.contains_key(trigger),
    ensures
        resolution(table, trigger) == (Invocation::Predefined {
            program: table.commands[trigger].0,
            argument: table.commands[trigger].1,
        }),
{
}

/// White space around a trigger does not keep the line from resolving to the
/// trigger's entry.
pub proof fn padded_trigger_resolves_to_its_entry(table: TableView, line: Seq<char>)
    requires
        table.commands.contains_key(trimmed(line)),
    ensures
        resolution(table, line) == resolution(table, trimmed(line)),
{
    trimmed_is_idempotent(line);
}

/// A line that is no trigger of the table, with or without the white space
/// around it, resolves to the fallback, whose argument is the line itself,
/// character for character.
pub proof fn other_line_falls_back(table: TableView, line: Seq<char>)
    requires
        !table.commands.contains_key(trimmed(line)),
    ensures
        resolution(table, line) == (Invocation::Fallback { interpreter: table.interpreter, line }),
        resolution(table, line).argument() == line,
{
}

/// Under the standard table `fe` and `ef` resolve to their two pipelines.
pub proof fn standard_triggers_resolve()
    ensures
        resolution(standard_table(), "fe"@) == (Invocation::Predefined {
            program: "Powershell"@,
            argument: "fzf | Split-Path | cd"@,
        }),
        resolution(standard_table(), "ef"@) == (Invocation::Predefined {
            program: "Powershell"@,
            argument: "fzf | $ { code $_ }"@,
        }),
{
    reveal_strlit("fe");
    reveal_strlit("ef");
    firm_text_is_trimmed("fe"@);
    firm_text_is_trimmed("ef"@);
    assert("fe"@[0] != "ef"@[0]);
}

} // verus!
