//! Schema changes as command objects: each knows how to apply itself and
//! how to undo itself, and a schema runs them in order.

use vstd::prelude::*;

verus! {

/// One reversible change to a schema.
pub trait Migration {
    /// The statement that applies the change. An implementation that does
    /// not say what it is leaves it unknown.
    open spec fn execute_text(&self) -> Seq<char> {
        arbitrary()
    }

    /// The statement that undoes the change. An implementation that does
    /// not say what it is leaves it unknown.
    open spec fn rollback_text(&self) -> Seq<char> {
        arbitrary()
    }

    /// Applies the change and returns the statement that did it.
    fn execute(&self) -> (statement: &str)
        ensures
            statement@ == self.execute_text(),
    ;

    /// Undoes the change and returns the statement that did it.
    fn rollback(&self) -> (statement: &str)
        ensures
            statement@ == self.rollback_text(),
    ;
}

/// Creates a table.
pub struct CreateTable;

/// Adds a field to a table.
pub struct AddField;

impl Migration for CreateTable {
    open spec fn execute_text(&self) -> Seq<char> {
        "create table"@
    }

    open spec fn rollback_text(&self) -> Seq<char> {
        "drop table"@
    }

    fn execute(&self) -> (statement: &str) {
        "create table"
    }

    fn rollback(&self) -> (statement: &str) {
        "drop table"
    }
}

impl Migration for AddField {
    open spec fn execute_text(&self) -> Seq<char> {
        "add field"@
    }

    open spec fn rollback_text(&self) -> Seq<char> {
        "remove field"@
    }

    fn execute(&self) -> (statement: &str) {
        "add field"
    }

    fn rollback(&self) -> (statement: &str) {
        "remove field"
    }
}

/// One migration as a schema holds it.
struct Held<M: Migration + ?Sized> {
    command: Box<M>,
}

impl<M: Migration + ?Sized> Held<M> {
    /// Takes `command` into keeping, unchanged.
    fn hold(command: Box<M>) -> (held: Held<M>)
        ensures
            held.command == command,
    {
        Held { command }
    }
}

/// The migrations of a schema, in the order in which they were added.
pub struct Schema {
    commands: Vec<Held<dyn Migration>>,
}

impl Schema {
    /// The statements that apply the schema's migrations, oldest first.
    pub closed spec fn executions(&self) -> Seq<Seq<char>> {
        self.commands@.map_values(|held: Held<dyn Migration>| held.command.execute_text())
    }

    /// The statements that undo the schema's migrations, in the order in
    /// which the migrations were added: oldest first.
    pub closed spec fn rollbacks(&self) -> Seq<Seq<char>> {
        self.commands@.map_values(|held: Held<dyn Migration>| held.command.rollback_text())
    }

    /// A schema without migrations.
    pub fn new() -> (schema: Schema)
        ensures
            schema.executions() == Seq::<Seq<char>>::empty(),
            schema.rollbacks() == Seq::<Seq<char>>::empty(),
    {
        Schema { commands: Vec::new() }
    }

    /// Adds `cmd` behind the migrations that are already there.
    pub fn add_migration(&mut self, cmd: Box<dyn Migration>)
        ensures
            final(self).executions() == old(self).executions().push(cmd.execute_text()),
            final(self).rollbacks() == old(self).rollbacks().push(cmd.rollback_text()),
    {
        let held = Held::hold(cmd);
        self.commands.push(held);
        proof {
            let before = old(self).commands@;
            assert forall|i: int| 0 <= i < self.commands@.len() implies self.executions()[i]
                == old(self).executions().push(cmd.execute_text())[i] by {
                if i < before.len() {
                    assert(self.commands@[i] == before[i]);
                }
            }
            assert forall|i: int| 0 <= i < self.commands@.len() implies self.rollbacks()[i]
                == old(self).rollbacks().push(cmd.rollback_text())[i] by {
                if i < before.len() {
                    assert(self.commands@[i] == before[i]);
                }
            }
            assert(self.executions() =~= old(self).executions().push(cmd.execute_text()));
            assert(self.rollbacks() =~= old(self).rollbacks().push(cmd.rollback_text()));
        }
    }

    /// Applies every migration, oldest first, and returns their statements
    /// in that order.
    pub fn execute(&self) -> (statements: Vec<&str>)
        ensures
            statements@.len() == self.executions().len(),
            forall|i: int|
                0 <= i < statements@.len() ==> (#[trigger] statements@[i])@
                    == self.executions()[i],
    {
        let mut statements: Vec<&str> = Vec::new();
        let mut i: usize = 0;
        while i < self.commands.len()
            invariant
                i <= self.commands@.len(),
                statements@.len() == i,
                forall|j: int|
                    0 <= j < i ==> (#[trigger] statements@[j])@ == self.executions()[j],
            decreases self.commands@.len() - i,
        {
            statements.push(self.commands[i].command.execute());
            i += 1;
        }
        statements
    }

    /// Undoes every migration, newest first, and returns their statements
    /// in that order.
    pub fn rollback(&self) -> (statements: Vec<&str>)
        ensures
            statements@.len() == self.rollbacks().len(),
            forall|i: int|
                0 <= i < statements@.len() ==> (#[trigger] statements@[i])@
                    == self.rollbacks().reverse()[i],
    {
        let mut statements: Vec<&str> = Vec::new();
        let n = self.commands.len();
        let mut i: usize = 0;
        while i < n
            invariant
                n == self.commands@.len(),
                i <= n,
                statements@.len() == i,
                forall|j: int|
                    0 <= j < i ==> (#[trigger] statements@[j])@ == self.rollbacks()[n - 1 - j],
            decreases n - i,
        {
            statements.push(self.commands[n - 1 - i].command.rollback());
            i += 1;
        }
        statements
    }
}

} // verus!
