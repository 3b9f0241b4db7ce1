use idioms::migration::{AddField, CreateTable, Migration, Schema};

#[test]
fn schema_executes_in_order() {
    let mut schema = Schema::new();
    schema.add_migration(Box::new(CreateTable));
    schema.add_migration(Box::new(AddField));
    assert_eq!(vec!["create table", "add field"], schema.execute());
}

#[test]
fn schema_rolls_back_in_reverse() {
    let mut schema = Schema::new();
    schema.add_migration(Box::new(CreateTable));
    schema.add_migration(Box::new(AddField));
    assert_eq!(vec!["remove field", "drop table"], schema.rollback());
}

#[test]
fn empty_schema_does_nothing() {
    let schema = Schema::new();
    assert!(schema.execute().is_empty());
    assert!(schema.rollback().is_empty());
}

#[test]
fn same_migration_twice_runs_twice() {
    let mut schema = Schema::new();
    schema.add_migration(Box::new(AddField));
    schema.add_migration(Box::new(CreateTable));
    schema.add_migration(Box::new(AddField));
    assert_eq!(vec!["add field", "create table", "add field"], schema.execute());
    assert_eq!(
        vec!["remove field", "drop table", "remove field"],
        schema.rollback()
    );
}

#[test]
fn migrations_name_their_statements() {
    assert_eq!(CreateTable.execute(), "create table");
    assert_eq!(CreateTable.rollback(), "drop table");
    assert_eq!(AddField.execute(), "add field");
    assert_eq!(AddField.rollback(), "remove field");
}

struct RenameTable;

impl Migration for RenameTable {
    fn execute(&self) -> &str {
        "rename table"
    }

    fn rollback(&self) -> &str {
        "rename table back"
    }
}

#[test]
fn schema_runs_migrations_defined_elsewhere() {
    let mut schema = Schema::new();
    schema.add_migration(Box::new(CreateTable));
    schema.add_migration(Box::new(RenameTable));
    assert_eq!(vec!["create table", "rename table"], schema.execute());
    assert_eq!(vec!["rename table back", "drop table"], schema.rollback());
}
