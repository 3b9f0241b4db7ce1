use idioms::builder::{Foo, FooBuilder};

#[test]
fn builder_test() {
    let foo = Foo {
        bar: String::from("Y"),
    };
    let foo_from_builder: Foo = FooBuilder::new().name(String::from("Y")).build();
    assert_eq!(foo, foo_from_builder);
}

#[test]
fn new_builder_starts_with_x() {
    let foo = FooBuilder::new().build();
    assert_eq!(foo.bar, "X");
}

#[test]
fn entry_point_starts_empty() {
    let foo = Foo::builder().build();
    assert_eq!(foo.bar, "");
}

#[test]
fn default_builder_starts_empty() {
    let foo = FooBuilder::default().build();
    assert_eq!(foo.bar, "");
}

#[test]
fn last_name_wins() {
    let foo = Foo::builder()
        .name(String::from("first"))
        .name(String::from("second"))
        .build();
    assert_eq!(foo.bar, "second");
}

#[test]
fn foos_with_different_names_differ() {
    let a = FooBuilder::new().build();
    let b = FooBuilder::new().name(String::from("Y")).build();
    assert_ne!(a, b);
}
