//! Building a value step by step: the builder collects the settings and
//! hands over the finished value at the end.

use vstd::prelude::*;
use vstd::std_specs::cmp::PartialEqSpecImpl;

verus! {

/// The value that the builder makes.
#[derive(Debug)]
pub struct Foo {
    pub bar: String,
}

impl Foo {
    /// Starts a builder in which nothing is set: the name is empty.
    pub fn builder() -> (builder: FooBuilder)
        ensures
            builder@ == Seq::<char>::empty(),
    {
        FooBuilder::default()
    }
}

impl PartialEq for Foo {
    fn eq(&self, other: &Foo) -> (equal: bool) {
        self.bar == other.bar
    }
}

impl PartialEqSpecImpl for Foo {
    open spec fn obeys_eq_spec() -> bool {
        true
    }

    open spec fn eq_spec(&self, other: &Foo) -> bool {
        self.bar@ == other.bar@
    }
}

/// Collects what a [`Foo`] is made of. Its view is the name that the
/// finished value will carry.
pub struct FooBuilder {
    bar: String,
}

impl View for FooBuilder {
    type V = Seq<char>;

    closed spec fn view(&self) -> Seq<char> {
        self.bar@
    }
}

impl Default for FooBuilder {
    fn default() -> (builder: FooBuilder)
        ensures
            builder@ == Seq::<char>::empty(),
    {
        FooBuilder { bar: String::new() }
    }
}

impl FooBuilder {
    /// Starts a builder with the least that a `Foo` needs: the name "X".
    pub fn new() -> (builder: FooBuilder)
        ensures
            builder@ == "X"@,
    {
        FooBuilder { bar: "X".to_owned() }
    }

    /// Sets the name, replacing the one set before.
    pub fn name(self, bar: String) -> (builder: FooBuilder)
        ensures
            builder@ == bar@,
    {
        let mut builder = self;
        builder.bar = bar;
        builder
    }

    /// Finishes the value, which carries the name that was set last.
    pub fn build(self) -> (foo: Foo)
        ensures
            foo.bar@ == self@,
    {
        Foo { bar: self.bar }
    }
}

} // verus!
