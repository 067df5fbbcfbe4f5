//! How a node stores its text.

use vstd::prelude::*;
use std::borrow::Cow;
use std::rc::Rc;
use std::sync::Arc;

verus! {

/// A value that holds text and can lend it out as a string slice.
///
/// `Node` is generic over how its text is stored; owned and borrowed strings
/// both qualify, and so do the shared and boxed string slices of `std`.
pub trait AsText {
    /// The characters that the value holds.
    spec fn text(&self) -> Seq<char>;

    /// Lends the text out.
    fn as_text(&self) -> (s: &str)
        ensures
            s@ == self.text(),
    ;
}

impl AsText for String {
    open spec fn text(&self) -> Seq<char> {
        self@
    }

    fn as_text(&self) -> (s: &str) {
        self.as_str()
    }
}

impl<'a> AsText for &'a str {
    open spec fn text(&self) -> Seq<char> {
        self@
    }

    fn as_text(&self) -> (s: &str) {
        *self
    }
}

impl<'a> AsText for Cow<'a, str> {
    open spec fn text(&self) -> Seq<char> {
        self@
    }

    fn as_text(&self) -> (s: &str) {
        match self {
            Cow::Borrowed(borrowed) => borrowed,
            Cow::Owned(owned) => owned.as_str(),
        }
    }
}

impl AsText for Box<str> {
    open spec fn text(&self) -> Seq<char> {
        self@
    }

    fn as_text(&self) -> (s: &str) {
        &**self
    }
}

impl AsText for Rc<str> {
    open spec fn text(&self) -> Seq<char> {
        self@
    }

    fn as_text(&self) -> (s: &str) {
        &**self
    }
}

impl AsText for Arc<str> {
    open spec fn text(&self) -> Seq<char> {
        self@
    }

    fn as_text(&self) -> (s: &str) {
        &**self
    }
}

/// A copy of a value of `S` holds the same text as the value itself.
pub open spec fn clone_keeps_text<S: AsText + Clone>() -> bool {
    forall|value: S, copy: S| #[trigger] cloned(value, copy) ==> value.text() == copy.text()
}

/// A copy of a `String` holds the same text.
pub proof fn lemma_string_clone_keeps_text()
    ensures
        clone_keeps_text::<String>(),
{
}

/// A copy of a string slice holds the same text.
pub proof fn lemma_str_clone_keeps_text<'a>()
    ensures
        clone_keeps_text::<&'a str>(),
{
}

} // verus!
