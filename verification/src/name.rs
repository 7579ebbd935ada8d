use vstd::prelude::*;

verus! {

/// An identifier for controllers, properties, scene objects, devices and
/// attributes. Two names are the same when they hold the same characters.
#[derive(Debug, Hash)]
pub struct Name {
    inner: String,
}

impl View for Name {
    type V = Seq<char>;

    closed spec fn view(&self) -> Seq<char> {
        self.inner@
    }
}

impl Name {
    /// Create a name from a string slice.
    pub fn new(s: &str) -> (r: Name)
        ensures
            r@ == s@,
    {
        Name { inner: s.to_owned() }
    }

    /// Create a name that takes ownership of a string.
    pub fn from_string(s: String) -> (r: Name)
        ensures
            r@ == s@,
    {
        Name { inner: s }
    }

    /// The characters of the name.
    pub fn as_str(&self) -> (r: &str)
        ensures
            r@ == self@,
    {
        self.inner.as_str()
    }

    /// The characters of the name, as an owned string.
    pub fn to_string(&self) -> (r: String)
        ensures
            r@ == self@,
    {
        self.inner.clone()
    }

    /// Whether two names hold the same characters.
    pub fn equals(&self, other: &Name) -> (r: bool)
        ensures
            r == (self@ == other@),
    {
        self.inner == other.inner
    }

    /// A copy of the name.
    pub fn duplicate(&self) -> (r: Name)
        ensures
            r@ == self@,
    {
        Name { inner: self.inner.clone() }
    }
}

impl Clone for Name {
    fn clone(&self) -> (r: Self)
        ensures
            r@ == self@,
    {
        Name { inner: self.inner.clone() }
    }
}

} // verus!
