//! The author record of the catalog.

use vstd::prelude::*;

verus! {

/// The catalog's answer to a request for an author.
#[derive(Debug, PartialEq, Eq)]
pub struct AuthorData {
    data: AuthorDataInner,
}

#[derive(Debug, PartialEq, Eq)]
pub struct AuthorDataInner {
    attributes: AuthorAttribute,
}

#[derive(Debug, PartialEq, Eq)]
pub struct AuthorAttribute {
    name: String,
}

impl AuthorAttribute {
    pub closed spec fn name(&self) -> Seq<char> {
        self.name@
    }

    pub fn new(name: String) -> (r: AuthorAttribute)
        ensures
            r.name() == name@,
    {
        AuthorAttribute { name }
    }
}

impl AuthorDataInner {
    pub closed spec fn name(&self) -> Seq<char> {
        self.attributes.name()
    }

    pub fn new(attributes: AuthorAttribute) -> (r: AuthorDataInner)
        ensures
            r.name() == attributes.name(),
    {
        AuthorDataInner { attributes }
    }
}

impl AuthorData {
    /// The author's name, as contracts see it.
    pub closed spec fn name(&self) -> Seq<char> {
        self.data.name()
    }

    pub fn new(data: AuthorDataInner) -> (r: AuthorData)
        ensures
            r.name() == data.name(),
    {
        AuthorData { data }
    }

    /// An author record that holds just a name.
    pub fn named(name: String) -> (r: AuthorData)
        ensures
            r.name() == name@,
    {
        AuthorData::new(AuthorDataInner::new(AuthorAttribute::new(name)))
    }

    /// The author's name.
    pub fn get_name(&self) -> (name: &str)
        ensures
            name@ == self.name(),
    {
        self.data.attributes.name.as_str()
    }
}

} // verus!
