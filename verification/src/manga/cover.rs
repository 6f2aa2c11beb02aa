//! The cover record of the catalog.

use vstd::prelude::*;

verus! {

/// The catalog's answer to a request for a cover.
#[derive(Debug, PartialEq, Eq)]
pub struct CoverData {
    data: CoverDataInner,
}

#[derive(Debug, PartialEq, Eq)]
pub struct CoverDataInner {
    attributes: CoverAttribute,
}

#[derive(Debug, PartialEq, Eq)]
pub struct CoverAttribute {
    pub file_name: String,
}

impl CoverDataInner {
    pub closed spec fn file_name(&self) -> Seq<char> {
        self.attributes.file_name@
    }

    pub fn new(attributes: CoverAttribute) -> (r: CoverDataInner)
        ensures
            r.file_name() == attributes.file_name@,
    {
        CoverDataInner { attributes }
    }
}

impl CoverData {
    /// The name of the cover's image file, as contracts see it.
    pub closed spec fn file_name(&self) -> Seq<char> {
        self.data.file_name()
    }

    pub fn new(data: CoverDataInner) -> (r: CoverData)
        ensures
            r.file_name() == data.file_name(),
    {
        CoverData { data }
    }

    /// A cover record that holds just a file name.
    pub fn named(file_name: String) -> (r: CoverData)
        ensures
            r.file_name() == file_name@,
    {
        CoverData::new(CoverDataInner::new(CoverAttribute { file_name }))
    }

    /// The name of the cover's image file.
    pub fn get_file_name(&self) -> (name: &str)
        ensures
            name@ == self.file_name(),
    {
        self.data.attributes.file_name.as_str()
    }
}

} // verus!
