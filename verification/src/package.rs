//! The identifier of an installed package.

use vstd::prelude::*;

verus! {

/// Names an installed package. The text is taken as it is given.
#[derive(Debug)]
pub struct PackageId(pub String);

impl View for PackageId {
    type V = Seq<char>;

    open spec fn view(&self) -> Seq<char> {
        self.0@
    }
}

impl PackageId {
    pub fn new(id: String) -> (p: PackageId)
        ensures
            p@ == id@,
    {
        PackageId(id)
    }

    pub fn as_str(&self) -> (s: &str)
        ensures
            s@ == self@,
    {
        self.0.as_str()
    }

    /// A second identifier with the same text.
    pub fn duplicate(&self) -> (p: PackageId)
        ensures
            p@ == self@,
    {
        PackageId(self.0.clone())
    }
}

/// The text of an identifier that may be absent.
pub open spec fn id_view(id: Option<PackageId>) -> Option<Seq<char>> {
    match id {
        Some(p) => Some(p@),
        None => None,
    }
}

} // verus!
