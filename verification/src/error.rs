use vstd::prelude::*;

verus! {

/// The requested type identity has no slot in the container.
#[derive(Clone, Debug, PartialEq, Eq, Structural)]
pub struct NoSuchResource;

impl NoSuchResource {
    /// A short description of the error.
    pub fn message(&self) -> (r: &'static str)
        ensures
            r@ == "no such resource"@,
    {
        "no such resource"
    }
}

/// A non-blocking acquisition failed because it would break borrow rules.
#[derive(Clone, Debug, PartialEq, Eq, Structural)]
pub enum InvalidBorrow {
    /// An exclusive acquisition failed: the slot is shared or exclusively held.
    Mutable,
    /// A shared acquisition failed: the slot is exclusively held.
    Immutable,
}

impl InvalidBorrow {
    /// A short description of the error.
    pub fn message(&self) -> (r: &'static str)
        ensures
            self is Mutable ==> r@ == "cannot borrow mutably"@,
            self is Immutable ==> r@ == "cannot borrow immutably"@,
    {
        match self {
            InvalidBorrow::Mutable => "cannot borrow mutably",
            InvalidBorrow::Immutable => "cannot borrow immutably",
        }
    }
}

/// Combined error for accessors that first check that a slot exists and then
/// attempt an acquisition: a tagged union of the two failure kinds, so that
/// callers can discriminate structurally.
#[derive(Clone, Debug, PartialEq, Eq, Structural)]
pub enum CantGetResource {
    /// The slot exists but the acquisition would break borrow rules.
    InvalidBorrow(InvalidBorrow),
    /// No slot exists for the requested type identity.
    NoSuchResource(NoSuchResource),
}

impl CantGetResource {
    /// A short description of the error.
    pub fn message(&self) -> (r: &'static str)
        ensures
            self matches CantGetResource::InvalidBorrow(e) ==> (e is Mutable
                ==> r@ == "cannot borrow mutably"@) && (e is Immutable ==> r@
                == "cannot borrow immutably"@),
            self is NoSuchResource ==> r@ == "no such resource"@,
    {
        match self {
            CantGetResource::InvalidBorrow(error) => error.message(),
            CantGetResource::NoSuchResource(error) => error.message(),
        }
    }
}

impl From<NoSuchResource> for CantGetResource {
    fn from(error: NoSuchResource) -> (r: Self) {
        CantGetResource::NoSuchResource(error)
    }
}

impl vstd::std_specs::convert::FromSpecImpl<NoSuchResource> for CantGetResource {
    open spec fn obeys_from_spec() -> bool {
        true
    }

    open spec fn from_spec(error: NoSuchResource) -> Self {
        CantGetResource::NoSuchResource(error)
    }
}

impl From<InvalidBorrow> for CantGetResource {
    fn from(error: InvalidBorrow) -> (r: Self) {
        CantGetResource::InvalidBorrow(error)
    }
}

impl vstd::std_specs::convert::FromSpecImpl<InvalidBorrow> for CantGetResource {
    open spec fn obeys_from_spec() -> bool {
        true
    }

    open spec fn from_spec(error: InvalidBorrow) -> Self {
        CantGetResource::InvalidBorrow(error)
    }
}

} // verus!
