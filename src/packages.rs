use vstd::prelude::*;

use crate::prelude::text_is;

verus! {

/// The kind of package that a component has.
#[derive(Debug, Clone, Copy, PartialEq, Eq)]
pub enum PackageType {
    Unknown,
    Chip,
}

impl Default for PackageType {
    fn default() -> (r: PackageType)
        ensures
            r == PackageType::Unknown,
    {
        PackageType::Unknown
    }
}

/// Why a package lookup failed.
#[derive(Debug, PartialEq, Eq)]
pub enum PackageError {
    /// No handler is registered under this name.
    InvalidPackageType(String),
}

/// The handler of two-terminal chip packages.
#[derive(Debug, Clone, Copy, PartialEq, Eq)]
pub struct ChipPackage {}

impl ChipPackage {
    pub fn new() -> (r: ChipPackage)
        ensures
            r == (ChipPackage {}),
    {
        ChipPackage {}
    }
}

/// The registry of package handlers, by package name.
#[derive(Debug)]
pub struct Packages {
    handlers: Vec<(String, ChipPackage)>,
}

impl Packages {
    /// The names under which handlers are registered, in order.
    pub closed spec fn view(&self) -> Seq<Seq<char>> {
        self.handlers@.map_values(|h: (String, ChipPackage)| h.0@)
    }

    /// The registry of all known handlers: chips, under "chip".
    pub fn new() -> (r: Packages)
        ensures
            r@ == seq!["chip"@],
    {
        let mut handlers: Vec<(String, ChipPackage)> = Vec::new();
        handlers.push(("chip".to_owned(), ChipPackage::new()));
        let r = Packages { handlers };
        assert(r@ =~= seq!["chip"@]);
        r
    }

    /// The handler registered under `key`.
    pub fn get_handler(&self, key: &str) -> (r: Result<&ChipPackage, PackageError>)
        ensures
            match r {
                Ok(_) => self@.contains(key@),
                Err(PackageError::InvalidPackageType(name)) => !self@.contains(key@) && name@ == key@,
            },
    {
        let mut i: usize = 0;
        while i < self.handlers.len()
            invariant
                i <= self.handlers@.len(),
                forall|j: int| 0 <= j < i ==> self@[j] != key@,
            decreases self.handlers@.len() - i,
        {
            if text_is(self.handlers[i].0.as_str(), key) {
                assert(self@[i as int] == key@);
                return Ok(&self.handlers[i].1);
            }
            i = i + 1;
        }
        assert(!self@.contains(key@));
        Err(PackageError::InvalidPackageType(key.to_owned()))
    }
}

} // verus!
