//! Chain addresses. An address is an opaque, already-validated account
//! string; the ledger tables and the watcher key their records by it.

use vstd::prelude::*;

verus! {

/// A chain account address.
#[derive(Debug)]
pub struct Addr {
    inner: String,
}

impl View for Addr {
    type V = Seq<char>;

    closed spec fn view(&self) -> Seq<char> {
        self.inner@
    }
}

impl Addr {
    pub fn new(s: &str) -> (a: Addr)
        ensures
            a@ == s@,
    {
        Addr { inner: s.to_owned() }
    }

    pub fn from_string(s: String) -> (a: Addr)
        ensures
            a@ == s@,
    {
        Addr { inner: s }
    }

    pub fn as_str(&self) -> (s: &str)
        ensures
            s@ == self@,
    {
        self.inner.as_str()
    }

    pub fn equals(&self, other: &Addr) -> (r: bool)
        ensures
            r == (self@ == other@),
    {
        self.inner == other.inner
    }
}

impl Clone for Addr {
    fn clone(&self) -> (a: Addr)
        ensures
            a@ == self@,
    {
        Addr { inner: self.inner.clone() }
    }
}

} // verus!
