//! What a pager of in-memory pages offers, and where it stores pages.
use vstd::prelude::*;
use crate::paging::error::Error;
use crate::paging::page::Page;

verus! {

/// A place pages are stored to and fetched from, by key.
pub trait PageStorage {
    fn store(&mut self, id: u64, page: &[u8]) -> Result<(), Error>;

    fn fetch(&self, id: u64, data: &mut Vec<u8>) -> Result<(), Error>;
}

/// A pager: it makes pages, lends them out by identifier, and drops them.
pub trait Pager {
    /// The pager is well formed.
    spec fn inv(&self) -> bool;

    /// Create a page of type `ptype` and return its identifier.
    fn new_page(&mut self, ptype: u8) -> (r: Result<u64, Error>)
        requires
            old(self).inv(),
        ensures
            final(self).inv(),
    ;

    /// The page of identifier `pid`.
    fn borrow_page(&self, pid: &u64) -> (r: Result<&Page, Error>)
        requires
            self.inv(),
    ;

    /// Write `data` in a section of the page of identifier `pid`, from `offset`.
    fn write_page(&mut self, pid: &u64, section: crate::paging::page::PageSectionType, offset: usize, data: &[u8]) -> (r: Result<(), Error>)
        requires
            old(self).inv(),
        ensures
            final(self).inv(),
    ;

    /// Drop the page of identifier `pid`.
    fn drop_page(&mut self, pid: &u64) -> (r: Result<(), Error>)
        requires
            old(self).inv(),
        ensures
            final(self).inv(),
    ;
}

} // verus!
