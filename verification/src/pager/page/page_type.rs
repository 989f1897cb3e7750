//! The kind of content a page holds.
use vstd::prelude::*;

verus! {

#[derive(Debug, Clone, Copy, PartialEq, Eq, Structural)]
pub enum PageType {
    Unitialised,
    Free,
    Root,
    Collection,
    BTree,
    Overflow,
    Raw,
    Unknown,
}

/// The byte a page type is stored as.
pub open spec fn page_type_byte(t: PageType) -> u8 {
    match t {
        PageType::Unitialised => 0,
        PageType::Free => 1,
        PageType::Root => 2,
        PageType::Collection => 3,
        PageType::BTree => 4,
        PageType::Overflow => 5,
        PageType::Raw => 6,
        PageType::Unknown => 255,
    }
}

/// The page type a stored byte designates; any byte without a type of its own is `Unknown`.
pub open spec fn page_type_of_byte(v: u8) -> PageType {
    if v == 0 {
        PageType::Unitialised
    } else if v == 1 {
        PageType::Free
    } else if v == 2 {
        PageType::Root
    } else if v == 3 {
        PageType::Collection
    } else if v == 4 {
        PageType::BTree
    } else if v == 5 {
        PageType::Overflow
    } else if v == 6 {
        PageType::Raw
    } else {
        PageType::Unknown
    }
}

impl PageType {
    /// Number of bytes a page type occupies once encoded.
    pub fn size_of() -> (r: u64)
        ensures
            r == 1,
    {
        1
    }

    pub fn to_byte(&self) -> (r: u8)
        ensures
            r == page_type_byte(*self),
    {
        match self {
            PageType::Unitialised => 0,
            PageType::Free => 1,
            PageType::Root => 2,
            PageType::Collection => 3,
            PageType::BTree => 4,
            PageType::Overflow => 5,
            PageType::Raw => 6,
            PageType::Unknown => 255,
        }
    }

    pub fn from_byte(v: u8) -> (r: PageType)
        ensures
            r == page_type_of_byte(v),
    {
        match v {
            0 => PageType::Unitialised,
            1 => PageType::Free,
            2 => PageType::Root,
            3 => PageType::Collection,
            4 => PageType::BTree,
            5 => PageType::Overflow,
            6 => PageType::Raw,
            _ => PageType::Unknown,
        }
    }
}

/// Decoding the byte of a page type gives the type back.
pub proof fn lemma_page_type_roundtrip(t: PageType)
    ensures
        page_type_of_byte(page_type_byte(t)) == t,
{
}

} // verus!
