//! Pages held in memory: an identifier (bytes 0 to 8), a type (byte 8), a
//! parent (bytes 9 to 17), then the body from byte 18 on.
use vstd::prelude::*;
use vstd::slice::slice_subrange;
use crate::io::{splice, extract, u64_at, le64, lemma_le_roundtrip, read_u64, write_bytes, read_bytes};
use crate::paging::error::{Error, BufferError, IoError};
use vstd::bytes::u64_to_le_bytes;

verus! {

/// Page type of a root page.
pub const ROOT: u8 = 0x1;
/// Page type of a leaf of a B+ tree.
pub const BPTREE_LEAF: u8 = 0x2;
/// Page type of a branch of a B+ tree.
pub const BPTREE_BRANCH: u8 = 0x3;

/// Where the identifier starts.
pub const ID_OFFSET: usize = 0;
/// Where the type is.
pub const TYPE_OFFSET: usize = 8;
/// Where the parent starts.
pub const PARENT_OFFSET: usize = 9;
/// Where the body starts.
pub const RESERVED: usize = 18;
/// Number of bytes a page needs for its identifier and type.
pub const ID_AND_TYPE: usize = 9;
/// Number of bytes a page needs for its identifier, type and parent.
pub const ID_TYPE_AND_PARENT: usize = 17;

/// What a page offers to read.
pub trait ReadPage {
    /// The page holds at least its header.
    spec fn holds_header(&self) -> bool;

    fn get_id(&self) -> u64
        requires
            self.holds_header(),
    ;

    fn get_type(&self) -> u8
        requires
            self.holds_header(),
    ;

    /// The page holds its parent too.
    spec fn holds_parent(&self) -> bool;

    fn get_parent(&self) -> u64
        requires
            self.holds_parent(),
    ;

    fn get_size(&self) -> usize;
}

/// What a page offers to write.
pub trait WritePage {
    /// The page holds at least its header.
    spec fn keeps_header(&self) -> bool;

    fn set_id(&mut self, pid: u64)
        requires
            old(self).keeps_header(),
        ensures
            final(self).keeps_header(),
    ;

    fn set_type(&mut self, ptype: u8)
        requires
            old(self).keeps_header(),
        ensures
            final(self).keeps_header(),
    ;

    /// The page holds its parent too.
    spec fn keeps_parent(&self) -> bool;

    fn set_parent(&mut self, parent: u64)
        requires
            old(self).keeps_parent(),
        ensures
            final(self).keeps_parent(),
    ;
}

/// The part of a page a read or a write addresses.
#[derive(Debug, Clone, Copy, PartialEq, Eq, Structural)]
pub enum PageSectionType {
    /// The bytes after the header.
    Body,
    /// The whole page.
    All,
}

/// Where a section starts in the page.
pub open spec fn section_start(section: PageSectionType) -> int {
    match section {
        PageSectionType::Body => RESERVED as int,
        PageSectionType::All => 0,
    }
}

/// The bytes of a page once `data` is written in a section from `offset`, as
/// far as the page goes.
pub open spec fn section_write(bytes: Seq<u8>, section: PageSectionType, offset: int, data: Seq<u8>) -> Seq<u8> {
    let start = section_start(section) + offset;
    let room = bytes.len() - start;
    if start > bytes.len() {
        bytes
    } else if data.len() <= room {
        splice(bytes, start, data)
    } else {
        splice(bytes, start, data.subrange(0, room))
    }
}

/// The answer to writing `data` in a section from `offset`: an error when
/// the page ends before all of `data` is written.
pub open spec fn section_write_result(bytes: Seq<u8>, section: PageSectionType, offset: int, data: Seq<u8>) -> Result<(), Error> {
    if section_start(section) + offset + data.len() <= bytes.len() {
        Ok(())
    } else {
        Err(Error::IoError(IoError::WriteZero))
    }
}

/// A page held in memory, and whether it changed since last acknowledged.
pub struct Page {
    data: Vec<u8>,
    upserted: bool,
}

/// A page of the buffer pool.
pub type BufPage = Page;

/// The page bytes once `pid` and `ptype` are recorded in them.
pub open spec fn with_id_and_type(data: Seq<u8>, pid: u64, ptype: u8) -> Seq<u8> {
    splice(splice(data, ID_OFFSET as int, le64(pid)), TYPE_OFFSET as int, seq![ptype])
}

impl Page {
    /// The page holds at least its identifier and type.
    pub open spec fn wf(&self) -> bool {
        self.bytes().len() >= ID_AND_TYPE
    }

    /// The page holds its parent too.
    pub open spec fn has_parent(&self) -> bool {
        self.bytes().len() >= ID_TYPE_AND_PARENT
    }

    /// The bytes of the page.
    pub closed spec fn bytes(&self) -> Seq<u8> {
        self.data@
    }

    /// Whether the page changed since it was last acknowledged.
    pub closed spec fn upserted_view(&self) -> bool {
        self.upserted
    }

    /// A page made of `data`, holding `pid` and `ptype`; `data` must have room for them.
    pub fn new(pid: u64, ptype: u8, data: Vec<u8>) -> (r: Self)
        requires
            data@.len() >= ID_AND_TYPE,
        ensures
            r.wf(),
            r.bytes() == with_id_and_type(data@, pid, ptype),
            r.upserted_view(),
    {
        let mut page = Page { data, upserted: true };
        page.set_id(pid);
        page.set_type(ptype);
        page
    }

    /// A page made of `data`, holding `pid` and `ptype`, or an error if `data`
    /// has no room for them.
    pub fn try_new(pid: u64, ptype: u8, data: Vec<u8>) -> (r: Result<Self, Error>)
        ensures
            data@.len() >= ID_AND_TYPE ==> (r matches Ok(p) && p.wf() && p.bytes() == with_id_and_type(data@, pid, ptype) && p.upserted_view()),
            data@.len() < ID_AND_TYPE ==> r == Err::<Self, Error>(Error::BufferError(BufferError::TooSmall)),
    {
        if data.len() < ID_AND_TYPE {
            return Err(Error::BufferError(BufferError::TooSmall));
        }
        Ok(Self::new(pid, ptype, data))
    }

    pub fn set_id(&mut self, pid: u64)
        requires
            old(self).wf(),
        ensures
            final(self).wf(),
            final(self).bytes() == splice(old(self).bytes(), ID_OFFSET as int, le64(pid)),
            final(self).upserted_view(),
    {
        proof { lemma_le_roundtrip(); }
        let b = u64_to_le_bytes(pid);
        write_bytes(&mut self.data, ID_OFFSET, b.as_slice());
        self.upserted = true;
    }

    pub fn set_type(&mut self, ptype: u8)
        requires
            old(self).wf(),
        ensures
            final(self).wf(),
            final(self).bytes() == old(self).bytes().update(TYPE_OFFSET as int, ptype),
            final(self).upserted_view(),
    {
        self.data.set(TYPE_OFFSET, ptype);
        self.upserted = true;
    }

    pub fn set_parent(&mut self, parent: u64)
        requires
            old(self).has_parent(),
        ensures
            final(self).has_parent(),
            final(self).bytes() == splice(old(self).bytes(), PARENT_OFFSET as int, le64(parent)),
            final(self).upserted_view(),
    {
        proof { lemma_le_roundtrip(); }
        let b = u64_to_le_bytes(parent);
        write_bytes(&mut self.data, PARENT_OFFSET, b.as_slice());
        self.upserted = true;
    }

    pub fn get_id(&self) -> (r: u64)
        requires
            self.wf(),
        ensures
            r == u64_at(self.bytes(), ID_OFFSET as int),
    {
        read_u64(self.data.as_slice(), ID_OFFSET)
    }

    pub fn get_type(&self) -> (r: u8)
        requires
            self.wf(),
        ensures
            r == self.bytes()[TYPE_OFFSET as int],
    {
        self.data[TYPE_OFFSET]
    }

    pub fn get_parent(&self) -> (r: u64)
        requires
            self.has_parent(),
        ensures
            r == u64_at(self.bytes(), PARENT_OFFSET as int),
    {
        read_u64(self.data.as_slice(), PARENT_OFFSET)
    }

    /// Number of bytes of the page.
    pub fn get_size(&self) -> (r: usize)
        ensures
            r == self.bytes().len(),
    {
        self.data.len()
    }

    /// Copy `data` into the section from `offset`, as far as the section
    /// goes; fails if the section ended before all of `data` was written.
    pub fn write_section(&mut self, section: PageSectionType, offset: usize, data: &[u8]) -> (r: Result<(), Error>)
        requires
            old(self).wf(),
        ensures
            final(self).wf(),
            final(self).bytes().len() == old(self).bytes().len(),
            r == section_write_result(old(self).bytes(), section, offset as int, data@),
            final(self).bytes() == section_write(old(self).bytes(), section, offset as int, data@),
            final(self).upserted_view() == (section_start(section) + offset <= old(self).bytes().len() || old(self).upserted_view()),
    {
        let base: usize = match section {
            PageSectionType::Body => RESERVED,
            PageSectionType::All => 0,
        };
        let len = self.data.len();
        if base > len || offset > len - base {
            return Err(Error::IoError(IoError::WriteZero));
        }
        let start = base + offset;
        let room = len - start;
        if data.len() <= room {
            write_bytes(&mut self.data, start, data);
            self.upserted = true;
            Ok(())
        } else {
            write_bytes(&mut self.data, start, slice_subrange(data, 0, room));
            self.upserted = true;
            Err(Error::IoError(IoError::WriteZero))
        }
    }

    /// The `len` bytes of the section from `offset`; fails if the section ends before.
    pub fn read_section(&self, section: PageSectionType, offset: usize, len: usize) -> (r: Result<Vec<u8>, Error>)
        requires
            self.wf(),
        ensures
            section_start(section) + offset + len <= self.bytes().len() ==> (r matches Ok(v)
                && v@ == extract(self.bytes(), section_start(section) + offset, len as int)),
            section_start(section) + offset + len > self.bytes().len() ==> r == Err::<Vec<u8>, Error>(Error::IoError(IoError::UnexpectedEof)),
    {
        let base: usize = match section {
            PageSectionType::Body => RESERVED,
            PageSectionType::All => 0,
        };
        let total = self.data.len();
        if base > total || offset > total - base || len > total - base - offset {
            return Err(Error::IoError(IoError::UnexpectedEof));
        }
        Ok(read_bytes(self.data.as_slice(), base + offset, len))
    }
}

impl BufPage {
    /// Whether the page changed since it was last acknowledged.
    pub fn is_upserted(&self) -> (r: bool)
        ensures
            r == self.upserted_view(),
    {
        self.upserted
    }

    /// Acknowledge the changes of the page.
    pub fn ack_upsertion(&mut self)
        ensures
            final(self).bytes() == old(self).bytes(),
            !final(self).upserted_view(),
    {
        self.upserted = false;
    }
}

/// Writing the identifier, then reading it, gives it back.
pub proof fn lemma_id_roundtrip(data: Seq<u8>, pid: u64)
    requires
        data.len() >= RESERVED,
    ensures
        u64_at(splice(data, ID_OFFSET as int, le64(pid)), ID_OFFSET as int) == pid,
{
    lemma_le_roundtrip();
    assert(extract(splice(data, 0, le64(pid)), 0, 8) =~= le64(pid));
}

/// Writing the parent, then reading it, gives it back, and the identifier and the type stay.
pub proof fn lemma_parent_roundtrip(data: Seq<u8>, parent: u64)
    requires
        data.len() >= RESERVED,
    ensures
        u64_at(splice(data, PARENT_OFFSET as int, le64(parent)), PARENT_OFFSET as int) == parent,
        u64_at(splice(data, PARENT_OFFSET as int, le64(parent)), ID_OFFSET as int) == u64_at(data, ID_OFFSET as int),
        splice(data, PARENT_OFFSET as int, le64(parent))[TYPE_OFFSET as int] == data[TYPE_OFFSET as int],
{
    lemma_le_roundtrip();
    let s = splice(data, 9, le64(parent));
    assert(extract(s, 9, 8) =~= le64(parent));
    assert(extract(s, 0, 8) =~= extract(data, 0, 8));
}

/// What a write to a section puts there, a read of the same place gives
/// back, when the write fits in the page; the page keeps its size.
pub proof fn lemma_section_write_then_read(bytes: Seq<u8>, section: PageSectionType, offset: int, data: Seq<u8>)
    requires
        bytes.len() >= RESERVED,
        offset >= 0,
        section_start(section) + offset + data.len() <= bytes.len(),
    ensures
        section_write_result(bytes, section, offset, data) == Ok::<(), Error>(()),
        extract(section_write(bytes, section, offset, data), section_start(section) + offset, data.len() as int) == data,
        section_write(bytes, section, offset, data).len() == bytes.len(),
{
    assert(extract(splice(bytes, section_start(section) + offset, data), section_start(section) + offset, data.len() as int) =~= data);
}

impl ReadPage for Page {
    open spec fn holds_header(&self) -> bool {
        self.wf()
    }

    open spec fn holds_parent(&self) -> bool {
        self.has_parent()
    }

    fn get_id(&self) -> (r: u64)
        ensures
            r == u64_at(self.bytes(), ID_OFFSET as int),
    {
        Page::get_id(self)
    }

    fn get_type(&self) -> (r: u8)
        ensures
            r == self.bytes()[TYPE_OFFSET as int],
    {
        Page::get_type(self)
    }

    fn get_parent(&self) -> (r: u64)
        ensures
            r == u64_at(self.bytes(), PARENT_OFFSET as int),
    {
        Page::get_parent(self)
    }

    fn get_size(&self) -> (r: usize)
        ensures
            r == self.bytes().len(),
    {
        Page::get_size(self)
    }
}

} // verus!

verus! {

impl WritePage for Page {
    open spec fn keeps_header(&self) -> bool {
        self.wf()
    }

    open spec fn keeps_parent(&self) -> bool {
        self.has_parent()
    }

    fn set_id(&mut self, pid: u64)
        ensures
            final(self).bytes() == splice(old(self).bytes(), ID_OFFSET as int, le64(pid)),
            final(self).upserted_view(),
    {
        Page::set_id(self, pid)
    }

    fn set_type(&mut self, ptype: u8)
        ensures
            final(self).bytes() == old(self).bytes().update(TYPE_OFFSET as int, ptype),
            final(self).upserted_view(),
    {
        Page::set_type(self, ptype)
    }

    fn set_parent(&mut self, parent: u64)
        ensures
            final(self).bytes() == splice(old(self).bytes(), PARENT_OFFSET as int, le64(parent)),
            final(self).upserted_view(),
    {
        Page::set_parent(self, parent)
    }
}

} // verus!

verus! {

impl crate::pager::page::ReadPageSection for Page {
    fn borrow_body(&self) -> (r: &[u8])
        ensures
            self.bytes().len() >= RESERVED ==> r@ == self.bytes().subrange(RESERVED as int, self.bytes().len() as int),
            self.bytes().len() < RESERVED ==> r@.len() == 0,
    {
        if self.data.len() < RESERVED {
            return slice_subrange(self.data.as_slice(), 0, 0);
        }
        slice_subrange(self.data.as_slice(), RESERVED, self.data.len())
    }

    fn borrow_all(&self) -> (r: &[u8])
        ensures
            r@ == self.bytes(),
    {
        self.data.as_slice()
    }
}

impl crate::pager::page::WritePageSection for Page {
    open spec fn holds_sections(&self) -> bool {
        self.wf()
    }

    /// Whether all of `data` fit.
    fn write_body(&mut self, offset: usize, data: &[u8]) -> (r: bool)
        ensures
            final(self).bytes() == section_write(old(self).bytes(), PageSectionType::Body, offset as int, data@),
            r == (section_write_result(old(self).bytes(), PageSectionType::Body, offset as int, data@) is Ok),
    {
        self.write_section(PageSectionType::Body, offset, data).is_ok()
    }

    /// Whether all of `data` fit.
    fn write_all(&mut self, offset: usize, data: &[u8]) -> (r: bool)
        ensures
            final(self).bytes() == section_write(old(self).bytes(), PageSectionType::All, offset as int, data@),
            r == (section_write_result(old(self).bytes(), PageSectionType::All, offset as int, data@) is Ok),
    {
        self.write_section(PageSectionType::All, offset, data).is_ok()
    }
}

} // verus!
