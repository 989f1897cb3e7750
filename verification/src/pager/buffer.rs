//! Pages held in memory, indexed by the identifier stored in their header.
use vstd::prelude::*;
use std::collections::HashMap;
use crate::io::u64_at;
use crate::pager::id::PageId;
use crate::paging::page::{Page, ID_OFFSET};

verus! {

broadcast use vstd::std_specs::hash::group_hash_axioms;

/// `HashMap::get_mut`: a mutable reference to the value of key `k`, if the
/// map holds one; what is left behind that reference becomes the value of `k`.
#[verifier::external_body]
fn map_get_mut<'a>(m: &'a mut HashMap<u64, Page>, k: u64) -> (r: Option<&'a mut Page>)
    ensures
        match r {
            Some(v) => old(m)@.contains_key(k) && *v == old(m)@[k] && final(m)@ == old(m)@.insert(k, *final(v)),
            None => !old(m)@.contains_key(k) && final(m)@ == old(m)@,
        },
{
    m.get_mut(&k)
}

/// The identifier recorded in the header of a page.
pub open spec fn recorded_id(page: Page) -> u64 {
    u64_at(page.bytes(), ID_OFFSET as int)
}

pub struct PagerBuffer {
    index: HashMap<u64, Page>,
}

impl PagerBuffer {
    /// The pages held, by identifier.
    pub closed spec fn index_view(&self) -> Map<u64, Page> {
        self.index@
    }

    pub fn new() -> (r: Self)
        ensures
            r.index_view() == Map::<u64, Page>::empty(),
    {
        PagerBuffer { index: HashMap::new() }
    }

    /// Hold `page` under the identifier its header records, in place of any page held under it.
    pub fn add(&mut self, page: Page)
        requires
            page.wf(),
        ensures
            final(self).index_view() == old(self).index_view().insert(recorded_id(page), page),
    {
        let id = page.get_id();
        self.index.insert(id, page);
    }

    /// Stop holding the page of identifier `page_id`.
    pub fn drop_page(&mut self, page_id: &PageId)
        ensures
            final(self).index_view() == old(self).index_view().remove(page_id.0),
    {
        self.index.remove(&page_id.0);
    }

    /// The page of identifier `page_id`, to change it in place.
    pub fn borrow_mut_page<'a>(&'a mut self, page_id: &PageId) -> (r: Option<&'a mut Page>)
        ensures
            match r {
                Some(p) => old(self).index_view().contains_key(page_id.0) && *p == old(self).index_view()[page_id.0]
                    && final(self).index_view() == old(self).index_view().insert(page_id.0, *final(p)),
                None => !old(self).index_view().contains_key(page_id.0) && final(self).index_view() == old(self).index_view(),
            },
    {
        map_get_mut(&mut self.index, page_id.0)
    }

    /// The page of identifier `page_id`.
    pub fn borrow_page<'a>(&'a self, page_id: &PageId) -> (r: Option<&'a Page>)
        ensures
            match r {
                Some(p) => self.index_view().contains_key(page_id.0) && *p == self.index_view()[page_id.0],
                None => !self.index_view().contains_key(page_id.0),
            },
    {
        self.index.get(&page_id.0)
    }
}

} // verus!

verus! {

/// A page added to the buffer is found under the identifier its header
/// records, other pages stay as they were, and a dropped page is no longer found.
pub proof fn lemma_add_then_borrow(index: Map<u64, Page>, page: Page, other: u64)
    ensures
        index.insert(recorded_id(page), page).contains_key(recorded_id(page)),
        index.insert(recorded_id(page), page)[recorded_id(page)] == page,
        other != recorded_id(page) ==> index.insert(recorded_id(page), page).contains_key(other) == index.contains_key(other),
        other != recorded_id(page) && index.contains_key(other) ==> index.insert(recorded_id(page), page)[other] == index[other],
        !index.remove(other).contains_key(other),
{
}


/// A call that changes what a buffer holds.
pub enum BufferOp {
    Add { page: Page },
    Drop { id: PageId },
}

/// The call concerns identifier `id`.
pub open spec fn concerns(op: BufferOp, id: u64) -> bool {
    match op {
        BufferOp::Add { page } => recorded_id(page) == id,
        BufferOp::Drop { id: d } => d.0 == id,
    }
}

/// What a buffer made by `PagerBuffer::new` holds after the calls `ops`, in
/// order, by the contracts of `add` and `drop_page`.
pub open spec fn replay(ops: Seq<BufferOp>) -> Map<u64, Page>
    decreases ops.len(),
{
    if ops.len() == 0 {
        Map::empty()
    } else {
        let held = replay(ops.drop_last());
        match ops.last() {
            BufferOp::Add { page } => held.insert(recorded_id(page), page),
            BufferOp::Drop { id } => held.remove(id.0),
        }
    }
}

/// Call `i` is the last of `ops` that concerns `id`.
pub open spec fn last_concerning(ops: Seq<BufferOp>, id: u64, i: int) -> bool {
    &&& 0 <= i < ops.len()
    &&& concerns(ops[i], id)
    &&& forall|j: int| i < j < ops.len() ==> !concerns(#[trigger] ops[j], id)
}

/// After any sequence of `add` and `drop_page` calls on a new buffer, the
/// buffer holds a page under `id` exactly when the last call concerning `id`
/// added a page, and then it holds that page; a new buffer holds nothing.
pub proof fn lemma_buffer_holds_last_added(ops: Seq<BufferOp>, id: u64)
    ensures
        replay(ops).contains_key(id) <==> exists|i: int| #[trigger] last_concerning(ops, id, i) && ops[i] is Add,
        forall|i: int| #[trigger] last_concerning(ops, id, i) && ops[i] is Add ==> replay(ops)[id] == ops[i]->page,
    decreases ops.len(),
{
    if ops.len() > 0 {
        let prev = ops.drop_last();
        let n = ops.len() - 1;
        lemma_buffer_holds_last_added(prev, id);
        if concerns(ops[n], id) {
            assert(last_concerning(ops, id, n));
            assert forall|i: int| #[trigger] last_concerning(ops, id, i) implies i == n by {
                if i < n {
                    assert(!concerns(ops[n], id));
                }
            }
        } else {
            assert forall|i: int| #[trigger] last_concerning(ops, id, i) implies last_concerning(prev, id, i) by {
                assert forall|j: int| i < j < prev.len() implies !concerns(#[trigger] prev[j], id) by {
                    assert(prev[j] == ops[j]);
                }
            }
            assert forall|i: int| #[trigger] last_concerning(prev, id, i) implies last_concerning(ops, id, i) by {
                assert forall|j: int| i < j < ops.len() implies !concerns(#[trigger] ops[j], id) by {
                    if j < n {
                        assert(prev[j] == ops[j]);
                    }
                }
            }
            if replay(ops).contains_key(id) {
                let i = choose|i: int| #[trigger] last_concerning(prev, id, i) && prev[i] is Add;
                assert(last_concerning(ops, id, i) && ops[i] is Add);
            }
        }
    }
}


/// One more call changes the pages held as the contract of that call says:
/// `add` holds the page under its recorded identifier, `drop_page` removes one.
pub proof fn lemma_replay_step(ops: Seq<BufferOp>, op: BufferOp)
    ensures
        replay(ops.push(op)) == (match op {
            BufferOp::Add { page } => replay(ops).insert(recorded_id(page), page),
            BufferOp::Drop { id } => replay(ops).remove(id.0),
        }),
        replay(Seq::<BufferOp>::empty()) == Map::<u64, Page>::empty(),
{
    assert(ops.push(op).drop_last() =~= ops);
}

} // verus!
