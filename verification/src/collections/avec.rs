//! The thread-safe copy-on-write vector.

use crate::alc::Alc;
use vstd::pervasive::cloned;
use vstd::prelude::*;

verus! {

/// The element values held by a sequence of element cells.
pub open spec fn values_of<T>(s: Seq<Alc<T>>) -> Seq<T> {
    s.map_values(|c: Alc<T>| c.value())
}

/// The allocation identities of a sequence of element cells.
pub open spec fn ids_of<T>(s: Seq<Alc<T>>) -> Seq<int> {
    s.map_values(|c: Alc<T>| c.id())
}

/// No cell of the sequence claims sole ownership of its allocation.
pub open spec fn cells_ok<T>(s: Seq<Alc<T>>) -> bool {
    forall|i: int| 0 <= i < s.len() ==> !(#[trigger] s[i]).exclusive()
}

/// Promotes every cell of a slice and collects mutable references to
/// their values, in order.
pub(crate) fn collect_mut<T: Clone>(slice: &mut [Alc<T>]) -> (r: Vec<&mut T>)
    ensures
        r@.len() == old(slice)@.len(),
        forall|i: int|
            0 <= i < old(slice)@.len() ==> cloned::<T>(
                old(slice)@[i].value(),
                *(#[trigger] r@[i]),
            ),
        final(slice)@.len() == old(slice)@.len(),
        forall|i: int|
            0 <= i < old(slice)@.len() ==> (#[trigger] final(slice)@[i]).value() == *final(r@[i]) && !final(slice)@[i].exclusive(),
    decreases slice@.len(),
{
    if slice.len() == 0 {
        Vec::new()
    } else {
        let (head, tail) = slice.split_at_mut(1);
        let p = head.first_mut().unwrap().cow_borrow();
        let mut rest = collect_mut(tail);
        let mut out: Vec<&mut T> = Vec::new();
        out.push(p);
        out.append(&mut rest);
        out
    }
}

/// Updating one slot of a cell sequence updates the value and identity
/// sequences at that slot, and keeps every cell unexclusive when the
/// new cell is.
pub(crate) broadcast proof fn lemma_cells_update<T>(s: Seq<Alc<T>>, i: int, c: Alc<T>)
    requires
        0 <= i < s.len(),
    ensures
        values_of(#[trigger] s.update(i, c)) == values_of(s).update(i, c.value()),
        ids_of(s.update(i, c)) == ids_of(s).update(i, c.id()),
        cells_ok(s) && !c.exclusive() ==> cells_ok(s.update(i, c)),
{
    assert(values_of(s.update(i, c)) =~= values_of(s).update(i, c.value()));
    assert(ids_of(s.update(i, c)) =~= ids_of(s).update(i, c.id()));
    if cells_ok(s) && !c.exclusive() {
        assert forall|j: int| 0 <= j < s.update(i, c).len() implies !(#[trigger] s.update(
            i,
            c,
        )[j]).exclusive() by {
            if j != i {
                assert(!s[j].exclusive());
            }
        }
    }
}

/// Appending a cell appends its value and identity, and keeps every
/// cell unexclusive when the new cell is.
pub(crate) broadcast proof fn lemma_cells_push<T>(s: Seq<Alc<T>>, c: Alc<T>)
    ensures
        values_of(#[trigger] s.push(c)) == values_of(s).push(c.value()),
        ids_of(s.push(c)) == ids_of(s).push(c.id()),
        cells_ok(s) && !c.exclusive() ==> cells_ok(s.push(c)),
{
    assert(values_of(s.push(c)) =~= values_of(s).push(c.value()));
    assert(ids_of(s.push(c)) =~= ids_of(s).push(c.id()));
    if cells_ok(s) && !c.exclusive() {
        assert forall|j: int| 0 <= j < s.push(c).len() implies !(#[trigger] s.push(
            c,
        )[j]).exclusive() by {
            if j < s.len() {
                assert(!s[j].exclusive());
            }
        }
    }
}

/// Dropping the last cell drops the last value and identity.
pub(crate) broadcast proof fn lemma_cells_drop_last<T>(s: Seq<Alc<T>>)
    requires
        s.len() > 0,
    ensures
        values_of(#[trigger] s.drop_last()) == values_of(s).drop_last(),
        ids_of(s.drop_last()) == ids_of(s).drop_last(),
        cells_ok(s) ==> cells_ok(s.drop_last()),
{
    assert(values_of(s.drop_last()) =~= values_of(s).drop_last());
    assert(ids_of(s.drop_last()) =~= ids_of(s).drop_last());
    if cells_ok(s) {
        assert forall|j: int| 0 <= j < s.drop_last().len() implies !(#[trigger] s.drop_last()[j]).exclusive() by {
            assert(!s[j].exclusive());
        }
    }
}

/// Removing one cell removes its value and identity.
pub(crate) broadcast proof fn lemma_cells_remove<T>(s: Seq<Alc<T>>, i: int)
    requires
        0 <= i < s.len(),
    ensures
        values_of(#[trigger] s.remove(i)) == values_of(s).remove(i),
        ids_of(s.remove(i)) == ids_of(s).remove(i),
        cells_ok(s) ==> cells_ok(s.remove(i)),
{
    assert(values_of(s.remove(i)) =~= values_of(s).remove(i));
    assert(ids_of(s.remove(i)) =~= ids_of(s).remove(i));
    if cells_ok(s) {
        assert forall|j: int| 0 <= j < s.remove(i).len() implies !(#[trigger] s.remove(
            i,
        )[j]).exclusive() by {
            if j < i {
                assert(!s[j].exclusive());
            } else {
                assert(!s[j + 1].exclusive());
            }
        }
    }
}

/// Inserting one cell inserts its value and identity, and keeps every
/// cell unexclusive when the new cell is.
pub(crate) broadcast proof fn lemma_cells_insert<T>(s: Seq<Alc<T>>, i: int, c: Alc<T>)
    requires
        0 <= i <= s.len(),
    ensures
        values_of(#[trigger] s.insert(i, c)) == values_of(s).insert(i, c.value()),
        ids_of(s.insert(i, c)) == ids_of(s).insert(i, c.id()),
        cells_ok(s) && !c.exclusive() ==> cells_ok(s.insert(i, c)),
{
    assert(values_of(s.insert(i, c)) =~= values_of(s).insert(i, c.value()));
    assert(ids_of(s.insert(i, c)) =~= ids_of(s).insert(i, c.id()));
    if cells_ok(s) && !c.exclusive() {
        assert forall|j: int| 0 <= j < s.insert(i, c).len() implies !(#[trigger] s.insert(
            i,
            c,
        )[j]).exclusive() by {
            if j < i {
                assert(!s[j].exclusive());
            } else if j > i {
                assert(!s[j - 1].exclusive());
            }
        }
    }
}

/// A vector with O(1) cloning and per-element copy-on-write, built on
/// the thread-safe cell so that clones may live on different threads.
///
/// One cell wraps the backing vector, and every slot of the backing
/// vector is one more cell around the element value.  Cloning the
/// container aliases the backing; mutating an element promotes first
/// the container cell and then the one element cell, so clones that
/// share the untouched elements are never disturbed.
pub struct AtomicLazyVec<T: Clone> {
    vec: Alc<Vec<Alc<T>>>,
}

impl<T: Clone> View for AtomicLazyVec<T> {
    type V = Seq<T>;

    closed spec fn view(&self) -> Seq<T> {
        values_of(self.vec.value()@)
    }
}

impl<T: Clone> AtomicLazyVec<T> {
    /// The element cells of the backing vector.
    pub(crate) closed spec fn cells(&self) -> Seq<Alc<T>> {
        self.vec.value()@
    }

    /// Allocation identities of the element cells: two containers whose
    /// identities agree at an index share that element's allocation.
    pub closed spec fn elem_ids(&self) -> Seq<int> {
        ids_of(self.vec.value()@)
    }

    /// Identity of the container-level cell.
    pub closed spec fn id(&self) -> int {
        self.vec.id()
    }

    /// True when this container is known to be the sole owner of its
    /// backing vector.
    pub closed spec fn exclusive(&self) -> bool {
        self.vec.exclusive()
    }

    /// Well-formedness: no element cell claims sole ownership, so the
    /// backing vector can be aliased wholesale at any time.  Every
    /// constructor establishes this and every operation preserves it.
    pub closed spec fn wf(&self) -> bool {
        cells_ok(self.vec.value()@)
    }

    /// Creates a new empty vector.
    pub fn new() -> (r: Self)
        ensures
            r@ == Seq::<T>::empty(),
            r.exclusive(),
            r.wf(),
    {
        let r = AtomicLazyVec { vec: Alc::new(Vec::new()) };
        proof {
            assert(r@ =~= Seq::<T>::empty());
        }
        r
    }

    /// A reference to the value at `index`, or `None` when `index` is
    /// out of range.  Always O(1) and never promotes.
    pub fn get(&self, index: usize) -> (r: Option<&T>)
        ensures
            index < self@.len() ==> (r matches Some(v) && *v == self@[index as int]),
            index >= self@.len() ==> r is None,
    {
        let backing = self.vec.read();
        if index < backing.len() {
            Some(backing[index].read())
        } else {
            None
        }
    }

    /// An O(1) aliasing handle to the element at `index`, without
    /// copying its value, or `None` when `index` is out of range.
    pub fn get_lazy(&self, index: usize) -> (r: Option<Alc<T>>)
        requires
            self.wf(),
        ensures
            index < self@.len() ==> (r matches Some(c) && c.value() == self@[index as int]
                && c.id() == self.elem_ids()[index as int] && !c.exclusive()),
            index >= self@.len() ==> r is None,
    {
        let backing = self.vec.read();
        if index < backing.len() {
            proof {
                assert(!self.cells()[index as int].exclusive());
            }
            Some(backing[index].alias())
        } else {
            None
        }
    }

    /// An O(1) clone: the result aliases this container's backing
    /// vector, and both handles are marked shared.
    pub fn lazy(&mut self) -> (r: Self)
        ensures
            r@ == old(self)@,
            r.elem_ids() == old(self).elem_ids(),
            r.id() == old(self).id(),
            !r.exclusive(),
            final(self)@ == old(self)@,
            final(self).elem_ids() == old(self).elem_ids(),
            final(self).id() == old(self).id(),
            !final(self).exclusive(),
            old(self).wf() ==> r.wf() && final(self).wf(),
    {
        AtomicLazyVec { vec: self.vec.lazy() }
    }

    /// Whether this container can be mutated in O(1), with no other
    /// clone able to observe the write.
    pub fn is_mutable(&mut self) -> (r: bool)
        ensures
            final(self)@ == old(self)@,
            final(self).elem_ids() == old(self).elem_ids(),
            final(self).id() == old(self).id(),
            old(self).exclusive() ==> r,
            final(self).exclusive() == (old(self).exclusive() || r),
            old(self).wf() ==> final(self).wf(),
    {
        self.vec.is_mutable()
    }

    /// Aliases every element cell of the backing vector into a fresh
    /// vector, in order, without copying any element value.
    fn clone_backing(&self) -> (r: Vec<Alc<T>>)
        requires
            self.wf(),
        ensures
            values_of(r@) == self@,
            ids_of(r@) == self.elem_ids(),
            cells_ok(r@),
    {
        let backing = self.vec.read();
        let n = backing.len();
        let mut out: Vec<Alc<T>> = Vec::new();
        let mut i: usize = 0;
        while i < n
            invariant
                self.wf(),
                *backing == self.vec.value(),
                n == backing@.len(),
                i <= n,
                out@.len() == i,
                forall|j: int|
                    0 <= j < i ==> (#[trigger] out@[j]).value() == self.cells()[j].value()
                        && out@[j].id() == self.cells()[j].id() && !out@[j].exclusive(),
            decreases n - i,
        {
            proof {
                assert(!self.cells()[i as int].exclusive());
            }
            out.push(backing[i].alias());
            i += 1;
        }
        proof {
            assert(values_of(out@) =~= self@);
            assert(ids_of(out@) =~= self.elem_ids());
        }
        out
    }

    /// Takes the backing vector out of the container cell: without any
    /// copy when the cell turns out to be exclusively owned — the cell is
    /// then left bound to an empty placeholder and the caller rebinds
    /// it — and by aliasing every element cell otherwise.
    fn grab(&mut self) -> (r: Vec<Alc<T>>)
        requires
            old(self).wf(),
        ensures
            values_of(r@) == old(self)@,
            ids_of(r@) == old(self).elem_ids(),
            cells_ok(r@),
    {
        if self.vec.is_mutable() {
            let mut cell = Alc::new(Vec::new());
            core::mem::swap(&mut self.vec, &mut cell);
            cell.take_inner()
        } else {
            self.clone_backing()
        }
    }

    /// Makes the container cell the sole owner of its backing vector,
    /// aliasing the element cells into a fresh backing vector if the
    /// old one was shared.  Element values are never copied.
    fn promote(&mut self)
        requires
            old(self).wf(),
        ensures
            final(self)@ == old(self)@,
            final(self).elem_ids() == old(self).elem_ids(),
            final(self).exclusive(),
            final(self).wf(),
            old(self).exclusive() ==> final(self).id() == old(self).id(),
    {
        if !self.vec.is_mutable() {
            let backing = self.clone_backing();
            self.vec = Alc::new(backing);
        }
    }

    /// Replaces the value at `index`, leaving every clone of this
    /// container unaffected: the slot is rebound to a fresh element
    /// cell, so a clone sharing the old element keeps its value.
    ///
    /// Returns `Err(())` and changes no value when `index` is out of
    /// range.  Either way the container cell itself ends up exclusively
    /// owned.
    pub fn set(&mut self, index: usize, value: T) -> (r: Result<(), ()>)
        requires
            old(self).wf(),
        ensures
            final(self).wf(),
            final(self).exclusive(),
            index < old(self)@.len() ==> (r is Ok && final(self)@ == old(self)@.update(
                index as int,
                value,
            ) && final(self).elem_ids().len() == old(self)@.len() && (forall|j: int|
                0 <= j < old(self)@.len() && j != index ==> final(self).elem_ids()[j] == old(self).elem_ids()[j]) && final(self).elem_ids()[index as int] != old(self).elem_ids()[index as int]),
            index >= old(self)@.len() ==> (r is Err && final(self)@ == old(self)@ && final(self).elem_ids() == old(self).elem_ids()),
    {
        broadcast use lemma_cells_update;

        let mut backing = self.grab();
        let res: Result<(), ()> = if index < backing.len() {
            let slot = &mut backing[index];
            let mut fresh = slot.renew(value);
            fresh.seal();
            *slot = fresh;
            Ok(())
        } else {
            Err(())
        };
        self.vec = Alc::new(backing);
        res
    }

    /// Appends a value, wrapped in a fresh element cell, at the end.
    /// Clones of this container are unaffected.
    pub fn push(&mut self, value: T)
        requires
            old(self).wf(),
        ensures
            final(self)@ == old(self)@.push(value),
            final(self).elem_ids().len() == old(self)@.len() + 1,
            forall|j: int|
                0 <= j < old(self)@.len() ==> final(self).elem_ids()[j] == old(self).elem_ids()[j],
            final(self).exclusive(),
            final(self).wf(),
    {
        broadcast use lemma_cells_push;

        let mut backing = self.grab();
        let mut cell = Alc::new(value);
        cell.seal();
        backing.push(cell);
        self.vec = Alc::new(backing);
    }

    /// Removes and returns the last value, or `None` when the vector is
    /// empty.  The value moves out without a copy when its element cell
    /// turns out to be unshared.
    pub fn pop(&mut self) -> (r: Option<T>)
        requires
            old(self).wf(),
        ensures
            final(self).exclusive(),
            final(self).wf(),
            old(self)@.len() == 0 ==> r is None && final(self)@ == old(self)@ && final(self).elem_ids() == old(self).elem_ids(),
            old(self)@.len() > 0 ==> (r matches Some(v) && cloned::<T>(old(self)@.last(), v)
                && final(self)@ == old(self)@.drop_last() && final(self).elem_ids() == old(self).elem_ids().drop_last()),
    {
        broadcast use lemma_cells_drop_last;

        let mut backing = self.grab();
        let res = match backing.pop() {
            Some(cell) => Some(cell.unwrap()),
            None => None,
        };
        self.vec = Alc::new(backing);
        res
    }

    /// A mutable reference to the value at `index`, or `None` when
    /// `index` is out of range.
    ///
    /// The container cell is promoted first, then the one element cell
    /// at `index`; elements at other indices are never copied, and no
    /// clone of this container can observe the write.
    pub fn get_mut(&mut self, index: usize) -> (r: Option<&mut T>)
        requires
            old(self).wf(),
        ensures
            final(self).exclusive(),
            final(self).wf(),
            old(self).exclusive() ==> final(self).id() == old(self).id(),
            index >= old(self)@.len() ==> (r is None && final(self)@ == old(self)@ && final(
                self).elem_ids() == old(self).elem_ids()),
            index < old(self)@.len() ==> (r matches Some(p) && cloned::<T>(
                old(self)@[index as int],
                *p,
            ) && final(self)@ == old(self)@.update(index as int, *final(p)) && final(
                self).elem_ids().len() == old(self)@.len() && (forall|j: int|
                0 <= j < old(self)@.len() && j != index ==> final(self).elem_ids()[j] == old(
                    self).elem_ids()[j])),
    {
        broadcast use lemma_cells_update;

        self.promote();
        let backing = self.vec.borrow_exclusive();
        if index < backing.len() {
            let slot = &mut backing[index];
            Some(slot.cow_borrow())
        } else {
            None
        }
    }

    /// Removes the element at `index` and returns an aliasing handle to
    /// it without copying its value.  `index` must be in range.
    pub fn remove_lazy(&mut self, index: usize) -> (r: Alc<T>)
        requires
            old(self).wf(),
            index < old(self)@.len(),
        ensures
            r.value() == old(self)@[index as int],
            r.id() == old(self).elem_ids()[index as int],
            !r.exclusive(),
            final(self)@ == old(self)@.remove(index as int),
            final(self).elem_ids() == old(self).elem_ids().remove(index as int),
            final(self).exclusive(),
            final(self).wf(),
    {
        broadcast use lemma_cells_remove;

        let mut backing = self.grab();
        let cell = backing.remove(index);
        self.vec = Alc::new(backing);
        cell
    }

    /// Removes and returns the value at `index`.  `index` must be in
    /// range.
    pub fn remove(&mut self, index: usize) -> (r: T)
        requires
            old(self).wf(),
            index < old(self)@.len(),
        ensures
            cloned::<T>(old(self)@[index as int], r),
            crate::lazy::clone_faithful::<T>() ==> r == old(self)@[index as int],
            final(self)@ == old(self)@.remove(index as int),
            final(self).elem_ids() == old(self).elem_ids().remove(index as int),
            final(self).exclusive(),
            final(self).wf(),
    {
        self.remove_lazy(index).unwrap()
    }

    /// Inserts a value, wrapped in a fresh element cell, at position
    /// `index`, shifting the elements after it.  `index` must be at
    /// most the length.
    pub fn insert(&mut self, index: usize, value: T)
        requires
            old(self).wf(),
            index <= old(self)@.len(),
        ensures
            final(self)@ == old(self)@.insert(index as int, value),
            final(self).elem_ids().len() == old(self)@.len() + 1,
            forall|j: int|
                0 <= j < old(self)@.len() ==> final(self).elem_ids()[if j < index {
                    j
                } else {
                    j + 1
                }] == old(self).elem_ids()[j],
            final(self).exclusive(),
            final(self).wf(),
    {
        broadcast use lemma_cells_insert;

        let mut backing = self.grab();
        let mut cell = Alc::new(value);
        cell.seal();
        backing.insert(index, cell);
        self.vec = Alc::new(backing);
    }

    /// An eager clone of the container structure: the backing vector is
    /// copied into a fresh, exclusively owned container cell.  The
    /// element values themselves stay lazily shared until they are
    /// individually written.
    pub fn eager(&self) -> (r: Self)
        requires
            self.wf(),
        ensures
            r@ == self@,
            r.elem_ids() == self.elem_ids(),
            r.id() != self.id(),
            r.exclusive(),
            r.wf(),
    {
        let backing = self.clone_backing();
        AtomicLazyVec { vec: self.vec.renew(backing) }
    }

    /// Wraps every value of a plain vector in a fresh element cell, in
    /// order.
    pub fn from_vec(values: Vec<T>) -> (r: Self)
        ensures
            r@ == values@,
            r.exclusive(),
            r.wf(),
    {
        let ghost all = values@;
        let mut values = values;
        let mut rev: Vec<Alc<T>> = Vec::new();
        while values.len() > 0
            invariant
                values@.len() + rev@.len() == all.len(),
                values@ == all.subrange(0, values@.len() as int),
                forall|j: int|
                    0 <= j < rev@.len() ==> (#[trigger] rev@[j]).value() == all[all.len() - 1 - j]
                        && !rev@[j].exclusive(),
            decreases values@.len(),
        {
            let value = values.pop().unwrap();
            let mut cell = Alc::new(value);
            cell.seal();
            rev.push(cell);
            proof {
                assert(values@ =~= all.subrange(0, values@.len() as int));
            }
        }
        let mut backing: Vec<Alc<T>> = Vec::new();
        while rev.len() > 0
            invariant
                rev@.len() + backing@.len() == all.len(),
                forall|j: int|
                    0 <= j < rev@.len() ==> (#[trigger] rev@[j]).value() == all[all.len() - 1 - j]
                        && !rev@[j].exclusive(),
                forall|j: int|
                    0 <= j < backing@.len() ==> (#[trigger] backing@[j]).value() == all[j]
                        && !backing@[j].exclusive(),
            decreases rev@.len(),
        {
            let cell = rev.pop().unwrap();
            backing.push(cell);
        }
        let r = AtomicLazyVec { vec: Alc::new(backing) };
        proof {
            assert(r@ =~= all);
        }
        r
    }

    /// Builds a container directly from element cells, in order.  The
    /// cells keep their allocations, so sharing set up by the caller —
    /// for instance from [`AtomicLazyVec::get_lazy`] — is preserved.
    pub fn from_cells(cells: Vec<Alc<T>>) -> (r: Self)
        ensures
            r@ == values_of(cells@),
            r.elem_ids() == ids_of(cells@),
            r.exclusive(),
            r.wf(),
    {
        let mut cells = cells;
        let ghost given = cells@;
        let n = cells.len();
        let mut i: usize = 0;
        while i < n
            invariant
                n == cells@.len(),
                n == given.len(),
                i <= n,
                forall|j: int|
                    0 <= j < i ==> (#[trigger] cells@[j]).value() == given[j].value()
                        && cells@[j].id() == given[j].id() && !cells@[j].exclusive(),
                forall|j: int| i <= j < n ==> #[trigger] cells@[j] == given[j],
            decreases n - i,
        {
            let slot = &mut cells[i];
            slot.seal();
            i += 1;
        }
        let r = AtomicLazyVec { vec: Alc::new(cells) };
        proof {
            assert(r@ =~= values_of(given));
            assert(r.elem_ids() =~= ids_of(given));
        }
        r
    }

    /// Takes the container apart into its element cells, in order:
    /// without copying anything when the container cell turns out to be
    /// exclusively owned, and by aliasing each element cell otherwise.
    pub fn into_cells(self) -> (r: Vec<Alc<T>>)
        requires
            self.wf(),
        ensures
            values_of(r@) == self@,
            ids_of(r@) == self.elem_ids(),
            cells_ok(r@),
    {
        let mut this = self;
        this.grab()
    }

    /// Unwraps the container into a plain vector of its values, in
    /// order: each element moves out without a copy when its cell turns
    /// out to be unshared, and is deep-copied otherwise.
    pub fn into_vec(self) -> (r: Vec<T>)
        requires
            self.wf(),
        ensures
            r@.len() == self@.len(),
            forall|i: int| 0 <= i < self@.len() ==> cloned::<T>(self@[i], #[trigger] r@[i]),
            crate::lazy::clone_faithful::<T>() ==> r@ == self@,
    {
        let ghost all = self@;
        let mut this = self;
        let mut backing = this.grab();
        let mut rev: Vec<T> = Vec::new();
        while backing.len() > 0
            invariant
                backing@.len() + rev@.len() == all.len(),
                values_of(backing@) == all.subrange(0, backing@.len() as int),
                forall|j: int|
                    0 <= j < rev@.len() ==> cloned::<T>(
                        all[all.len() - 1 - j],
                        #[trigger] rev@[j],
                    ),
            decreases backing@.len(),
        {
            let ghost pre = backing@;
            let cell = backing.pop().unwrap();
            proof {
                assert(pre[pre.len() - 1].value() == values_of(pre)[pre.len() - 1]);
            }
            rev.push(cell.unwrap());
            proof {
                assert(values_of(backing@) =~= all.subrange(0, backing@.len() as int));
            }
        }
        let mut out: Vec<T> = Vec::new();
        while rev.len() > 0
            invariant
                rev@.len() + out@.len() == all.len(),
                forall|j: int|
                    0 <= j < rev@.len() ==> cloned::<T>(
                        all[all.len() - 1 - j],
                        #[trigger] rev@[j],
                    ),
                forall|j: int| 0 <= j < out@.len() ==> cloned::<T>(all[j], #[trigger] out@[j]),
            decreases rev@.len(),
        {
            let value = rev.pop().unwrap();
            out.push(value);
        }
        proof {
            if crate::lazy::clone_faithful::<T>() {
                assert(out@ =~= all);
            }
        }
        out
    }

    /// Mutable references to every element, in order.
    ///
    /// The container cell is promoted once up front; each element cell
    /// is then promoted on its own, so elements shared with a clone of
    /// this container are copied while unshared ones are borrowed in
    /// place.  Writing through the `i`-th reference sets the `i`-th
    /// element.
    pub fn iter_mut(&mut self) -> (r: Vec<&mut T>)
        requires
            old(self).wf(),
        ensures
            r@.len() == old(self)@.len(),
            forall|i: int|
                0 <= i < old(self)@.len() ==> cloned::<T>(old(self)@[i], *(#[trigger] r@[i])),
            final(self)@.len() == old(self)@.len(),
            forall|i: int|
                0 <= i < old(self)@.len() ==> final(self)@[i] == *final(#[trigger] r@[i]),
            final(self).exclusive(),
            final(self).wf(),
            old(self).exclusive() ==> final(self).id() == old(self).id(),
    {
        self.promote();
        let backing = self.vec.borrow_exclusive();
        collect_mut(backing.as_mut_slice())
    }

    /// References to every element, in order.
    pub fn iter(&self) -> (r: Vec<&T>)
        ensures
            r@.len() == self@.len(),
            forall|i: int| 0 <= i < self@.len() ==> *(#[trigger] r@[i]) == self@[i],
    {
        let backing = self.vec.read();
        let n = backing.len();
        let mut out: Vec<&T> = Vec::new();
        let mut i: usize = 0;
        while i < n
            invariant
                *backing == self.vec.value(),
                n == backing@.len(),
                i <= n,
                out@.len() == i,
                forall|j: int| 0 <= j < i ==> *(#[trigger] out@[j]) == self@[j],
            decreases n - i,
        {
            out.push(backing[i].read());
            i += 1;
        }
        out
    }
}

impl<T: Clone> crate::lazy::LazyClone for AtomicLazyVec<T> {
    open spec fn inv(&self) -> bool {
        self.wf()
    }

    fn lazy(&mut self) -> Self {
        AtomicLazyVec::lazy(self)
    }

    fn eager(&self) -> Self {
        AtomicLazyVec::eager(self)
    }

    fn is_mutable(&mut self) -> bool {
        AtomicLazyVec::is_mutable(self)
    }
}

} // verus!
