//! The thread-safe copy-on-write list.

use crate::alc::Alc;
use crate::collections::avec::{
    cells_ok, collect_mut, ids_of, lemma_cells_drop_last, lemma_cells_insert,
    lemma_cells_remove, lemma_cells_update, values_of,
};
use vstd::pervasive::cloned;
use vstd::prelude::*;

verus! {

/// A list with O(1) cloning, per-element copy-on-write, and access to
/// both ends, built on the thread-safe cell.
///
/// One cell wraps the backing sequence of element cells.  It is meant
/// for working with the data as a whole: cloning is always O(1), and
/// the operations centre on the two ends.  The backing sequence is
/// held in one contiguous vector, so an operation at the front also
/// pays for shifting the elements behind it.
pub struct AtomicLazyList<T: Clone> {
    list: Alc<Vec<Alc<T>>>,
}

impl<T: Clone> View for AtomicLazyList<T> {
    type V = Seq<T>;

    closed spec fn view(&self) -> Seq<T> {
        values_of(self.list.value()@)
    }
}

impl<T: Clone> AtomicLazyList<T> {
    /// The element cells of the backing sequence.
    pub(crate) closed spec fn cells(&self) -> Seq<Alc<T>> {
        self.list.value()@
    }

    /// Allocation identities of the element cells: two lists whose
    /// identities agree at an index share that element's allocation.
    pub closed spec fn elem_ids(&self) -> Seq<int> {
        ids_of(self.list.value()@)
    }

    /// Identity of the list-level cell.
    pub closed spec fn id(&self) -> int {
        self.list.id()
    }

    /// True when this list is known to be the sole owner of its backing
    /// sequence.
    pub closed spec fn exclusive(&self) -> bool {
        self.list.exclusive()
    }

    /// Well-formedness: no element cell claims sole ownership, so the
    /// backing sequence can be aliased wholesale at any time.  Every
    /// constructor establishes this and every operation preserves it.
    pub closed spec fn wf(&self) -> bool {
        cells_ok(self.list.value()@)
    }

    /// Creates a new empty list.
    pub fn new() -> (r: Self)
        ensures
            r@ == Seq::<T>::empty(),
            r.exclusive(),
            r.wf(),
    {
        let r = AtomicLazyList { list: Alc::new(Vec::new()) };
        proof {
            assert(r@ =~= Seq::<T>::empty());
        }
        r
    }

    /// A reference to the value at position `index`, or `None` when
    /// `index` is out of range.
    pub fn get(&self, index: usize) -> (r: Option<&T>)
        ensures
            index < self@.len() ==> (r matches Some(v) && *v == self@[index as int]),
            index >= self@.len() ==> r is None,
    {
        let backing = self.list.read();
        if index < backing.len() {
            Some(backing[index].read())
        } else {
            None
        }
    }

    /// An O(1) aliasing handle to the element at position `index`,
    /// without copying its value, or `None` when `index` is out of
    /// range.
    pub fn get_lazy(&self, index: usize) -> (r: Option<Alc<T>>)
        requires
            self.wf(),
        ensures
            index < self@.len() ==> (r matches Some(c) && c.value() == self@[index as int]
                && c.id() == self.elem_ids()[index as int] && !c.exclusive()),
            index >= self@.len() ==> r is None,
    {
        let backing = self.list.read();
        if index < backing.len() {
            proof {
                assert(!self.cells()[index as int].exclusive());
            }
            Some(backing[index].alias())
        } else {
            None
        }
    }

    /// An O(1) clone: the result aliases this list's backing sequence,
    /// and both handles are marked shared.
    pub fn lazy(&mut self) -> (r: Self)
        ensures
            r@ == old(self)@,
            r.elem_ids() == old(self).elem_ids(),
            r.id() == old(self).id(),
            !r.exclusive(),
            final(self)@ == old(self)@,
            final(self).elem_ids() == old(self).elem_ids(),
            final(self).id() == old(self).id(),
            !final(self).exclusive(),
            old(self).wf() ==> r.wf() && final(self).wf(),
    {
        AtomicLazyList { list: self.list.lazy() }
    }

    /// Whether this list can be mutated in O(1), with no other clone
    /// able to observe the write.
    pub fn is_mutable(&mut self) -> (r: bool)
        ensures
            final(self)@ == old(self)@,
            final(self).elem_ids() == old(self).elem_ids(),
            final(self).id() == old(self).id(),
            old(self).exclusive() ==> r,
            final(self).exclusive() == (old(self).exclusive() || r),
            old(self).wf() ==> final(self).wf(),
    {
        self.list.is_mutable()
    }

    /// Aliases every element cell of the backing sequence into a fresh
    /// one, in order, without copying any element value.
    fn clone_backing(&self) -> (r: Vec<Alc<T>>)
        requires
            self.wf(),
        ensures
            values_of(r@) == self@,
            ids_of(r@) == self.elem_ids(),
            cells_ok(r@),
    {
        let backing = self.list.read();
        let n = backing.len();
        let mut out: Vec<Alc<T>> = Vec::new();
        let mut i: usize = 0;
        while i < n
            invariant
                self.wf(),
                *backing == self.list.value(),
                n == backing@.len(),
                i <= n,
                out@.len() == i,
                forall|j: int|
                    0 <= j < i ==> (#[trigger] out@[j]).value() == self.cells()[j].value()
                        && out@[j].id() == self.cells()[j].id() && !out@[j].exclusive(),
            decreases n - i,
        {
            proof {
                assert(!self.cells()[i as int].exclusive());
            }
            out.push(backing[i].alias());
            i += 1;
        }
        proof {
            assert(values_of(out@) =~= self@);
            assert(ids_of(out@) =~= self.elem_ids());
        }
        out
    }

    /// Takes the backing sequence out of the list cell: without any
    /// copy when the cell turns out to be exclusively owned — the cell is
    /// then left bound to an empty placeholder and the caller rebinds
    /// it — and by aliasing every element cell otherwise.
    fn grab(&mut self) -> (r: Vec<Alc<T>>)
        requires
            old(self).wf(),
        ensures
            values_of(r@) == old(self)@,
            ids_of(r@) == old(self).elem_ids(),
            cells_ok(r@),
    {
        if self.list.is_mutable() {
            let mut cell = Alc::new(Vec::new());
            core::mem::swap(&mut self.list, &mut cell);
            cell.take_inner()
        } else {
            self.clone_backing()
        }
    }

    /// Makes the list cell the sole owner of its backing sequence,
    /// aliasing the element cells into a fresh backing if the old one
    /// was shared.  Element values are never copied.
    fn promote(&mut self)
        requires
            old(self).wf(),
        ensures
            final(self)@ == old(self)@,
            final(self).elem_ids() == old(self).elem_ids(),
            final(self).exclusive(),
            final(self).wf(),
            old(self).exclusive() ==> final(self).id() == old(self).id(),
    {
        if !self.list.is_mutable() {
            let backing = self.clone_backing();
            self.list = Alc::new(backing);
        }
    }

    /// A mutable reference to the value at position `index`, or `None`
    /// when `index` is out of range.
    ///
    /// The list cell is promoted first, then the one element cell at
    /// `index`; elements at other positions are never copied, and no
    /// clone of this list can observe the write.
    pub fn get_mut(&mut self, index: usize) -> (r: Option<&mut T>)
        requires
            old(self).wf(),
        ensures
            final(self).exclusive(),
            final(self).wf(),
            old(self).exclusive() ==> final(self).id() == old(self).id(),
            index >= old(self)@.len() ==> (r is None && final(self)@ == old(self)@ && final(
                self).elem_ids() == old(self).elem_ids()),
            index < old(self)@.len() ==> (r matches Some(p) && cloned::<T>(
                old(self)@[index as int],
                *p,
            ) && final(self)@ == old(self)@.update(index as int, *final(p)) && final(
                self).elem_ids().len() == old(self)@.len() && (forall|j: int|
                0 <= j < old(self)@.len() && j != index ==> final(self).elem_ids()[j] == old(
                    self).elem_ids()[j])),
    {
        broadcast use lemma_cells_update;

        self.promote();
        let backing = self.list.borrow_exclusive();
        if index < backing.len() {
            let slot = &mut backing[index];
            Some(slot.cow_borrow())
        } else {
            None
        }
    }

    /// Changes the value at position `index`, leaving every clone of
    /// this list unaffected: the slot is rebound to a fresh element
    /// cell, so a clone sharing the old element keeps its value.
    ///
    /// Returns `Err(())` and changes no value when `index` is out of
    /// range.  Either way the list cell itself ends up exclusively
    /// owned.
    pub fn set(&mut self, index: usize, value: T) -> (r: Result<(), ()>)
        requires
            old(self).wf(),
        ensures
            final(self).wf(),
            final(self).exclusive(),
            index < old(self)@.len() ==> (r is Ok && final(self)@ == old(self)@.update(
                index as int,
                value,
            ) && final(self).elem_ids().len() == old(self)@.len() && (forall|j: int|
                0 <= j < old(self)@.len() && j != index ==> final(self).elem_ids()[j] == old(
                    self).elem_ids()[j]) && final(self).elem_ids()[index as int] != old(
                self).elem_ids()[index as int]),
            index >= old(self)@.len() ==> (r is Err && final(self)@ == old(self)@ && final(
                self).elem_ids() == old(self).elem_ids()),
    {
        broadcast use lemma_cells_update;

        let mut backing = self.grab();
        let res: Result<(), ()> = if index < backing.len() {
            let slot = &mut backing[index];
            let mut fresh = slot.renew(value);
            fresh.seal();
            *slot = fresh;
            Ok(())
        } else {
            Err(())
        };
        self.list = Alc::new(backing);
        res
    }

    /// Appends a value, wrapped in a fresh element cell, at the end of
    /// the list.  Clones of this list are unaffected.
    pub fn push_back(&mut self, value: T)
        requires
            old(self).wf(),
        ensures
            final(self)@ == old(self)@.push(value),
            final(self).elem_ids().len() == old(self)@.len() + 1,
            forall|j: int|
                0 <= j < old(self)@.len() ==> final(self).elem_ids()[j] == old(self).elem_ids()[j],
            final(self).exclusive(),
            final(self).wf(),
    {
        broadcast use crate::collections::avec::lemma_cells_push;

        let mut backing = self.grab();
        let mut cell = Alc::new(value);
        cell.seal();
        backing.push(cell);
        self.list = Alc::new(backing);
    }

    /// Prepends a value, wrapped in a fresh element cell, at the
    /// beginning of the list.  Clones of this list are unaffected.
    pub fn push_front(&mut self, value: T)
        requires
            old(self).wf(),
        ensures
            final(self)@ == old(self)@.insert(0, value),
            final(self).elem_ids().len() == old(self)@.len() + 1,
            forall|j: int|
                0 <= j < old(self)@.len() ==> final(self).elem_ids()[j + 1] == old(
                    self).elem_ids()[j],
            final(self).exclusive(),
            final(self).wf(),
    {
        broadcast use lemma_cells_insert;

        let mut backing = self.grab();
        let mut cell = Alc::new(value);
        cell.seal();
        backing.insert(0, cell);
        self.list = Alc::new(backing);
    }

    /// Removes the last element and returns an aliasing handle to it
    /// without copying its value, or `None` when the list is empty.
    pub fn pop_back_lazy(&mut self) -> (r: Option<Alc<T>>)
        requires
            old(self).wf(),
        ensures
            final(self).exclusive(),
            final(self).wf(),
            old(self)@.len() == 0 ==> r is None && final(self)@ == old(self)@ && final(
                self).elem_ids() == old(self).elem_ids(),
            old(self)@.len() > 0 ==> (r matches Some(c) && c.value() == old(self)@.last()
                && c.id() == old(self).elem_ids().last() && !c.exclusive() && final(self)@ == old(
                self)@.drop_last() && final(self).elem_ids() == old(self).elem_ids().drop_last()),
    {
        broadcast use lemma_cells_drop_last;

        let mut backing = self.grab();
        let res = backing.pop();
        self.list = Alc::new(backing);
        res
    }

    /// Removes the first element and returns an aliasing handle to it
    /// without copying its value, or `None` when the list is empty.
    pub fn pop_front_lazy(&mut self) -> (r: Option<Alc<T>>)
        requires
            old(self).wf(),
        ensures
            final(self).exclusive(),
            final(self).wf(),
            old(self)@.len() == 0 ==> r is None && final(self)@ == old(self)@ && final(
                self).elem_ids() == old(self).elem_ids(),
            old(self)@.len() > 0 ==> (r matches Some(c) && c.value() == old(self)@[0] && c.id()
                == old(self).elem_ids()[0] && !c.exclusive() && final(self)@ == old(self)@.remove(0)
                && final(self).elem_ids() == old(self).elem_ids().remove(0)),
    {
        broadcast use lemma_cells_remove;

        let mut backing = self.grab();
        let res = if backing.len() > 0 {
            Some(backing.remove(0))
        } else {
            None
        };
        self.list = Alc::new(backing);
        res
    }

    /// Removes and returns the last value, or `None` when the list is
    /// empty.  The value moves out without a copy when its element cell
    /// turns out to be unshared.
    pub fn pop_back(&mut self) -> (r: Option<T>)
        requires
            old(self).wf(),
        ensures
            final(self).exclusive(),
            final(self).wf(),
            old(self)@.len() == 0 ==> r is None && final(self)@ == old(self)@ && final(
                self).elem_ids() == old(self).elem_ids(),
            old(self)@.len() > 0 ==> (r matches Some(v) && cloned::<T>(old(self)@.last(), v)
                && (crate::lazy::clone_faithful::<T>() ==> v == old(self)@.last()) && final(
                self)@ == old(self)@.drop_last() && final(self).elem_ids() == old(
                self).elem_ids().drop_last()),
    {
        match self.pop_back_lazy() {
            Some(cell) => Some(cell.unwrap()),
            None => None,
        }
    }

    /// Removes and returns the first value, or `None` when the list is
    /// empty.  The value moves out without a copy when its element cell
    /// turns out to be unshared.
    pub fn pop_front(&mut self) -> (r: Option<T>)
        requires
            old(self).wf(),
        ensures
            final(self).exclusive(),
            final(self).wf(),
            old(self)@.len() == 0 ==> r is None && final(self)@ == old(self)@ && final(
                self).elem_ids() == old(self).elem_ids(),
            old(self)@.len() > 0 ==> (r matches Some(v) && cloned::<T>(old(self)@[0], v)
                && (crate::lazy::clone_faithful::<T>() ==> v == old(self)@[0]) && final(
                self)@ == old(self)@.remove(0) && final(self).elem_ids() == old(
                self).elem_ids().remove(0)),
    {
        match self.pop_front_lazy() {
            Some(cell) => Some(cell.unwrap()),
            None => None,
        }
    }

    /// A reference to the first value, or `None` when the list is
    /// empty.
    pub fn front(&self) -> (r: Option<&T>)
        ensures
            self@.len() > 0 ==> (r matches Some(v) && *v == self@[0]),
            self@.len() == 0 ==> r is None,
    {
        self.get(0)
    }

    /// A mutable reference to the first value, or `None` when the list
    /// is empty, promoting the list cell and the first element cell as
    /// needed.
    pub fn front_mut(&mut self) -> (r: Option<&mut T>)
        requires
            old(self).wf(),
        ensures
            final(self).exclusive(),
            final(self).wf(),
            old(self).exclusive() ==> final(self).id() == old(self).id(),
            old(self)@.len() == 0 ==> (r is None && final(self)@ == old(self)@ && final(
                self).elem_ids() == old(self).elem_ids()),
            old(self)@.len() > 0 ==> (r matches Some(p) && cloned::<T>(old(self)@[0], *p) && final(
                self)@ == old(self)@.update(0, *final(p)) && final(self).elem_ids().len() == old(
                self)@.len() && (forall|j: int|
                1 <= j < old(self)@.len() ==> final(self).elem_ids()[j] == old(
                    self).elem_ids()[j])),
    {
        self.get_mut(0)
    }

    /// An O(1) aliasing handle to the first element, without copying
    /// its value, or `None` when the list is empty.
    pub fn front_lazy(&self) -> (r: Option<Alc<T>>)
        requires
            self.wf(),
        ensures
            self@.len() > 0 ==> (r matches Some(c) && c.value() == self@[0] && c.id()
                == self.elem_ids()[0] && !c.exclusive()),
            self@.len() == 0 ==> r is None,
    {
        self.get_lazy(0)
    }

    /// A reference to the last value, or `None` when the list is empty.
    pub fn back(&self) -> (r: Option<&T>)
        ensures
            self@.len() > 0 ==> (r matches Some(v) && *v == self@.last()),
            self@.len() == 0 ==> r is None,
    {
        let backing = self.list.read();
        let n = backing.len();
        if n > 0 {
            Some(backing[n - 1].read())
        } else {
            None
        }
    }

    /// A mutable reference to the last value, or `None` when the list
    /// is empty, promoting the list cell and the last element cell as
    /// needed.
    pub fn back_mut(&mut self) -> (r: Option<&mut T>)
        requires
            old(self).wf(),
        ensures
            final(self).exclusive(),
            final(self).wf(),
            old(self).exclusive() ==> final(self).id() == old(self).id(),
            old(self)@.len() == 0 ==> (r is None && final(self)@ == old(self)@ && final(
                self).elem_ids() == old(self).elem_ids()),
            old(self)@.len() > 0 ==> (r matches Some(p) && cloned::<T>(old(self)@.last(), *p)
                && final(self)@ == old(self)@.update(old(self)@.len() - 1, *final(p)) && final(
                self).elem_ids().len() == old(self)@.len() && (forall|j: int|
                0 <= j < old(self)@.len() - 1 ==> final(self).elem_ids()[j] == old(
                    self).elem_ids()[j])),
    {
        broadcast use lemma_cells_update;

        self.promote();
        let backing = self.list.borrow_exclusive();
        let n = backing.len();
        if n > 0 {
            let slot = &mut backing[n - 1];
            Some(slot.cow_borrow())
        } else {
            None
        }
    }

    /// An O(1) aliasing handle to the last element, without copying its
    /// value, or `None` when the list is empty.
    pub fn back_lazy(&self) -> (r: Option<Alc<T>>)
        requires
            self.wf(),
        ensures
            self@.len() > 0 ==> (r matches Some(c) && c.value() == self@.last() && c.id()
                == self.elem_ids().last() && !c.exclusive()),
            self@.len() == 0 ==> r is None,
    {
        let backing = self.list.read();
        let n = backing.len();
        if n > 0 {
            proof {
                assert(!self.cells()[n - 1].exclusive());
            }
            Some(backing[n - 1].alias())
        } else {
            None
        }
    }

    /// Mutable references to every element, in order.
    ///
    /// The list cell is promoted once up front; each element cell is
    /// then promoted on its own, so elements shared with a clone of
    /// this list are copied while unshared ones are borrowed in place.
    /// Writing through the `i`-th reference sets the `i`-th element.
    pub fn iter_mut(&mut self) -> (r: Vec<&mut T>)
        requires
            old(self).wf(),
        ensures
            r@.len() == old(self)@.len(),
            forall|i: int|
                0 <= i < old(self)@.len() ==> cloned::<T>(old(self)@[i], *(#[trigger] r@[i])),
            final(self)@.len() == old(self)@.len(),
            forall|i: int|
                0 <= i < old(self)@.len() ==> final(self)@[i] == *final(#[trigger] r@[i]),
            final(self).exclusive(),
            final(self).wf(),
            old(self).exclusive() ==> final(self).id() == old(self).id(),
    {
        self.promote();
        let backing = self.list.borrow_exclusive();
        collect_mut(backing.as_mut_slice())
    }

    /// References to every element, in order.
    pub fn iter(&self) -> (r: Vec<&T>)
        ensures
            r@.len() == self@.len(),
            forall|i: int| 0 <= i < self@.len() ==> *(#[trigger] r@[i]) == self@[i],
    {
        let backing = self.list.read();
        let n = backing.len();
        let mut out: Vec<&T> = Vec::new();
        let mut i: usize = 0;
        while i < n
            invariant
                *backing == self.list.value(),
                n == backing@.len(),
                i <= n,
                out@.len() == i,
                forall|j: int| 0 <= j < i ==> *(#[trigger] out@[j]) == self@[j],
            decreases n - i,
        {
            out.push(backing[i].read());
            i += 1;
        }
        out
    }

    /// An eager clone of the list structure: the backing sequence is
    /// copied into a fresh, exclusively owned list cell.  The element
    /// values themselves stay lazily shared until they are individually
    /// written.
    pub fn eager(&self) -> (r: Self)
        requires
            self.wf(),
        ensures
            r@ == self@,
            r.elem_ids() == self.elem_ids(),
            r.id() != self.id(),
            r.exclusive(),
            r.wf(),
    {
        let backing = self.clone_backing();
        AtomicLazyList { list: self.list.renew(backing) }
    }

    /// Wraps every value of a plain vector in a fresh element cell,
    /// keeping the order.
    pub fn from_vec(values: Vec<T>) -> (r: Self)
        ensures
            r@ == values@,
            r.exclusive(),
            r.wf(),
    {
        let ghost all = values@;
        let mut values = values;
        let mut rev: Vec<Alc<T>> = Vec::new();
        while values.len() > 0
            invariant
                values@.len() + rev@.len() == all.len(),
                values@ == all.subrange(0, values@.len() as int),
                forall|j: int|
                    0 <= j < rev@.len() ==> (#[trigger] rev@[j]).value() == all[all.len() - 1 - j]
                        && !rev@[j].exclusive(),
            decreases values@.len(),
        {
            let value = values.pop().unwrap();
            let mut cell = Alc::new(value);
            cell.seal();
            rev.push(cell);
            proof {
                assert(values@ =~= all.subrange(0, values@.len() as int));
            }
        }
        let mut backing: Vec<Alc<T>> = Vec::new();
        while rev.len() > 0
            invariant
                rev@.len() + backing@.len() == all.len(),
                forall|j: int|
                    0 <= j < rev@.len() ==> (#[trigger] rev@[j]).value() == all[all.len() - 1 - j]
                        && !rev@[j].exclusive(),
                forall|j: int|
                    0 <= j < backing@.len() ==> (#[trigger] backing@[j]).value() == all[j]
                        && !backing@[j].exclusive(),
            decreases rev@.len(),
        {
            let cell = rev.pop().unwrap();
            backing.push(cell);
        }
        let r = AtomicLazyList { list: Alc::new(backing) };
        proof {
            assert(r@ =~= all);
        }
        r
    }

    /// Builds a list directly from element cells, in order.  The cells
    /// keep their allocations, so sharing set up by the caller — for
    /// instance from [`AtomicLazyList::get_lazy`] — is preserved.
    pub fn from_cells(cells: Vec<Alc<T>>) -> (r: Self)
        ensures
            r@ == values_of(cells@),
            r.elem_ids() == ids_of(cells@),
            r.exclusive(),
            r.wf(),
    {
        let mut cells = cells;
        let ghost given = cells@;
        let n = cells.len();
        let mut i: usize = 0;
        while i < n
            invariant
                n == cells@.len(),
                n == given.len(),
                i <= n,
                forall|j: int|
                    0 <= j < i ==> (#[trigger] cells@[j]).value() == given[j].value()
                        && cells@[j].id() == given[j].id() && !cells@[j].exclusive(),
                forall|j: int| i <= j < n ==> #[trigger] cells@[j] == given[j],
            decreases n - i,
        {
            let slot = &mut cells[i];
            slot.seal();
            i += 1;
        }
        let r = AtomicLazyList { list: Alc::new(cells) };
        proof {
            assert(r@ =~= values_of(given));
            assert(r.elem_ids() =~= ids_of(given));
        }
        r
    }

    /// Takes the list apart into its element cells, in order: without
    /// copying anything when the list cell turns out to be exclusively
    /// owned, and by aliasing each element cell otherwise.
    pub fn into_cells(self) -> (r: Vec<Alc<T>>)
        requires
            self.wf(),
        ensures
            values_of(r@) == self@,
            ids_of(r@) == self.elem_ids(),
            cells_ok(r@),
    {
        let mut this = self;
        this.grab()
    }

    /// Unwraps the list into a plain vector of its values, in order:
    /// each element moves out without a copy when its cell turns out to
    /// be unshared, and is deep-copied otherwise.
    pub fn into_vec(self) -> (r: Vec<T>)
        requires
            self.wf(),
        ensures
            r@.len() == self@.len(),
            forall|i: int| 0 <= i < self@.len() ==> cloned::<T>(self@[i], #[trigger] r@[i]),
            crate::lazy::clone_faithful::<T>() ==> r@ == self@,
    {
        let ghost all = self@;
        let mut this = self;
        let mut backing = this.grab();
        let mut rev: Vec<T> = Vec::new();
        while backing.len() > 0
            invariant
                backing@.len() + rev@.len() == all.len(),
                values_of(backing@) == all.subrange(0, backing@.len() as int),
                forall|j: int|
                    0 <= j < rev@.len() ==> cloned::<T>(
                        all[all.len() - 1 - j],
                        #[trigger] rev@[j],
                    ),
            decreases backing@.len(),
        {
            let ghost pre = backing@;
            let cell = backing.pop().unwrap();
            proof {
                assert(pre[pre.len() - 1].value() == values_of(pre)[pre.len() - 1]);
            }
            rev.push(cell.unwrap());
            proof {
                assert(values_of(backing@) =~= all.subrange(0, backing@.len() as int));
            }
        }
        let mut out: Vec<T> = Vec::new();
        while rev.len() > 0
            invariant
                rev@.len() + out@.len() == all.len(),
                forall|j: int|
                    0 <= j < rev@.len() ==> cloned::<T>(
                        all[all.len() - 1 - j],
                        #[trigger] rev@[j],
                    ),
                forall|j: int| 0 <= j < out@.len() ==> cloned::<T>(all[j], #[trigger] out@[j]),
            decreases rev@.len(),
        {
            let value = rev.pop().unwrap();
            out.push(value);
        }
        proof {
            if crate::lazy::clone_faithful::<T>() {
                assert(out@ =~= all);
            }
        }
        out
    }
}

impl<T: Clone> crate::lazy::LazyClone for AtomicLazyList<T> {
    open spec fn inv(&self) -> bool {
        self.wf()
    }

    fn lazy(&mut self) -> Self {
        AtomicLazyList::lazy(self)
    }

    fn eager(&self) -> Self {
        AtomicLazyList::eager(self)
    }

    fn is_mutable(&mut self) -> bool {
        AtomicLazyList::is_mutable(self)
    }
}

} // verus!
