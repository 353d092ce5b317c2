//! The world: a box, the items in it, and the pointer drag on one of them.
use vstd::prelude::*;
use glam::Vec2;
use crate::schedule::{Cell, Step, cells_of, derivative_schedule, pass_steps, state_cells};

verus! {

/// An active drag: item `item` is pulled so that the body-local point
/// `anchor` moves toward the world point `target`.
#[derive(Clone, Copy, Debug)]
pub struct Drag {
    pub item: usize,
    pub target: Vec2,
    pub anchor: Vec2,
}

/// A drag grabbed at `pos`, given for each item the body-local anchor of
/// `pos` if `pos` lies within the item's pick radius: `r` is absent exactly
/// when no item is hit, and otherwise names the first item hit, with its
/// anchor and `pos` as target.
pub open spec fn is_first_grab(anchors: Seq<Option<Vec2>>, pos: Vec2, r: Option<Drag>) -> bool {
    match r {
        None => forall|i: int| 0 <= i < anchors.len() ==> anchors[i] is None,
        Some(d) => {
            &&& d.item < anchors.len()
            &&& anchors[d.item as int] == Some(d.anchor)
            &&& d.target == pos
            &&& forall|j: int| 0 <= j < d.item ==> anchors[j] is None
        },
    }
}

/// The drag after the pointer moved to `pos`: only the target changes, and
/// no drag stays no drag.
pub open spec fn moved(drag: Option<Drag>, pos: Vec2) -> Option<Drag> {
    match drag {
        Some(d) => Some(Drag { item: d.item, target: pos, anchor: d.anchor }),
        None => None,
    }
}

/// The index of the dragged item, if any.
pub open spec fn dragged(drag: Option<Drag>) -> Option<usize> {
    match drag {
        Some(d) => Some(d.item),
        None => None,
    }
}

/// A box of half-size `size` holding an ordered sequence of items of type
/// `T`, addressed by index, with an optional drag on one of them.
pub struct World<T> {
    size: Vec2,
    items: Vec<T>,
    drag: Option<Drag>,
}

impl<T> World<T> {
    /// Half of the box's sides.
    pub closed spec fn box_size(&self) -> Vec2 {
        self.size
    }

    /// The items, in storage order.
    pub closed spec fn item_seq(&self) -> Seq<T> {
        self.items@
    }

    /// The drag state.
    pub closed spec fn drag_state(&self) -> Option<Drag> {
        self.drag
    }

    /// A drag, when present, refers to a live item.
    pub open spec fn wf(&self) -> bool {
        match self.drag_state() {
            Some(d) => d.item < self.item_seq().len(),
            None => true,
        }
    }

    /// An empty box of half-size `size`.
    pub fn new(size: Vec2) -> (r: Self)
        ensures
            r.wf(),
            r.box_size() == size,
            r.item_seq() == Seq::<T>::empty(),
            r.drag_state() is None,
    {
        World { size, items: Vec::new(), drag: None }
    }

    /// Half of the box's sides.
    pub fn size(&self) -> (r: Vec2)
        ensures
            r == self.box_size(),
    {
        self.size
    }

    /// Grabs the first item, in storage order, whose pick radius holds `pos`.
    /// `anchors[i]` is `pos` in the local frame of item `i` when item `i` is
    /// hit, and absent otherwise. With no item hit there is no drag.
    pub fn drag_acquire(&mut self, pos: Vec2, anchors: &Vec<Option<Vec2>>)
        requires
            old(self).wf(),
            anchors@.len() == old(self).item_seq().len(),
        ensures
            final(self).wf(),
            is_first_grab(anchors@, pos, final(self).drag_state()),
            final(self).item_seq() == old(self).item_seq(),
            final(self).box_size() == old(self).box_size(),
    {
        let mut i: usize = 0;
        while i < anchors.len()
            invariant
                i <= anchors@.len(),
                anchors@.len() == self.items@.len(),
                self.items@ == old(self).items@,
                self.size == old(self).size,
                forall|j: int| 0 <= j < i ==> anchors@[j] is None,
            decreases anchors@.len() - i,
        {
            match anchors[i] {
                Some(anchor) => {
                    self.drag = Some(Drag { item: i, target: pos, anchor });
                    return;
                },
                None => {},
            }
            i = i + 1;
        }
        self.drag = None;
    }

    /// Moves the drag target to `pos`; without a drag nothing changes.
    pub fn drag_move(&mut self, pos: Vec2)
        requires
            old(self).wf(),
        ensures
            final(self).wf(),
            final(self).drag_state() == moved(old(self).drag_state(), pos),
            final(self).item_seq() == old(self).item_seq(),
            final(self).box_size() == old(self).box_size(),
    {
        match self.drag {
            Some(d) => {
                self.drag = Some(Drag { item: d.item, target: pos, anchor: d.anchor });
            },
            None => {},
        }
    }

    /// Ends any drag.
    pub fn drag_release(&mut self)
        requires
            old(self).wf(),
        ensures
            final(self).wf(),
            final(self).drag_state() is None,
            final(self).item_seq() == old(self).item_seq(),
            final(self).box_size() == old(self).box_size(),
    {
        self.drag = None;
    }

    /// Whether an item is being dragged.
    pub fn is_dragging(&self) -> (r: bool)
        ensures
            r == self.drag_state() is Some,
    {
        self.drag.is_some()
    }

    /// The drag state.
    pub fn drag(&self) -> (r: Option<Drag>)
        ensures
            r == self.drag_state(),
    {
        self.drag
    }

    /// The number of items.
    pub fn n_items(&self) -> (r: usize)
        ensures
            r == self.item_seq().len(),
    {
        self.items.len()
    }

    /// Takes item `i` out of the box; the items after it move down by one.
    /// Any drag ends, so no drag can outlive its item.
    pub fn remove_item(&mut self, i: usize) -> (r: T)
        requires
            old(self).wf(),
            i < old(self).item_seq().len(),
        ensures
            final(self).wf(),
            r == old(self).item_seq()[i as int],
            final(self).item_seq() == old(self).item_seq().remove(i as int),
            final(self).drag_state() is None,
            final(self).box_size() == old(self).box_size(),
    {
        self.drag = None;
        self.items.remove(i)
    }

    /// Adds an item after the others.
    pub fn insert_item(&mut self, item: T)
        requires
            old(self).wf(),
        ensures
            final(self).wf(),
            final(self).item_seq() == old(self).item_seq().push(item),
            final(self).drag_state() == old(self).drag_state(),
            final(self).box_size() == old(self).box_size(),
    {
        self.items.push(item);
    }

    /// Changes the box's half-size; the items and the drag stay.
    pub fn resize(&mut self, size: Vec2)
        requires
            old(self).wf(),
        ensures
            final(self).wf(),
            final(self).box_size() == size,
            final(self).item_seq() == old(self).item_seq(),
            final(self).drag_state() == old(self).drag_state(),
    {
        self.size = size;
    }

    /// The items, in storage order.
    pub fn items(&self) -> (r: &[T])
        ensures
            r@ == self.item_seq(),
    {
        self.items.as_slice()
    }

    /// The items, for updating their state in place. Their number cannot
    /// change through the slice, so a drag stays valid.
    pub fn items_mut(&mut self) -> (r: &mut [T])
        requires
            old(self).wf(),
        ensures
            r@ == old(self).item_seq(),
            final(self).item_seq() == final(r)@,
            final(self).drag_state() == old(self).drag_state(),
            final(self).box_size() == old(self).box_size(),
    {
        self.items.as_mut_slice()
    }

    /// The schedule of one derivative pass over the current items and drag.
    pub fn derivative_steps(&self) -> (r: Vec<Step>)
        ensures
            r@ == pass_steps(self.item_seq().len(), dragged(self.drag_state())),
    {
        let drag = match self.drag {
            Some(d) => Some(d.item),
            None => None,
        };
        derivative_schedule(self.items.len(), drag)
    }

    /// The state cells of the items, in item order.
    pub fn state_cells(&self) -> (r: Vec<(usize, Cell)>)
        ensures
            r@ == cells_of(self.item_seq().len()),
    {
        state_cells(self.items.len())
    }
}

/// A grab that hits no item leaves no drag, and moving the pointer
/// afterwards still leaves none.
pub proof fn lemma_missed_grab(anchors: Seq<Option<Vec2>>, pos: Vec2, r: Option<Drag>, next: Vec2)
    requires
        forall|i: int| 0 <= i < anchors.len() ==> anchors[i] is None,
        is_first_grab(anchors, pos, r),
    ensures
        r is None,
        moved(r, next) is None,
{
    match r {
        Some(d) => {
            assert(anchors[d.item as int] is None);
        },
        None => {},
    }
}

} // verus!
