//! The bookkeeping of a walk that visits every tree of one level before it descends:
//! which trees wait to be walked, and what each answer of the watcher does to them.
//!
//! The walk itself needs a store of objects to look trees up. The one who has the
//! store shows the entries of a tree with `visit_entries`, asks `next_tree` for the
//! tree to look up next, and goes on until there is none.

use std::collections::VecDeque;
use gix_error::Error as Failure;
use gix_hash::ObjectId;
use vstd::prelude::*;
use crate::traverse::{Action, Entry, Visit};

verus! {

/// Why a walk ended early.
#[derive(Debug)]
pub enum Error {
    /// A tree that an entry stands for was not found.
    Find(Failure),
    /// The watcher ended the walk.
    Cancelled,
    /// The bytes of a tree could not be read as entries.
    ObjectDecode(Failure),
}

/// What a walk keeps between its steps. It can be used for one walk after another.
#[derive(Clone, Default)]
pub struct State {
    /// The trees that wait to be walked, the one that waits longest first.
    pub next: VecDeque<ObjectId>,
    /// Room for the bytes of the tree that is being walked.
    pub buf: Vec<u8>,
}

/// Whether `oid` is what one of `entries` that is a tree stands for.
pub open spec fn is_tree_among(entries: Seq<Entry>, oid: ObjectId) -> bool {
    exists|j: int| 0 <= j < entries.len() && #[trigger] entries[j].is_tree() && entries[j].oid == oid
}

impl State {
    /// The trees that wait to be walked, the one that waits longest first.
    pub open spec fn waiting(&self) -> Seq<ObjectId> {
        self.next@
    }

    /// A state in which no tree waits.
    pub fn new() -> (r: State)
        ensures
            r.waiting().len() == 0,
            r.buf@.len() == 0,
    {
        State { next: VecDeque::new(), buf: Vec::new() }
    }

    /// Forgets the trees that wait and empties the buffer.
    pub fn clear(&mut self)
        ensures
            final(self).waiting().len() == 0,
            final(self).buf@.len() == 0,
    {
        self.next = VecDeque::new();
        self.buf.clear();
    }

    /// What the answer `action` to the tree entry `entry` does: after `Continue` the
    /// tree waits to be walked, behind all that wait already, and `true` is
    /// returned; after `Skip` nothing changes; after `Cancel` the walk ends.
    pub fn after_tree(&mut self, entry: &Entry, action: Action) -> (r: Result<bool, Error>)
        ensures
            final(self).buf == old(self).buf,
            match action {
                Action::Continue => r matches Ok(true) && final(self).waiting() == old(self).waiting().push(entry.oid),
                Action::Skip => r matches Ok(false) && final(self).waiting() == old(self).waiting(),
                Action::Cancel => r matches Err(Error::Cancelled) && final(self).waiting() == old(self).waiting(),
            },
    {
        match action {
            Action::Skip => Ok(false),
            Action::Continue => {
                self.next.push_back(entry.oid);
                Ok(true)
            },
            Action::Cancel => Err(Error::Cancelled),
        }
    }

    /// Shows `entry` to `delegate` and does what it answers.
    ///
    /// The delegate is first told the name of the entry with `push_path_component`
    /// and is then shown the entry, with `visit_tree` if it is a tree and with
    /// `visit_nontree` if it is not. If it answers `Cancel`, the walk ends with an
    /// error and the delegate is asked nothing more. Else the name is taken off the
    /// path again with `pop_path_component`, which is the last that the delegate
    /// hears of the entry, but for a tree that it wants walked: for that the
    /// delegate is told, between two calls of `pop_path_component`, to track the
    /// name with `push_back_tracked_path_component`, and the tree waits behind all
    /// that wait already.
    ///
    /// Each call finds the delegate as the call before it left it.
    pub fn visit_entry<V: Visit>(&mut self, entry: &Entry, delegate: &mut V) -> (r: Result<(), Error>)
        ensures
            final(self).buf == old(self).buf,
            final(self).waiting() == old(self).waiting() || (entry.is_tree() && r is Ok && final(self).waiting() == old(self).waiting().push(entry.oid)),
            r matches Err(e) ==> e is Cancelled,
            entry.is_tree() ==> exists|named: &mut V, name: &[u8], shown: &mut V, action: Action|
                {
                    &&& name@ == entry.filename@
                    &&& mut_ref_current(named) == *old(delegate)
                    &&& #[trigger] call_ensures(V::push_path_component, (named, name), ())
                    &&& mut_ref_current(shown) == mut_ref_future(named)
                    &&& #[trigger] call_ensures(V::visit_tree, (shown, entry), action)
                    &&& match action {
                        Action::Cancel => {
                            &&& r matches Err(Error::Cancelled)
                            &&& final(self).waiting() == old(self).waiting()
                            &&& *final(delegate) == mut_ref_future(shown)
                        },
                        Action::Skip => {
                            &&& r is Ok
                            &&& final(self).waiting() == old(self).waiting()
                            &&& exists|popped: &mut V|
                                {
                                    &&& mut_ref_current(popped) == mut_ref_future(shown)
                                    &&& #[trigger] call_ensures(V::pop_path_component, (popped,), ())
                                    &&& *final(delegate) == mut_ref_future(popped)
                                }
                        },
                        Action::Continue => {
                            &&& r is Ok
                            &&& final(self).waiting() == old(self).waiting().push(entry.oid)
                            &&& exists|popped: &mut V, tracked_name: &[u8], noted: &mut V, left: &mut V|
                                {
                                    &&& mut_ref_current(popped) == mut_ref_future(shown)
                                    &&& #[trigger] call_ensures(V::pop_path_component, (popped,), ())
                                    &&& tracked_name@ == entry.filename@
                                    &&& mut_ref_current(noted) == mut_ref_future(popped)
                                    &&& #[trigger] call_ensures(
                                        V::push_back_tracked_path_component,
                                        (noted, tracked_name),
                                        (),
                                    )
                                    &&& mut_ref_current(left) == mut_ref_future(noted)
                                    &&& #[trigger] call_ensures(V::pop_path_component, (left,), ())
                                    &&& *final(delegate) == mut_ref_future(left)
                                }
                        },
                    }
                },
            !entry.is_tree() ==> exists|named: &mut V, name: &[u8], shown: &mut V, action: Action|
                {
                    &&& name@ == entry.filename@
                    &&& mut_ref_current(named) == *old(delegate)
                    &&& #[trigger] call_ensures(V::push_path_component, (named, name), ())
                    &&& mut_ref_current(shown) == mut_ref_future(named)
                    &&& #[trigger] call_ensures(V::visit_nontree, (shown, entry), action)
                    &&& final(self).waiting() == old(self).waiting()
                    &&& if action == Action::Cancel {
                        &&& r matches Err(Error::Cancelled)
                        &&& *final(delegate) == mut_ref_future(shown)
                    } else {
                        &&& r is Ok
                        &&& exists|popped: &mut V|
                            {
                                &&& mut_ref_current(popped) == mut_ref_future(shown)
                                &&& #[trigger] call_ensures(V::pop_path_component, (popped,), ())
                                &&& *final(delegate) == mut_ref_future(popped)
                            }
                    }
                },
    {
        if entry.is_tree() {
            delegate.push_path_component(entry.filename.as_slice());
            let action = delegate.visit_tree(entry);
            if self.after_tree(entry, action)? {
                delegate.pop_path_component();
                delegate.push_back_tracked_path_component(entry.filename.as_slice());
            }
        } else {
            delegate.push_path_component(entry.filename.as_slice());
            if delegate.visit_nontree(entry).cancelled() {
                return Err(Error::Cancelled);
            }
        }
        delegate.pop_path_component();
        Ok(())
    }

    /// Shows the entries of one tree to `delegate`, in their order. `failure` is what
    /// ended the reading of the tree after these entries, if something did; it is
    /// returned once the entries were shown. The walk ends at the first entry at
    /// which the delegate cancels.
    ///
    /// Whatever the delegate answers, the trees that waited still wait, in their
    /// order, and each tree behind them is an entry of this tree. Without entries
    /// the delegate is not asked, and only `failure` decides.
    pub fn visit_entries<V: Visit>(
        &mut self,
        entries: &[Entry],
        failure: Option<Failure>,
        delegate: &mut V,
    ) -> (r: Result<(), Error>)
        ensures
            final(self).buf == old(self).buf,
            old(self).waiting().len() <= final(self).waiting().len() <= old(self).waiting().len()
                + entries@.len(),
            final(self).waiting().subrange(0, old(self).waiting().len() as int) == old(self).waiting(),
            forall|k: int|
                old(self).waiting().len() <= k < final(self).waiting().len() ==> is_tree_among(
                    entries@,
                    #[trigger] final(self).waiting()[k],
                ),
            r is Ok ==> failure is None,
            r matches Err(e) ==> e is Cancelled || (e matches Error::ObjectDecode(f) && failure
                == Some(f)),
            entries@.len() == 0 ==> !(r matches Err(Error::Cancelled)),
    {
        let ghost before = self.waiting();
        let mut i: usize = 0;
        assert(self.waiting().subrange(0, before.len() as int) =~= before);
        while i < entries.len()
            invariant
                i <= entries@.len(),
                self.buf == old(self).buf,
                before == old(self).waiting(),
                before.len() <= self.waiting().len() <= before.len() + i,
                self.waiting().subrange(0, before.len() as int) == before,
                forall|k: int|
                    before.len() <= k < self.waiting().len() ==> is_tree_among(
                        entries@,
                        #[trigger] self.waiting()[k],
                    ),
            decreases entries@.len() - i,
        {
            let ghost queue = self.waiting();
            let shown = self.visit_entry(&entries[i], delegate);
            proof {
                assert(self.waiting().subrange(0, before.len() as int) =~= before);
                assert forall|k: int| before.len() <= k < self.waiting().len() implies is_tree_among(
                    entries@,
                    #[trigger] self.waiting()[k],
                ) by {
                    if k < queue.len() {
                        assert(self.waiting()[k] == queue[k]);
                    } else {
                        assert(entries@[i as int].is_tree() && entries@[i as int].oid
                            == self.waiting()[k]);
                    }
                }
            }
            if shown.is_err() {
                return shown;
            }
            i += 1;
        }
        match failure {
            Some(f) => Err(Error::ObjectDecode(f)),
            None => Ok(()),
        }
    }

    /// Takes the tree that waits longest, for it to be looked up and walked next, and
    /// tells `delegate` that the path tracked for it is now the current one. Where no
    /// tree waits, the walk is done.
    pub fn next_tree<V: Visit>(&mut self, delegate: &mut V) -> (r: Option<ObjectId>)
        ensures
            final(self).buf == old(self).buf,
            match r {
                Some(oid) => old(self).waiting().len() > 0 && oid == old(self).waiting()[0] && final(self).waiting() == old(self).waiting().subrange(1, old(self).waiting().len() as int),
                None => old(self).waiting().len() == 0 && final(self).waiting().len() == 0,
            },
    {
        match self.next.pop_front() {
            Some(oid) => {
                delegate.pop_front_tracked_path_and_set_current();
                Some(oid)
            },
            None => None,
        }
    }
}

/// One round of the walk: shows the entries of the tree that was looked up last to
/// `delegate`, as `State::visit_entries` does, and then takes the tree that is to be
/// looked up next, as `State::next_tree` does. The walk is done when there is none.
///
/// The tree that comes next is the one that waited longest, or the first entry of
/// this tree that the delegate wants walked where none waited. The trees that waited
/// behind it keep their order.
pub fn breadthfirst<V: Visit>(
    entries: &[Entry],
    failure: Option<Failure>,
    state: &mut State,
    delegate: &mut V,
) -> (r: Result<Option<ObjectId>, Error>)
    ensures
        final(state).buf == old(state).buf,
        r is Ok ==> failure is None,
        r matches Err(e) ==> e is Cancelled || (e matches Error::ObjectDecode(f) && failure == Some(
            f,
        )),
        entries@.len() == 0 ==> !(r matches Err(Error::Cancelled)),
        r matches Ok(None) ==> old(state).waiting().len() == 0 && final(state).waiting().len() == 0,
        r matches Ok(Some(oid)) ==> {
            &&& if old(state).waiting().len() > 0 {
                oid == old(state).waiting()[0]
            } else {
                is_tree_among(entries@, oid)
            }
            &&& final(state).waiting().len() + 1 >= old(state).waiting().len()
            &&& forall|k: int|
                0 <= k < final(state).waiting().len() ==> if k + 1 < old(state).waiting().len() {
                    #[trigger] final(state).waiting()[k] == old(state).waiting()[k + 1]
                } else {
                    is_tree_among(entries@, final(state).waiting()[k])
                }
        },
{
    let ghost before = state.waiting();
    state.visit_entries(entries, failure, delegate)?;
    let ghost shown = state.waiting();
    let next = state.next_tree(delegate);
    proof {
        assert forall|k: int| 0 <= k < state.waiting().len() implies if k + 1 < before.len() {
            #[trigger] state.waiting()[k] == before[k + 1]
        } else {
            is_tree_among(entries@, state.waiting()[k])
        } by {
            assert(state.waiting()[k] == shown[k + 1]);
            if k + 1 < before.len() {
                assert(shown.subrange(0, before.len() as int)[k + 1] == before[k + 1]);
            }
        }
        if before.len() > 0 {
            assert(shown.subrange(0, before.len() as int)[0] == before[0]);
        }
    }
    Ok(next)
}

} // verus!
