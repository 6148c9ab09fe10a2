//! Garbage collection: reachability planning.
//!
//! Reachability is a breadth-first walk over directory objects.  The scan
//! state lives here, fully verified; the surrounding store feeds it the
//! listing of each directory it asks for, and executes the per-object
//! delete actions the plan decides.  The reachable set keeps the 256-bit
//! binary payloads, the compact form of the identifiers.

use vstd::prelude::*;

use crate::errors::ObjectStoreError;
use crate::identifier::{payload_of_text, Identifier, IdentifierBin};
use crate::identifier_kind::ObjectType;
use crate::object::{delete_method_of, object_impl_of, DeleteMethod, Object};
use crate::opath::OPath;
use crate::store::object_path;

verus! {

/// The texts of a sequence of identifiers.
pub open spec fn ids_texts(v: Seq<Identifier>) -> Seq<Seq<u8>> {
    v.map_values(|id: Identifier| id.text_spec())
}

/// The payloads of a sequence of binary identifiers.
pub open spec fn bins_view(v: Seq<IdentifierBin>) -> Seq<Seq<u8>> {
    v.map_values(|b: IdentifierBin| b.0@)
}

/// A reachability scan in progress: directories still to visit, and the
/// payloads of everything found reachable so far.
pub struct GcScan {
    to_visit: Vec<Identifier>,
    reachable: Vec<IdentifierBin>,
}

impl GcScan {
    /// The queue of directories not yet visited.
    pub closed spec fn queue_spec(&self) -> Seq<Identifier> {
        self.to_visit@
    }

    /// The texts of the queued directories.
    pub open spec fn queue_texts(&self) -> Seq<Seq<u8>> {
        ids_texts(self.queue_spec())
    }

    /// The payloads marked reachable.
    pub closed spec fn reachable_spec(&self) -> Seq<Seq<u8>> {
        bins_view(self.reachable@)
    }

    /// Whether a payload is already marked reachable.
    pub open spec fn is_reachable_spec(&self, bin: Seq<u8>) -> bool {
        self.reachable_spec().contains(bin)
    }

    /// Every queued identifier is well formed.
    pub open spec fn wf(&self) -> bool {
        forall|i: int| 0 <= i < self.queue_spec().len() ==> (#[trigger] self.queue_spec()[i]).wf()
    }

    /// An empty scan: nothing visited, nothing queued.
    pub fn new() -> (r: GcScan)
        ensures
            r.wf(),
            r.queue_spec() == Seq::<Identifier>::empty(),
            r.reachable_spec() == Seq::<Seq<u8>>::empty(),
    {
        let r = GcScan { to_visit: Vec::new(), reachable: Vec::new() };
        proof {
            assert(r.queue_spec() =~= Seq::<Identifier>::empty());
            assert(r.reachable_spec() =~= Seq::<Seq<u8>>::empty());
        }
        r
    }

    /// Queues a root to discover from.  Can be called repeatedly to scan
    /// from several roots.
    pub fn seed(&mut self, root: Identifier)
        requires
            old(self).wf(),
            root.wf(),
        ensures
            final(self).wf(),
            final(self).queue_spec() == old(self).queue_spec().push(root),
            final(self).reachable_spec() == old(self).reachable_spec(),
    {
        self.to_visit.push(root);
        proof {
            assert forall|m: int|
                0 <= m < self.queue_spec().len() implies (#[trigger] self.queue_spec()[m]).wf() by {
                if m < old(self).queue_spec().len() {
                    assert(self.queue_spec()[m] == old(self).queue_spec()[m]);
                } else {
                    assert(self.queue_spec()[m] == root);
                }
            }
        }
    }

    /// Whether this payload was already found reachable.
    pub fn is_reachable(&self, bin: &IdentifierBin) -> (r: bool)
        ensures
            r <==> self.is_reachable_spec(bin.0@),
    {
        let n = self.reachable.len();
        let mut i: usize = 0;
        while i < n
            invariant
                n == self.reachable@.len(),
                i <= n,
                forall|j: int| 0 <= j < i ==> self.reachable_spec()[j] != bin.0@,
            decreases n - i,
        {
            if crate::bytes_eq(self.reachable[i].0.as_slice(), bin.0.as_slice()) {
                proof {
                    assert(self.reachable_spec()[i as int] == bin.0@);
                }
                return true;
            }
            proof {
                assert(self.reachable_spec()[i as int] == self.reachable@[i as int].0@);
            }
            i = i + 1;
        }
        proof {
            if self.is_reachable_spec(bin.0@) {
                let j = choose|j: int|
                    0 <= j < self.reachable_spec().len() && self.reachable_spec()[j] == bin.0@;
                assert(self.reachable_spec()[j] != bin.0@);
            }
        }
        false
    }

    /// Takes the next unvisited directory off the queue, marking it
    /// reachable; directories already marked are skipped.  Nothing is
    /// left only when everything still queued was already reachable.
    pub fn next_directory(&mut self) -> (r: Option<Identifier>)
        requires
            old(self).wf(),
        ensures
            final(self).wf(),
            r is None ==> final(self).queue_spec().len() == 0 && final(self).reachable_spec()
                == old(self).reachable_spec() && forall|k: int|
                0 <= k < old(self).queue_texts().len() ==> old(self).is_reachable_spec(
                    payload_of_text(#[trigger] old(self).queue_texts()[k]),
                ),
            r matches Some(id) ==> id.wf() && exists|k: int|
                0 <= k < old(self).queue_texts().len() && id.text_spec() == old(
                    self,
                ).queue_texts()[k] && !old(self).is_reachable_spec(payload_of_text(id.text_spec()))
                    && final(self).reachable_spec() == old(self).reachable_spec().push(
                    payload_of_text(id.text_spec()),
                ) && final(self).queue_texts() == old(self).queue_texts().subrange(
                    k + 1,
                    old(self).queue_texts().len() as int,
                ),
    {
        let ghost orig_queue = self.queue_texts();
        let ghost k: int = 0;
        loop
            invariant
                self.wf(),
                self.reachable_spec() == old(self).reachable_spec(),
                0 <= k <= orig_queue.len(),
                orig_queue == old(self).queue_texts(),
                self.queue_texts() =~= orig_queue.subrange(k, orig_queue.len() as int),
                forall|j: int|
                    0 <= j < k ==> old(self).is_reachable_spec(payload_of_text(
                        #[trigger] orig_queue[j],
                    )),
            decreases self.queue_spec().len(),
        {
            if self.to_visit.len() == 0 {
                proof {
                    assert(self.queue_spec().len() == 0);
                    assert(self.queue_texts().len() == 0);
                    assert(k == orig_queue.len());
                }
                return None;
            }
            proof {
                assert(self.queue_texts().len() == self.queue_spec().len());
                assert(k < orig_queue.len());
                assert(self.queue_spec()[0].wf());
                assert(self.queue_texts()[0] == orig_queue[k]);
            }
            let ghost qb = self.queue_spec();
            let id = self.to_visit.remove(0);
            proof {
                assert(id == qb[0]);
                assert(self.queue_spec() =~= qb.subrange(1, qb.len() as int));
                assert forall|m: int| 0 <= m < self.queue_texts().len() implies self.queue_texts(
                )[m] == orig_queue.subrange(k + 1, orig_queue.len() as int)[m] by {
                    assert(self.queue_spec()[m] == qb[m + 1]);
                    assert(ids_texts(qb)[m + 1] == qb[m + 1].text_spec());
                    assert(ids_texts(qb)[m + 1] == orig_queue.subrange(k, orig_queue.len() as int)[
                        m + 1]);
                }
                assert(self.queue_texts() =~= orig_queue.subrange(k + 1, orig_queue.len() as int));
                assert(id.text_spec() == ids_texts(qb)[0]);
                assert(id.text_spec() == orig_queue[k]);
            }
            let bin = id.id_bin();
            if !self.is_reachable(&bin) {
                let ghost before = self.reachable_spec();
                self.reachable.push(bin);
                proof {
                    assert(self.reachable_spec() =~= before.push(payload_of_text(id.text_spec())));
                }
                return Some(id);
            }
            proof {
                assert(self.is_reachable_spec(payload_of_text(id.text_spec())));
                assert(old(self).is_reachable_spec(payload_of_text(orig_queue[k])));
                k = k + 1;
            }
        }
    }

    /// Notes the children listed for a visited directory: file children
    /// become reachable, unvisited directory children are queued, and any
    /// reserved kind is a fatal inconsistency.
    pub fn note_children(&mut self, children: &Vec<Identifier>) -> (r: Result<
        (),
        ObjectStoreError,
    >)
        requires
            old(self).wf(),
            forall|i: int| 0 <= i < children@.len() ==> (#[trigger] children@[i]).wf(),
        ensures
            final(self).wf(),
            forall|b: Seq<u8>|
                old(self).is_reachable_spec(b) ==> final(self).is_reachable_spec(b),
            r is Ok <==> forall|i: int|
                0 <= i < children@.len() ==> ((#[trigger] children@[i]).components_spec().0
                    == ObjectType::File || children@[i].components_spec().0
                    == ObjectType::Directory),
            r is Ok ==> forall|b: Seq<u8>|
                #[trigger] final(self).is_reachable_spec(b) <==> old(self).is_reachable_spec(b)
                    || exists|i: int|
                    0 <= i < children@.len() && (#[trigger] children@[i]).components_spec().0
                        == ObjectType::File && payload_of_text(children@[i].text_spec()) == b,
            r is Ok ==> forall|i: int|
                0 <= i < children@.len() && (#[trigger] children@[i]).components_spec().0
                    == ObjectType::Directory ==> final(self).queue_texts().contains(
                    children@[i].text_spec(),
                ) || final(self).is_reachable_spec(payload_of_text(children@[i].text_spec())),
            forall|t: Seq<u8>|
                old(self).queue_texts().contains(t) ==> final(self).queue_texts().contains(t),
            r matches Err(e) ==> e matches ObjectStoreError::UnsupportedObjectType(t)
                && (exists|i: int|
                0 <= i < children@.len() && (#[trigger] children@[i]).components_spec() == t
                    && children@[i].components_spec().0 != ObjectType::File
                    && children@[i].components_spec().0 != ObjectType::Directory),
    {
        let n = children.len();
        let mut i: usize = 0;
        while i < n
            invariant
                self.wf(),
                n == children@.len(),
                i <= n,
                forall|j: int| 0 <= j < n ==> (#[trigger] children@[j]).wf(),
                forall|j: int|
                    0 <= j < i ==> ((#[trigger] children@[j]).components_spec().0
                        == ObjectType::File || children@[j].components_spec().0
                        == ObjectType::Directory),
                forall|b: Seq<u8>|
                    #[trigger] self.is_reachable_spec(b) <==> old(self).is_reachable_spec(b)
                        || exists|j: int|
                        0 <= j < i && (#[trigger] children@[j]).components_spec().0
                            == ObjectType::File && payload_of_text(children@[j].text_spec()) == b,
                forall|j: int|
                    0 <= j < i && (#[trigger] children@[j]).components_spec().0
                        == ObjectType::Directory ==> self.queue_texts().contains(
                        children@[j].text_spec(),
                    ) || self.is_reachable_spec(payload_of_text(children@[j].text_spec())),
                forall|t: Seq<u8>|
                    old(self).queue_texts().contains(t) ==> #[trigger] self.queue_texts().contains(
                        t,
                    ),
            decreases n - i,
        {
            let ghost before = self.reachable_spec();
            let ghost qbefore = self.queue_texts();
            let ghost qsb = self.queue_spec();
            proof {
                assert forall|b: Seq<u8>| #[trigger] before.contains(b) implies (old(
                    self,
                ).is_reachable_spec(b) || exists|j: int|
                    0 <= j < i && (#[trigger] children@[j]).components_spec().0 == ObjectType::File
                        && payload_of_text(children@[j].text_spec()) == b) by {
                    assert(self.is_reachable_spec(b));
                }
                assert forall|b: Seq<u8>|
                    old(self).is_reachable_spec(b) implies #[trigger] before.contains(b) by {
                    assert(self.is_reachable_spec(b));
                }
                assert forall|j: int|
                    0 <= j < i && (#[trigger] children@[j]).components_spec().0 == ObjectType::File
                        implies before.contains(payload_of_text(children@[j].text_spec())) by {
                    assert(self.is_reachable_spec(payload_of_text(children@[j].text_spec())));
                }
                assert forall|j: int|
                    0 <= j < i && (#[trigger] children@[j]).components_spec().0
                        == ObjectType::Directory implies (qbefore.contains(children@[j].text_spec())
                        || before.contains(payload_of_text(children@[j].text_spec()))) by {
                    if self.is_reachable_spec(payload_of_text(children@[j].text_spec())) {
                        assert(before.contains(payload_of_text(children@[j].text_spec())));
                    }
                }
                assert forall|t: Seq<u8>| #[trigger] old(self).queue_texts().contains(
                    t,
                ) implies qbefore.contains(t) by {
                    assert(self.queue_texts().contains(t));
                }
            }
            let child = &children[i];
            let t = child.object_type();
            if matches!(t, ObjectType::File) {
                let bin = child.id_bin();
                let ghost p = payload_of_text(child.text_spec());
                self.reachable.push(bin);
                proof {
                    assert(self.reachable_spec() =~= before.push(p));
                    assert forall|b: Seq<u8>| #[trigger] self.is_reachable_spec(b) implies (old(
                        self,
                    ).is_reachable_spec(b) || exists|j: int|
                        0 <= j < i + 1 && (#[trigger] children@[j]).components_spec().0
                            == ObjectType::File && payload_of_text(children@[j].text_spec())
                            == b) by {
                        let m = choose|m: int|
                            0 <= m < self.reachable_spec().len() && self.reachable_spec()[m] == b;
                        if m == before.len() {
                            assert(b == p);
                            assert((children@[i as int]).components_spec().0 == ObjectType::File
                                && payload_of_text(children@[i as int].text_spec()) == b);
                        } else {
                            assert(before[m] == b);
                            assert(before.contains(b));
                        }
                    }
                    assert forall|b: Seq<u8>|
                        (old(self).is_reachable_spec(b) || exists|j: int|
                            0 <= j < i + 1 && (#[trigger] children@[j]).components_spec().0
                                == ObjectType::File && payload_of_text(children@[j].text_spec())
                                == b) implies #[trigger] self.is_reachable_spec(b) by {
                        if old(self).is_reachable_spec(b) {
                            assert(before.contains(b));
                            let m = choose|m: int| 0 <= m < before.len() && before[m] == b;
                            assert(self.reachable_spec()[m] == b);
                        } else {
                            let j = choose|j: int|
                                0 <= j < i + 1 && (#[trigger] children@[j]).components_spec().0
                                    == ObjectType::File && payload_of_text(
                                    children@[j].text_spec(),
                                ) == b;
                            if j < i {
                                assert(before.contains(b));
                                let m = choose|m: int| 0 <= m < before.len() && before[m] == b;
                                assert(self.reachable_spec()[m] == b);
                            } else {
                                assert(self.reachable_spec()[before.len() as int] == p);
                            }
                        }
                    }
                    assert forall|j: int|
                        0 <= j < i + 1 && (#[trigger] children@[j]).components_spec().0
                            == ObjectType::Directory implies self.queue_texts().contains(
                        children@[j].text_spec(),
                    ) || self.is_reachable_spec(payload_of_text(children@[j].text_spec())) by {
                        assert(j < i);
                        if qbefore.contains(children@[j].text_spec()) {
                            assert(self.queue_texts() =~= qbefore);
                        } else {
                            assert(before.contains(payload_of_text(children@[j].text_spec())));
                            let m = choose|m: int|
                                0 <= m < before.len() && before[m] == payload_of_text(
                                    children@[j].text_spec(),
                                );
                            assert(self.reachable_spec()[m] == payload_of_text(
                                children@[j].text_spec(),
                            ));
                        }
                    }
                    assert forall|x: Seq<u8>| #[trigger] old(self).queue_texts().contains(
                        x,
                    ) implies self.queue_texts().contains(x) by {
                        assert(qbefore.contains(x));
                        assert(self.queue_texts() =~= qbefore);
                    }
                }
            } else if matches!(t, ObjectType::Directory) {
                let bin = child.id_bin();
                if !self.is_reachable(&bin) {
                    let cc = child.clone();
                    self.to_visit.push(cc);
                    proof {
                        assert forall|m: int|
                            0 <= m < self.queue_spec().len() implies (#[trigger] self.queue_spec()[
                        m]).wf() by {
                            if m < qsb.len() {
                                assert(self.queue_spec()[m] == qsb[m]);
                            } else {
                                assert(self.queue_spec()[m] == self.queue_spec().last());
                            }
                        }
                        assert(self.queue_texts() =~= qbefore.push(child.text_spec()));
                        assert(self.queue_texts()[qbefore.len() as int] == child.text_spec());
                        assert forall|x: Seq<u8>| #[trigger] qbefore.contains(x) implies self
                            .queue_texts().contains(x) by {
                            let m = choose|m: int| 0 <= m < qbefore.len() && qbefore[m] == x;
                            assert(self.queue_texts()[m] == x);
                        }
                        assert forall|j: int|
                            0 <= j < i + 1 && (#[trigger] children@[j]).components_spec().0
                                == ObjectType::Directory implies self.queue_texts().contains(
                            children@[j].text_spec(),
                        ) || self.is_reachable_spec(payload_of_text(children@[j].text_spec())) by {
                            if j == i {
                                assert(self.queue_texts()[qbefore.len() as int]
                                    == children@[j].text_spec());
                            } else {
                                if qbefore.contains(children@[j].text_spec()) {
                                } else {
                                    assert(before.contains(payload_of_text(
                                        children@[j].text_spec(),
                                    )));
                                    assert(self.is_reachable_spec(payload_of_text(
                                        children@[j].text_spec(),
                                    )));
                                }
                            }
                        }
                        assert forall|b: Seq<u8>| #[trigger] self.is_reachable_spec(b) implies
                            before.contains(b) by {
                        }
                        assert forall|b: Seq<u8>| #[trigger] before.contains(b) implies self
                            .is_reachable_spec(b) by {
                        }
                    }
                } else {
                    proof {
                        assert(self.is_reachable_spec(payload_of_text(child.text_spec())));
                    }
                }
            } else {
                proof {
                    assert((children@[i as int]).components_spec().0 != ObjectType::File
                        && (children@[i as int]).components_spec().0 != ObjectType::Directory);
                }
                return Err(ObjectStoreError::UnsupportedObjectType(child.components()));
            }
            i = i + 1;
        }
        Ok(())
    }

    /// The stored objects that the scan did not reach, in their stored
    /// order: exactly those whose payload is not in the reachable set.
    pub fn unreachable_filter(&self, all: &Vec<Identifier>) -> (r: Vec<Identifier>)
        requires
            forall|i: int| 0 <= i < all@.len() ==> (#[trigger] all@[i]).wf(),
        ensures
            ids_texts(r@) == ids_texts(all@).filter(
                |t: Seq<u8>| !self.is_reachable_spec(payload_of_text(t)),
            ),
            forall|i: int| 0 <= i < r@.len() ==> (#[trigger] r@[i]).wf(),
    {
        let ghost pred = |t: Seq<u8>| !self.is_reachable_spec(payload_of_text(t));
        let n = all.len();
        let mut out: Vec<Identifier> = Vec::new();
        proof {
            assert(ids_texts(all@.subrange(0, 0)) =~= Seq::<Seq<u8>>::empty());
            reveal(Seq::filter);
            assert(ids_texts(out@) =~= ids_texts(all@.subrange(0, 0)).filter(pred));
        }
        let mut i: usize = 0;
        while i < n
            invariant
                n == all@.len(),
                i <= n,
                forall|j: int| 0 <= j < n ==> (#[trigger] all@[j]).wf(),
                ids_texts(out@) == ids_texts(all@.subrange(0, i as int)).filter(pred),
                pred == (|t: Seq<u8>| !self.is_reachable_spec(payload_of_text(t))),
                forall|j: int| 0 <= j < out@.len() ==> (#[trigger] out@[j]).wf(),
            decreases n - i,
        {
            let id = &all[i];
            let bin = id.id_bin();
            let keep = !self.is_reachable(&bin);
            proof {
                let upto = ids_texts(all@.subrange(0, i as int + 1));
                assert(upto.drop_last() =~= ids_texts(all@.subrange(0, i as int)));
                assert(upto.last() == all@[i as int].text_spec());
                reveal(Seq::filter);
                assert(keep <==> pred(all@[i as int].text_spec()));
            }
            if keep {
                let ghost before = ids_texts(out@);
                out.push(id.clone());
                proof {
                    assert(ids_texts(out@) =~= before.push(all@[i as int].text_spec()));
                    assert(ids_texts(out@) =~= ids_texts(all@.subrange(0, i as int + 1)).filter(
                        pred,
                    ));
                }
            } else {
                proof {
                    assert(ids_texts(out@) =~= ids_texts(all@.subrange(0, i as int + 1)).filter(
                        pred,
                    ));
                }
            }
            i = i + 1;
        }
        proof {
            assert(all@.subrange(0, n as int) =~= all@);
        }
        out
    }
}

/// What the store must do to dispose of one object.
pub enum DeleteAction {
    /// Remove the object's data now, atomically through the scratch
    /// area.
    RemoveRecursive(OPath),
    /// Move the object into the tombstone area for later expiry.
    Tombstone(OPath),
}

/// Decides how one unreachable object is disposed of, from its delete
/// method alone: immediate deletion removes it, expiry moves it to the
/// tombstone area, and an unknown method means the store is inconsistent.
pub fn delete_plan(object: &Object) -> (r: Result<DeleteAction, ObjectStoreError>)
    requires
        object.wf(),
    ensures
        r is Ok <==> delete_method_of(object_impl_of(object.identifier.kind_spec()))
            != DeleteMethod::Unknown,
        r matches Ok(a) ==> {
            let path = seq![
                object.identifier.text_spec().subrange(0, 2),
                object.identifier.text_spec(),
            ];
            match a {
                DeleteAction::RemoveRecursive(p) => p.components_spec() == path
                    && delete_method_of(object_impl_of(object.identifier.kind_spec()))
                    == DeleteMethod::Immediate,
                DeleteAction::Tombstone(p) => p.components_spec() == path && delete_method_of(
                    object_impl_of(object.identifier.kind_spec()),
                ) == DeleteMethod::Expire,
            }
        },
        r matches Err(e) ==> e matches ObjectStoreError::UnsupportedObjectType(t) && t
            == object.identifier.kind_spec().components_spec(),
{
    let method = object.delete_method();
    match method {
        DeleteMethod::Immediate => Ok(DeleteAction::RemoveRecursive(object_path(
            &object.identifier,
        ))),
        DeleteMethod::Expire => Ok(DeleteAction::Tombstone(object_path(&object.identifier))),
        DeleteMethod::Unknown => Err(ObjectStoreError::UnsupportedObjectType(
            object.identifier.components(),
        )),
    }
}

/// The texts of the stored objects whose payload was not reached.
pub open spec fn unreachable_texts(all: Seq<Identifier>, reachable: Seq<Seq<u8>>) -> Seq<Seq<u8>> {
    ids_texts(all).filter(|t: Seq<u8>| !reachable.contains(payload_of_text(t)))
}

/// What garbage collection keeps and removes: the unreachable list holds
/// exactly the stored objects whose payload the scan did not reach.  An
/// object marked reachable is never in the list; an object not marked is
/// always in it.
pub proof fn lemma_gc_partition(all: Seq<Identifier>, reachable: Seq<Seq<u8>>)
    ensures
        forall|k: int|
            0 <= k < unreachable_texts(all, reachable).len() ==> !reachable.contains(
                payload_of_text(#[trigger] unreachable_texts(all, reachable)[k]),
            ),
        forall|i: int|
            0 <= i < all.len() && !reachable.contains(payload_of_text(
                (#[trigger] all[i]).text_spec(),
            )) ==> unreachable_texts(all, reachable).contains(all[i].text_spec()),
{
    let pred = |t: Seq<u8>| !reachable.contains(payload_of_text(t));
    broadcast use vstd::seq_lib::group_filter_ensures;

    assert forall|k: int|
        0 <= k < unreachable_texts(all, reachable).len() implies !reachable.contains(
        payload_of_text(#[trigger] unreachable_texts(all, reachable)[k])) by {
        assert(pred(ids_texts(all).filter(pred)[k]));
    }
    assert forall|i: int|
        0 <= i < all.len() && !reachable.contains(payload_of_text(
            (#[trigger] all[i]).text_spec(),
        )) implies unreachable_texts(all, reachable).contains(all[i].text_spec()) by {
        assert(ids_texts(all)[i] == all[i].text_spec());
        assert(pred(ids_texts(all)[i]));
        assert(ids_texts(all).filter(pred).contains(ids_texts(all)[i]));
    }
}

} // verus!
