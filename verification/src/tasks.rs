//! Tasks that run once per key: a second request for a key whose task is still
//! running joins that task instead of starting another.
use vstd::prelude::*;
use crate::ingest::item_views;
use crate::text::str_eq;

verus! {

/// The keys whose tasks are running.
pub struct TaskRegistry {
    pending: Vec<String>,
}

impl View for TaskRegistry {
    type V = Set<Seq<char>>;

    closed spec fn view(&self) -> Set<Seq<char>> {
        item_views(self.pending@).to_set()
    }
}

impl TaskRegistry {
    /// Each key is held once.
    pub closed spec fn wf(&self) -> bool {
        item_views(self.pending@).no_duplicates()
    }

    pub fn new() -> (r: TaskRegistry)
        ensures
            r.wf(),
            r@ == Set::<Seq<char>>::empty(),
    {
        let r = TaskRegistry { pending: Vec::new() };
        assert(item_views(r.pending@) =~= Seq::<Seq<char>>::empty());
        assert(r@ =~= Set::<Seq<char>>::empty());
        r
    }

    fn find(&self, key: &str) -> (r: Option<usize>)
        ensures
            match r {
                Some(i) => i < self.pending@.len() && self.pending@[i as int]@ == key@,
                None => !item_views(self.pending@).contains(key@),
            },
    {
        let mut i: usize = 0;
        while i < self.pending.len()
            invariant
                i <= self.pending@.len(),
                forall|j: int| 0 <= j < i ==> (#[trigger] self.pending@[j])@ != key@,
            decreases self.pending@.len() - i,
        {
            if str_eq(self.pending[i].as_str(), key) {
                return Some(i);
            }
            i = i + 1;
        }
        assert(!item_views(self.pending@).contains(key@)) by {
            if item_views(self.pending@).contains(key@) {
                let w = choose|w: int| 0 <= w < self.pending@.len() && item_views(self.pending@)[w] == key@;
                assert(self.pending@[w]@ == key@);
            }
        }
        None
    }

    /// Whether the task of `key` is running.
    pub fn has_pending(&self, key: &str) -> (r: bool)
        ensures
            r == self@.contains(key@),
    {
        match self.find(key) {
            Some(i) => {
                assert(item_views(self.pending@)[i as int] == key@);
                true
            },
            None => false,
        }
    }

    /// Asks to run the task of `key`: starts it (`true`) unless it is running, in
    /// which case the caller joins it (`false`). Either way it is running afterwards.
    pub fn begin(&mut self, key: &str) -> (started: bool)
        requires
            old(self).wf(),
        ensures
            final(self).wf(),
            started == !old(self)@.contains(key@),
            final(self)@ == old(self)@.insert(key@),
    {
        match self.find(key) {
            Some(i) => {
                assert(item_views(self.pending@)[i as int] == key@);
                assert(self@.insert(key@) =~= self@);
                false
            },
            None => {
                let ghost before = item_views(self.pending@);
                self.pending.push(crate::text::owned(key));
                assert(item_views(self.pending@) =~= before.push(key@));
                assert(self@ =~= before.to_set().insert(key@)) by {
                    assert forall|x: Seq<char>| #[trigger] before.push(key@).to_set().contains(x) <==> before.to_set().insert(
                        key@,
                    ).contains(x) by {
                        if before.push(key@).contains(x) {
                            let w = choose|w: int| 0 <= w < before.push(key@).len() && before.push(key@)[w] == x;
                            if w < before.len() {
                                assert(before[w] == x);
                            }
                        }
                        if before.contains(x) {
                            let w = choose|w: int| 0 <= w < before.len() && before[w] == x;
                            assert(before.push(key@)[w] == x);
                        }
                        if x == key@ {
                            assert(before.push(key@)[before.len() as int] == x);
                        }
                    }
                }
                assert(item_views(self.pending@).no_duplicates()) by {
                    assert forall|a: int, b: int|
                        0 <= a < item_views(self.pending@).len() && 0 <= b < item_views(self.pending@).len()
                            && a != b implies item_views(self.pending@)[a] != item_views(self.pending@)[b] by {
                        if a == before.len() as int {
                            assert(before[b] == item_views(self.pending@)[b]);
                        } else if b == before.len() as int {
                            assert(before[a] == item_views(self.pending@)[a]);
                        }
                    }
                }
                true
            },
        }
    }

    /// The task of `key` has ended: it no longer runs.
    pub fn finish(&mut self, key: &str)
        requires
            old(self).wf(),
        ensures
            final(self).wf(),
            final(self)@ == old(self)@.remove(key@),
    {
        match self.find(key) {
            Some(i) => {
                let ghost before = item_views(self.pending@);
                self.pending.remove(i);
                assert(item_views(self.pending@) =~= before.remove(i as int));
                assert(self@ =~= before.to_set().remove(key@)) by {
                    assert forall|x: Seq<char>| #[trigger] before.remove(i as int).to_set().contains(x)
                        <==> before.to_set().remove(key@).contains(x) by {
                        assert(before[i as int] == key@);
                        assert(before.no_duplicates());
                        if before.remove(i as int).contains(x) {
                            let w = choose|w: int| 0 <= w < before.remove(i as int).len() && before.remove(i as int)[w] == x;
                            if w < i {
                                assert(before[w] == x);
                                assert(before[w] != before[i as int]);
                            } else {
                                assert(before[w + 1] == x);
                                assert(before[w + 1] != before[i as int]);
                            }
                        }
                        if before.contains(x) && x != key@ {
                            let w = choose|w: int| 0 <= w < before.len() && before[w] == x;
                            assert(w != i);
                            if w < i {
                                assert(before.remove(i as int)[w] == x);
                            } else {
                                assert(before.remove(i as int)[w - 1] == x);
                            }
                        }
                    }
                }
                assert(item_views(self.pending@).no_duplicates()) by {
                    assert forall|a: int, b: int|
                        0 <= a < before.remove(i as int).len() && 0 <= b < before.remove(i as int).len() && a != b implies
                        before.remove(i as int)[a] != before.remove(i as int)[b] by {
                        let a2 = if a < i { a } else { a + 1 };
                        let b2 = if b < i { b } else { b + 1 };
                        assert(before.remove(i as int)[a] == before[a2]);
                        assert(before.remove(i as int)[b] == before[b2]);
                    }
                }
            },
            None => {
                assert(self@.remove(key@) =~= self@);
            },
        }
    }
}

} // verus!
