//! At most one reconciliation of a pod at a time.
//!
//! A pod is known by its namespace and its name, not by its identity: a pod
//! that was made again under the same name must not touch containers while the
//! earlier one is still being worked on.

use vstd::prelude::*;

use crate::text;

verus! {

/// The pods that are being worked on.
#[derive(Debug, Default)]
pub struct SyncLocks {
    held: Vec<String>,
}

/// The right to work on a pod. It is given back by [`SyncLocks::release`].
#[derive(Debug)]
pub struct SyncLockGuard {
    key: String,
}

impl View for SyncLockGuard {
    type V = Seq<char>;

    closed spec fn view(&self) -> Seq<char> {
        self.key@
    }
}

impl View for SyncLocks {
    type V = Set<Seq<char>>;

    closed spec fn view(&self) -> Set<Seq<char>> {
        text::strs(self.held@).to_set()
    }
}

impl SyncLocks {
    /// Nothing is held twice.
    pub closed spec fn wf(self) -> bool {
        text::strs(self.held@).no_duplicates()
    }

    /// Nothing is being worked on.
    pub fn new() -> (r: Self)
        ensures
            r.wf(),
            r@ == Set::<Seq<char>>::empty(),
    {
        let r = SyncLocks { held: Vec::new() };
        assert(r@ =~= Set::<Seq<char>>::empty());
        r
    }

    /// Takes the right to work on a pod. `None` where somebody has it: the
    /// caller leaves the pod alone, and a later reconciliation tries again.
    pub fn try_acquire(&mut self, key: &str) -> (r: Option<SyncLockGuard>)
        requires
            old(self).wf(),
        ensures
            final(self).wf(),
            r is Some <==> !old(self)@.contains(key@),
            r is Some ==> r->0@ == key@,
            final(self)@ == old(self)@.insert(key@),
    {
        let ghost before = text::strs(self.held@);
        if text::list_contains(&self.held, key) {
            assert(self@.insert(key@) =~= self@);
            return None;
        }
        text::push_text(&mut self.held, key.to_owned());
        proof {
            let after = text::strs(self.held@);
            assert forall|i: int, j: int|
                0 <= i < after.len() && 0 <= j < after.len() && i != j implies after[i]
                != after[j] by {
                if i == after.len() - 1 {
                    assert(after[j] == before[j]);
                } else {
                    assert(after[i] == before[i]);
                }
            }
            assert(after.to_set() =~= before.to_set().insert(key@)) by {
                assert forall|k: Seq<char>| after.to_set().contains(k) == before.to_set().insert(
                    key@,
                ).contains(k) by {
                    if after.contains(k) {
                        let i = choose|i: int| 0 <= i < after.len() && after[i] == k;
                        if i < before.len() {
                            assert(before[i] == k);
                        }
                    }
                    if before.contains(k) {
                        let i = choose|i: int| 0 <= i < before.len() && before[i] == k;
                        assert(after[i] == k);
                    }
                    assert(after[after.len() - 1] == key@);
                }
            }
        }
        Some(SyncLockGuard { key: key.to_owned() })
    }

    /// Whether somebody works on a pod.
    pub fn is_held(&self, key: &str) -> (r: bool)
        ensures
            r == self@.contains(key@),
    {
        text::list_contains(&self.held, key)
    }

    /// Gives the right to work on a pod back.
    pub fn release(&mut self, guard: SyncLockGuard)
        requires
            old(self).wf(),
        ensures
            final(self).wf(),
            final(self)@ == old(self)@.remove(guard@),
    {
        let ghost before = text::strs(self.held@);
        let mut i: usize = 0;
        while i < self.held.len()
            invariant
                i <= self.held@.len(),
                self.held@ == old(self).held@,
                before == text::strs(self.held@),
                before.no_duplicates(),
                forall|j: int| 0 <= j < i ==> before[j] != guard.key@,
            decreases self.held@.len() - i,
        {
            assert(before[i as int] == self.held@[i as int]@);
            if text::same_text(self.held[i].as_str(), guard.key.as_str()) {
                self.held.remove(i);
                proof {
                    let after = text::strs(self.held@);
                    assert(after =~= before.remove(i as int));
                    assert forall|a: int, b: int|
                        0 <= a < after.len() && 0 <= b < after.len() && a != b implies after[a]
                        != after[b] by {
                        let x = if a < i {
                            a
                        } else {
                            a + 1
                        };
                        let y = if b < i {
                            b
                        } else {
                            b + 1
                        };
                        assert(after[a] == before[x]);
                        assert(after[b] == before[y]);
                    }
                    assert forall|k: Seq<char>| after.to_set().contains(k)
                        == before.to_set().remove(guard@).contains(k) by {
                        if after.contains(k) {
                            let a = choose|a: int| 0 <= a < after.len() && after[a] == k;
                            let x = if a < i {
                                a
                            } else {
                                a + 1
                            };
                            assert(before[x] == k);
                        }
                        if before.contains(k) && k != guard@ {
                            let x = choose|x: int| 0 <= x < before.len() && before[x] == k;
                            let a = if x < i {
                                x
                            } else {
                                x - 1
                            };
                            assert(after[a] == k);
                        }
                    }
                    assert(self@ =~= old(self)@.remove(guard@));
                }
                return ;
            }
            i = i + 1;
        }
        assert(self@ =~= old(self)@.remove(guard@)) by {
            assert(!before.contains(guard@));
        }
    }
}

/// A pod that is taken cannot be taken again before it is given back; giving it
/// back undoes the taking, and leaves every other pod as it was.
pub proof fn law_release_undoes_acquire(held: Set<Seq<char>>, key: Seq<char>, other: Seq<char>)
    requires
        !held.contains(key),
        other != key,
    ensures
        held.insert(key).contains(key),
        held.insert(key).remove(key) == held,
        held.insert(key).contains(other) == held.contains(other),
{
    assert(held.insert(key).remove(key) =~= held);
}

} // verus!
