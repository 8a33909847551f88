//! The stages that a binary can run, by name.

use crate::text::same_text;
use vstd::prelude::*;

verus! {

/// Stages by name. A name stands for at most one stage: registering a
/// second stage under a name replaces the first.
pub struct StageRegistry<T> {
    entries: Vec<(String, T)>,
}

impl<T> StageRegistry<T> {
    /// The invariant of the type: no name is registered twice.
    pub closed spec fn wf(&self) -> bool {
        forall|i: int, j: int|
            0 <= i < j < self.entries@.len() ==> (#[trigger] self.entries@[i]).0@ != (
            #[trigger] self.entries@[j]).0@
    }

    /// The registered names, in the order in which they were first
    /// registered.
    pub closed spec fn names(&self) -> Seq<Seq<char>> {
        self.entries@.map_values(|e: (String, T)| e.0@)
    }

    /// The registered stages, each at the index of its name.
    pub closed spec fn stages(&self) -> Seq<T> {
        self.entries@.map_values(|e: (String, T)| e.1)
    }

    /// Whether a stage is registered under `name`.
    pub open spec fn contains(&self, name: Seq<char>) -> bool {
        self.names().contains(name)
    }

    /// The stage registered under `name`, where there is one.
    pub open spec fn stage_of(&self, name: Seq<char>) -> T {
        self.stages()[self.names().index_of(name)]
    }

    /// A registry without stages.
    pub fn new() -> (r: Self)
        ensures
            r.wf(),
            r.names() == Seq::<Seq<char>>::empty(),
            r.stages() == Seq::<T>::empty(),
    {
        let r = StageRegistry { entries: Vec::new() };
        assert(r.names() =~= Seq::<Seq<char>>::empty());
        assert(r.stages() =~= Seq::<T>::empty());
        r
    }

    /// The number of registered stages. No name is registered twice, so
    /// this is the number of names too.
    pub fn len(&self) -> (n: usize)
        requires
            self.wf(),
        ensures
            n == self.names().len(),
            n == self.stages().len(),
            self.names().no_duplicates(),
    {
        proof {
            assert forall|i: int, j: int|
                0 <= i < self.names().len() && 0 <= j < self.names().len() && i
                    != j implies self.names()[i] != self.names()[j] by {
                if i < j {
                    assert(self.entries@[i].0@ != self.entries@[j].0@);
                } else {
                    assert(self.entries@[j].0@ != self.entries@[i].0@);
                }
            }
        }
        self.entries.len()
    }

    /// Where `name` stands among the registered names, if it does.
    fn position(&self, name: &str) -> (r: Option<usize>)
        ensures
            match r {
                Some(i) => i < self.names().len() && self.names()[i as int] == name@,
                None => !self.contains(name@),
            },
    {
        let mut i: usize = 0;
        while i < self.entries.len()
            invariant
                i <= self.entries.len(),
                forall|j: int| 0 <= j < i ==> self.names()[j] != name@,
            decreases self.entries.len() - i,
        {
            if same_text(self.entries[i].0.as_str(), name) {
                return Some(i);
            }
            i = i + 1;
        }
        None
    }

    /// Registers `stage` under `name`, in place of the stage that was
    /// registered under this name, if any.
    pub fn register(&mut self, name: String, stage: T)
        requires
            old(self).wf(),
        ensures
            final(self).wf(),
            final(self).contains(name@),
            final(self).stage_of(name@) == stage,
            forall|other: Seq<char>|
                other != name@ ==> (final(self).contains(other) == old(self).contains(other)),
            forall|other: Seq<char>|
                other != name@ && old(self).contains(other) ==> final(self).stage_of(other) == old(
                    self,
                ).stage_of(other),
            old(self).contains(name@) ==> final(self).names() == old(self).names(),
            !old(self).contains(name@) ==> final(self).names() == old(self).names().push(name@),
    {
        let ghost before = *self;
        let ghost key = name@;
        match self.position(name.as_str()) {
            Some(i) => {
                self.entries[i] = (name, stage);
                proof {
                    assert(self.names() =~= before.names());
                    assert(self.stages() =~= before.stages().update(i as int, stage));
                    assert forall|a: int, b: int| 0 <= a < b < self.entries@.len() implies (
                    #[trigger] self.entries@[a]).0@ != (#[trigger] self.entries@[b]).0@ by {
                        assert(self.names()[a] == before.names()[a]);
                        assert(self.names()[b] == before.names()[b]);
                        assert(before.entries@[a].0@ != before.entries@[b].0@);
                    }
                    assert forall|k: int| 0 <= k < before.names().len() && before.names()[k]
                        == key implies k == i by {
                        if k < i {
                            assert(before.entries@[k].0@ != before.entries@[i as int].0@);
                        } else if k > i {
                            assert(before.entries@[i as int].0@ != before.entries@[k].0@);
                        }
                    }
                    lemma_index_of_unique(self.names(), key, i as int);
                    assert forall|other: Seq<char>|
                        other != key && before.contains(other) implies self.stage_of(other)
                        == before.stage_of(other) by {
                        let k = before.names().index_of(other);
                        assert(before.names()[k] == other);
                        assert(k != i);
                    }
                }
            },
            None => {
                self.entries.push((name, stage));
                proof {
                    let n = before.names().len() as int;
                    assert(self.names() =~= before.names().push(key));
                    assert(self.stages() =~= before.stages().push(stage));
                    assert(self.names()[n] == key);
                    assert forall|a: int, b: int| 0 <= a < b < self.entries@.len() implies (
                    #[trigger] self.entries@[a]).0@ != (#[trigger] self.entries@[b]).0@ by {
                        if b < n {
                            assert(before.entries@[a].0@ != before.entries@[b].0@);
                        } else {
                            assert(before.names()[a] == before.entries@[a].0@);
                            assert(before.names().contains(before.names()[a]));
                        }
                    }
                    assert forall|k: int| 0 <= k < self.names().len() && self.names()[k]
                        == key implies k == n by {
                        if k < n {
                            assert(before.names()[k] == key);
                            assert(before.contains(key));
                        }
                    }
                    lemma_index_of_unique(self.names(), key, n);
                    assert forall|other: Seq<char>| other != key implies (self.contains(other)
                        == before.contains(other)) by {
                        if before.contains(other) {
                            let k = before.names().index_of(other);
                            assert(self.names()[k] == other);
                        }
                        if self.contains(other) {
                            let k = self.names().index_of(other);
                            assert(self.names()[k] == other);
                            assert(k < n);
                            assert(before.names()[k] == other);
                        }
                    }
                    assert forall|other: Seq<char>|
                        other != key && before.contains(other) implies self.stage_of(other)
                        == before.stage_of(other) by {
                        let k = before.names().index_of(other);
                        assert(before.names()[k] == other);
                        assert(self.names()[k] == other);
                        assert forall|m: int| 0 <= m < self.names().len() && self.names()[m]
                            == other implies m == k by {
                            if m != k {
                                if m < n {
                                    if m < k {
                                        assert(before.entries@[m].0@ != before.entries@[k].0@);
                                    } else {
                                        assert(before.entries@[k].0@ != before.entries@[m].0@);
                                    }
                                }
                            }
                        }
                        lemma_index_of_unique(self.names(), other, k);
                    }
                }
            },
        }
    }

    /// The stage registered under `name`, if there is one.
    pub fn lookup(&self, name: &str) -> (r: Option<&T>)
        requires
            self.wf(),
        ensures
            r is Some <==> self.contains(name@),
            r matches Some(stage) ==> *stage == self.stage_of(name@),
    {
        match self.position(name) {
            Some(i) => {
                proof {
                    assert forall|k: int| 0 <= k < self.names().len() && self.names()[k]
                        == name@ implies k == i by {
                        if k < i {
                            assert(self.entries@[k].0@ != self.entries@[i as int].0@);
                        } else if k > i {
                            assert(self.entries@[i as int].0@ != self.entries@[k].0@);
                        }
                    }
                    lemma_index_of_unique(self.names(), name@, i as int);
                }
                Some(&self.entries[i].1)
            },
            None => None,
        }
    }
}

/// Where a value stands at one index only, that index is its `index_of`.
pub proof fn lemma_index_of_unique<A>(s: Seq<A>, x: A, i: int)
    requires
        0 <= i < s.len(),
        s[i] == x,
        forall|k: int| 0 <= k < s.len() && s[k] == x ==> k == i,
    ensures
        s.contains(x),
        s.index_of(x) == i,
{
    let k = s.index_of(x);
    assert(s.contains(x));
    assert(0 <= k < s.len() && s[k] == x);
}

} // verus!
