use vstd::prelude::*;

use crate::text::{lemma_trimmed_idempotent, trim, trimmed};

verus! {

/// The names of the clients that are connected now, in the order they joined.
pub struct Registry {
    names: Vec<String>,
}

impl View for Registry {
    type V = Seq<Seq<char>>;

    closed spec fn view(&self) -> Seq<Seq<char>> {
        self.names@.map_values(|n: String| n@)
    }
}

impl Registry {
    /// No name is held twice, and every name is already trimmed.
    pub open spec fn wf(&self) -> bool {
        &&& self@.no_duplicates()
        &&& forall|i: int| 0 <= i < self@.len() ==> trimmed(#[trigger] self@[i]) == self@[i]
    }

    pub fn new() -> (r: Registry)
        ensures
            r.wf(),
            r@ == Seq::<Seq<char>>::empty(),
    {
        let r = Registry { names: Vec::new() };
        assert(r@ =~= Seq::<Seq<char>>::empty());
        r
    }

    pub fn len(&self) -> (r: usize)
        ensures
            r == self@.len(),
    {
        self.names.len()
    }

    fn position(&self, name: &String) -> (r: Option<usize>)
        ensures
            match r {
                Some(i) => i < self@.len() && self@[i as int] == name@,
                None => !self@.contains(name@),
            },
    {
        let mut i: usize = 0;
        while i < self.names.len()
            invariant
                i <= self.names@.len(),
                self@.len() == self.names@.len(),
                forall|j: int| 0 <= j < i ==> self@[j] != name@,
            decreases self.names.len() - i,
        {
            if self.names[i] == *name {
                return Some(i);
            }
            i = i + 1;
        }
        None
    }

    /// Whether `name` is held, exactly as given.
    pub fn contains(&self, name: &str) -> (r: bool)
        ensures
            r == self@.contains(name@),
    {
        let key = name.to_string();
        self.position(&key).is_some()
    }

    /// Takes the trimmed `name` for a new client where no client holds it yet; returns
    /// whether it did. Where the name is taken, nothing changes.
    pub fn try_register(&mut self, name: &str) -> (r: bool)
        requires
            old(self).wf(),
        ensures
            final(self).wf(),
            r == !old(self)@.contains(trimmed(name@)),
            r ==> final(self)@ == old(self)@.push(trimmed(name@)),
            !r ==> final(self)@ == old(self)@,
    {
        let key = trim(name);
        match self.position(&key) {
            Some(_) => false,
            None => {
                proof {
                    lemma_trimmed_idempotent(name@);
                }
                self.names.push(key);
                assert(self@ =~= old(self)@.push(trimmed(name@)));
                assert(forall|i: int|
                    0 <= i < self@.len() ==> trimmed(#[trigger] self@[i]) == self@[i]) by {
                    assert forall|i: int| 0 <= i < self@.len() implies trimmed(
                        #[trigger] self@[i],
                    ) == self@[i] by {
                        if i < old(self)@.len() {
                            assert(self@[i] == old(self)@[i]);
                        }
                    }
                }
                true
            },
        }
    }

    /// Gives `name` up; a name that is not held is no error.
    pub fn unregister(&mut self, name: &str)
        requires
            old(self).wf(),
        ensures
            final(self).wf(),
            forall|n: Seq<char>| #[trigger]
                final(self)@.contains(n) == (old(self)@.contains(n) && n != name@),
    {
        let key = name.to_string();
        match self.position(&key) {
            None => {},
            Some(i) => {
                let ghost before = self@;
                self.names.remove(i);
                assert(self@ =~= before.remove(i as int));
                assert forall|n: Seq<char>| #[trigger]
                    self@.contains(n) == (before.contains(n) && n != name@) by {
                    if self@.contains(n) {
                        let k = choose|k: int| 0 <= k < self@.len() && self@[k] == n;
                        if k < i {
                            assert(before[k] == n);
                        } else {
                            assert(before[k + 1] == n);
                        }
                    }
                    if before.contains(n) && n != name@ {
                        let k = choose|k: int| 0 <= k < before.len() && before[k] == n;
                        if k < i {
                            assert(self@[k] == n);
                        } else {
                            assert(k != i);
                            assert(self@[k - 1] == n);
                        }
                    }
                }
                assert forall|a: int, b: int|
                    0 <= a < self@.len() && 0 <= b < self@.len() && a != b implies self@[a]
                    != self@[b] by {
                    let a2 = if a < i { a } else { a + 1 };
                    let b2 = if b < i { b } else { b + 1 };
                    assert(self@[a] == before[a2]);
                    assert(self@[b] == before[b2]);
                }
                assert forall|k: int| 0 <= k < self@.len() implies trimmed(#[trigger] self@[k])
                    == self@[k] by {
                    let k2 = if k < i { k } else { k + 1 };
                    assert(self@[k] == before[k2]);
                }
            },
        }
    }
}

/// However names were accepted, no two entries of a well-formed registry have the same
/// trimmed form.
pub proof fn lemma_trimmed_names_distinct(r: &Registry)
    requires
        r.wf(),
    ensures
        forall|i: int, j: int|
            0 <= i < r@.len() && 0 <= j < r@.len() && i != j ==> trimmed(#[trigger] r@[i])
                != trimmed(#[trigger] r@[j]),
{
    assert forall|i: int, j: int|
        0 <= i < r@.len() && 0 <= j < r@.len() && i != j implies trimmed(#[trigger] r@[i])
        != trimmed(#[trigger] r@[j]) by {
        assert(trimmed(r@[i]) == r@[i]);
        assert(trimmed(r@[j]) == r@[j]);
    }
}

} // verus!
