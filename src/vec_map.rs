use vstd::prelude::*;

use crate::model::Modeled;

verus! {

/// A finite map kept as two parallel vectors of keys and values.
///
/// Keys are unique by model; absent keys are simply not stored. The map's
/// contents are the ghost `Map` returned by `view`.
///
/// The ledgers keep their maps in this type rather than in a contract-storage
/// mapping: such a mapping holds no contents of its own but reads and writes
/// the host's storage under a fixed key, and persisting state is the host's
/// concern. A value that owns its entries lets the ledgers state and prove
/// exactly what each operation does to them.
pub struct VecMap<K: Modeled, V: Modeled> {
    keys: Vec<K>,
    vals: Vec<V>,
    contents: Ghost<Map<K::Model, V::Model>>,
}

impl<K: Modeled, V: Modeled> View for VecMap<K, V> {
    type V = Map<K::Model, V::Model>;

    closed spec fn view(&self) -> Map<K::Model, V::Model> {
        self.contents@
    }
}

impl<K: Modeled, V: Modeled> VecMap<K, V> {
    /// The map's internal invariant: keys unique, and the ghost contents agree
    /// with the stored pairs.
    pub closed spec fn wf(&self) -> bool {
        let m = self.contents@;
        &&& self.keys.len() == self.vals.len()
        &&& m.dom().finite()
        &&& forall|i: int, j: int|
            0 <= i < self.keys.len() && 0 <= j < self.keys.len() && i != j
                ==> #[trigger] self.keys@[i].model() != #[trigger] self.keys@[j].model()
        &&& forall|i: int|
            0 <= i < self.keys.len() ==> m.contains_key(#[trigger] self.keys@[i].model())
                && m[self.keys@[i].model()] == self.vals@[i].model()
        &&& forall|k: K::Model| #[trigger]
            m.contains_key(k) ==> exists|i: int|
                0 <= i < self.keys.len() && #[trigger] self.keys@[i].model() == k
    }

    pub fn new() -> (r: Self)
        ensures
            r.wf(),
            r@ == Map::<K::Model, V::Model>::empty(),
    {
        VecMap { keys: Vec::new(), vals: Vec::new(), contents: Ghost(Map::empty()) }
    }

    fn find(&self, k: &K) -> (r: Option<usize>)
        requires
            self.wf(),
        ensures
            match r {
                Some(i) => i < self.keys.len() && self.keys@[i as int].model() == k.model(),
                None => !self@.contains_key(k.model()),
            },
    {
        let mut i: usize = 0;
        while i < self.keys.len()
            invariant
                self.wf(),
                0 <= i <= self.keys.len(),
                forall|j: int| 0 <= j < i ==> #[trigger] self.keys@[j].model() != k.model(),
            decreases self.keys.len() - i,
        {
            if self.keys[i].model_eq(k) {
                return Some(i);
            }
            i += 1;
        }
        None
    }

    pub fn contains_key(&self, k: &K) -> (r: bool)
        requires
            self.wf(),
        ensures
            r == self@.contains_key(k.model()),
    {
        match self.find(k) {
            Some(_) => true,
            None => false,
        }
    }

    pub fn get(&self, k: &K) -> (r: Option<&V>)
        requires
            self.wf(),
        ensures
            match r {
                Some(v) => self@.contains_key(k.model()) && v.model() == self@[k.model()],
                None => !self@.contains_key(k.model()),
            },
    {
        match self.find(k) {
            Some(i) => Some(&self.vals[i]),
            None => None,
        }
    }

    pub fn insert(&mut self, k: K, v: V)
        requires
            old(self).wf(),
        ensures
            final(self).wf(),
            final(self)@ == old(self)@.insert(k.model(), v.model()),
    {
        let ghost km = k.model();
        let ghost vm = v.model();
        match self.find(&k) {
            Some(i) => {
                self.vals.set(i, v);
                self.contents = Ghost(self.contents@.insert(km, vm));
                assert forall|k2: K::Model| #[trigger] self.contents@.contains_key(k2) implies exists|j: int|
                    0 <= j < self.keys.len() && #[trigger] self.keys@[j].model() == k2 by {
                    if k2 != km {
                        assert(old(self).contents@.contains_key(k2));
                        let j = choose|j: int|
                            0 <= j < old(self).keys.len() && #[trigger] old(self).keys@[j].model() == k2;
                        assert(self.keys@[j] == old(self).keys@[j]);
                    } else {
                        assert(self.keys@[i as int].model() == k2);
                    }
                }
            },
            None => {
                self.keys.push(k);
                self.vals.push(v);
                self.contents = Ghost(self.contents@.insert(km, vm));
                let ghost n = self.keys.len() - 1;
                assert(self.keys@[n].model() == km);
                assert forall|k2: K::Model| #[trigger] self.contents@.contains_key(k2) implies exists|j: int|
                    0 <= j < self.keys.len() && #[trigger] self.keys@[j].model() == k2 by {
                    if k2 != km {
                        assert(old(self).contents@.contains_key(k2));
                        let j = choose|j: int|
                            0 <= j < old(self).keys.len() && #[trigger] old(self).keys@[j].model() == k2;
                        assert(self.keys@[j] == old(self).keys@[j]);
                    } else {
                        assert(self.keys@[n].model() == k2);
                    }
                }
            },
        }
    }

    pub fn remove(&mut self, k: &K) -> (r: Option<V>)
        requires
            old(self).wf(),
        ensures
            final(self).wf(),
            final(self)@ == old(self)@.remove(k.model()),
            match r {
                Some(v) => old(self)@.contains_key(k.model()) && v.model() == old(self)@[k.model()],
                None => !old(self)@.contains_key(k.model()),
            },
    {
        match self.find(k) {
            Some(i) => {
                let ghost km = k.model();
                let ghost last = self.keys.len() - 1;
                let ghost old_keys = self.keys@;
                let _ = self.keys.swap_remove(i);
                let v = self.vals.swap_remove(i);
                self.contents = Ghost(self.contents@.remove(km));
                assert forall|j: int| 0 <= j < self.keys.len() implies #[trigger] self.keys@[j].model()
                    != km by {
                    if j == i {
                        assert(self.keys@[j] == old_keys[last]);
                    } else {
                        assert(self.keys@[j] == old_keys[j]);
                    }
                }
                assert forall|k2: K::Model| #[trigger] self.contents@.contains_key(k2) implies exists|j: int|
                    0 <= j < self.keys.len() && #[trigger] self.keys@[j].model() == k2 by {
                    let j = choose|j: int|
                        0 <= j < old_keys.len() && #[trigger] old_keys[j].model() == k2;
                    if j == last {
                        assert(self.keys@[i as int] == old_keys[j]);
                    } else {
                        assert(self.keys@[j] == old_keys[j]);
                    }
                }
                Some(v)
            },
            None => {
                assert(self.contents@.remove(k.model()) =~= self.contents@);
                None
            },
        }
    }
}

} // verus!
