use vstd::prelude::*;

use crate::account::AccountId;
use crate::errors::PSP34Error;
use crate::id::{Id, IdView};
use crate::model::{models, Modeled};
use crate::vec_map::VecMap;

verus! {

/// The list stored under `k`, empty where none is.
pub open spec fn list_of<K>(m: Map<K, Seq<IdView>>, k: K) -> Seq<IdView> {
    if m.contains_key(k) {
        m[k]
    } else {
        Seq::empty()
    }
}

/// The first position of `x` in `s`.
pub open spec fn first_index<T>(s: Seq<T>, x: T) -> int {
    choose|i: int| 0 <= i < s.len() && s[i] == x && forall|j: int| 0 <= j < i ==> s[j] != x
}

/// `s` with the first occurrence of `x` replaced by the last element and the
/// last element dropped; `s` itself where `x` does not occur.
pub open spec fn swap_removed<T>(s: Seq<T>, x: T) -> Seq<T> {
    if s.contains(x) {
        s.update(first_index(s, x), s.last()).drop_last()
    } else {
        s
    }
}

/// Per-key lists of token ids: the key `None` holds every minted token, the
/// key `Some(owner)` the tokens of `owner`.
///
/// Appending keeps order; removal swaps the removed entry with the last one,
/// so positions are not stable across removals.
pub struct BalanceIndex {
    enumerable: VecMap<Option<AccountId>, Vec<Id>>,
}

impl View for BalanceIndex {
    type V = Map<Option<AccountId>, Seq<IdView>>;

    /// The list of every key; keys without an entry have an empty list.
    closed spec fn view(&self) -> Map<Option<AccountId>, Seq<IdView>> {
        Map::new(|k: Option<AccountId>| true, |k: Option<AccountId>| list_of(self.enumerable@, k))
    }
}

proof fn lemma_key_model(key: Option<AccountId>)
    ensures
        key.model() == key,
{
}

impl BalanceIndex {
    pub closed spec fn wf(&self) -> bool {
        self.enumerable.wf()
    }

    pub fn new() -> (r: BalanceIndex)
        ensures
            r.wf(),
            forall|k: Option<AccountId>| #[trigger] r@[k] == Seq::<IdView>::empty(),
    {
        BalanceIndex { enumerable: VecMap::new() }
    }

    fn get_value(&self, key: &Option<AccountId>, index: u128) -> (r: Option<Id>)
        requires
            self.wf(),
        ensures
            match r {
                Some(id) => index < self@[*key].len() && id.model() == self@[*key][index as int],
                None => index >= self@[*key].len(),
            },
    {
        proof {
            lemma_key_model(*key);
        }
        match self.enumerable.get(key) {
            Some(values) => {
                if index < values.len() as u128 {
                    Some(values[index as usize].duplicate())
                } else {
                    None
                }
            },
            None => None,
        }
    }

    /// The `index`-th token of `owner`.
    pub fn owners_token_by_index(&self, owner: AccountId, index: u128) -> (r: Result<Id, PSP34Error>)
        requires
            self.wf(),
        ensures
            if index < self@[Some(owner)].len() {
                r matches Ok(id) && id.model() == self@[Some(owner)][index as int]
            } else {
                r == Err::<Id, PSP34Error>(PSP34Error::TokenNotExists)
            },
    {
        match self.get_value(&Some(owner), index) {
            Some(id) => Ok(id),
            None => Err(PSP34Error::TokenNotExists),
        }
    }

    /// The `index`-th minted token.
    pub fn token_by_index(&self, index: u128) -> (r: Result<Id, PSP34Error>)
        requires
            self.wf(),
        ensures
            if index < self@[None].len() {
                r matches Ok(id) && id.model() == self@[None][index as int]
            } else {
                r == Err::<Id, PSP34Error>(PSP34Error::TokenNotExists)
            },
    {
        match self.get_value(&None, index) {
            Some(id) => Ok(id),
            None => Err(PSP34Error::TokenNotExists),
        }
    }

    /// Appends `value` to the list of `key`.
    pub fn insert(&mut self, key: &Option<AccountId>, value: &Id)
        requires
            old(self).wf(),
        ensures
            final(self).wf(),
            final(self)@ == old(self)@.insert(*key, old(self)@[*key].push(value.model())),
    {
        proof {
            lemma_key_model(*key);
        }
        let ghost old_list = old(self)@[*key];
        let mut values = match self.enumerable.remove(key) {
            Some(values) => values,
            None => {
                assert(models(Seq::<Id>::empty()) =~= Seq::<IdView>::empty());
                Vec::new()
            },
        };
        assert(values.model() == old_list);
        values.push(value.duplicate());
        assert(values.model() =~= old_list.push(value.model()));
        self.enumerable.insert(key.duplicate(), values);
        assert(self@ =~= old(self)@.insert(*key, old_list.push(value.model())));
    }

    /// The first position of `value` in `values`.
    fn position(values: &Vec<Id>, value: &Id) -> (r: Option<usize>)
        ensures
            match r {
                Some(i) => i < values.len() && values.model()[i as int] == value.model() && i == first_index(
                    values.model(),
                    value.model(),
                ),
                None => !values.model().contains(value.model()),
            },
    {
        let ghost s = values.model();
        let mut i: usize = 0;
        while i < values.len()
            invariant
                values.model() == s,
                0 <= i <= values.len(),
                forall|j: int| 0 <= j < i ==> s[j] != value.model(),
            decreases values.len() - i,
        {
            if values[i].model_eq(value) {
                assert(s[i as int] == value.model());
                assert(first_index(s, value.model()) == i) by {
                    let f = first_index(s, value.model());
                    assert(0 <= f < s.len() && s[f] == value.model());
                    assert(!(f < i));
                    assert(!(i < f));
                }
                return Some(i);
            }
            i += 1;
        }
        None
    }

    /// Takes the first occurrence of `value` out of the list of `key`.
    fn remove(&mut self, key: &Option<AccountId>, value: &Id)
        requires
            old(self).wf(),
        ensures
            final(self).wf(),
            final(self)@ == old(self)@.insert(*key, swap_removed(old(self)@[*key], value.model())),
    {
        proof {
            lemma_key_model(*key);
        }
        if let Some(mut values) = self.enumerable.remove(key) {
            let ghost s = values.model();
            assert(s == old(self)@[*key]);
            match BalanceIndex::position(&values, value) {
                Some(i) => {
                    assert(s.contains(value.model()));
                    let _ = values.swap_remove(i);
                    assert(values.model() =~= s.update(i as int, s.last()).drop_last());
                },
                None => {},
            }
            assert(values.model() == swap_removed(s, value.model()));
            self.enumerable.insert(key.duplicate(), values);
        } else {
            assert(old(self)@[*key] =~= Seq::<IdView>::empty());
        }
        assert(self@ =~= old(self)@.insert(*key, swap_removed(old(self)@[*key], value.model())));
    }

    fn count(&self, key: &Option<AccountId>) -> (r: usize)
        requires
            self.wf(),
        ensures
            r == self@[*key].len(),
    {
        proof {
            lemma_key_model(*key);
        }
        match self.enumerable.get(key) {
            Some(values) => values.len(),
            None => 0,
        }
    }

    /// The number of tokens of `owner`, truncated to 32 bits.
    pub fn balance_of(&self, owner: &AccountId) -> (r: u32)
        requires
            self.wf(),
        ensures
            r == self@[Some(*owner)].len() as u32,
    {
        let n = self.count(&Some(*owner));
        #[verifier::truncate]
        (n as u32)
    }

    /// The number of minted tokens.
    pub fn total_supply(&self) -> (r: u128)
        requires
            self.wf(),
        ensures
            r == self@[None].len(),
    {
        self.count(&None) as u128
    }

    /// Records `id` as a token of `owner`, and as a minted token where
    /// `increase_supply` holds.
    pub fn increase_balance(&mut self, owner: &AccountId, id: &Id, increase_supply: bool)
        requires
            old(self).wf(),
        ensures
            final(self).wf(),
            increase_supply ==> final(self)@ == old(self)@.insert(
                Some(*owner),
                old(self)@[Some(*owner)].push(id.model()),
            ).insert(None, old(self)@[None].push(id.model())),
            !increase_supply ==> final(self)@ == old(self)@.insert(
                Some(*owner),
                old(self)@[Some(*owner)].push(id.model()),
            ),
    {
        self.insert(&Some(*owner), id);
        if increase_supply {
            self.insert(&None, id);
        }
    }

    /// Takes `id` out of the tokens of `owner`, and out of the minted tokens
    /// where `decrease_supply` holds. An owner left with no token loses its
    /// entry.
    pub fn decrease_balance(&mut self, owner: &AccountId, id: &Id, decrease_supply: bool)
        requires
            old(self).wf(),
        ensures
            final(self).wf(),
            decrease_supply ==> final(self)@ == old(self)@.insert(
                Some(*owner),
                swap_removed(old(self)@[Some(*owner)], id.model()),
            ).insert(None, swap_removed(old(self)@[None], id.model())),
            !decrease_supply ==> final(self)@ == old(self)@.insert(
                Some(*owner),
                swap_removed(old(self)@[Some(*owner)], id.model()),
            ),
    {
        self.remove(&Some(*owner), id);
        if self.count(&Some(*owner)) == 0 {
            let ghost before = self@;
            proof {
                lemma_key_model(Some(*owner));
            }
            assert(before[Some(*owner)] =~= Seq::<IdView>::empty());
            let _ = self.enumerable.remove(&Some(*owner));
            assert(self@ =~= before);
        }
        if decrease_supply {
            self.remove(&None, id);
        }
    }
}

} // verus!
