use vstd::prelude::*;

use crate::errors::PSP34Error;
use crate::id::{Id, IdView};
use crate::model::{lemma_byte_models, Modeled};
use crate::psp34::{emits, AttributeSet, PSP34Event};
use crate::vec_map::VecMap;

verus! {

/// Byte-string attributes of tokens, keyed by token id and attribute key.
pub struct AttributeStore {
    attributes: VecMap<(Id, Vec<u8>), Vec<u8>>,
}

impl View for AttributeStore {
    type V = Map<(IdView, Seq<u8>), Seq<u8>>;

    closed spec fn view(&self) -> Map<(IdView, Seq<u8>), Seq<u8>> {
        self.attributes@
    }
}

impl AttributeStore {
    pub closed spec fn wf(&self) -> bool {
        self.attributes.wf()
    }

    pub fn new() -> (r: AttributeStore)
        ensures
            r.wf(),
            r@ == Map::<(IdView, Seq<u8>), Seq<u8>>::empty(),
    {
        AttributeStore { attributes: VecMap::new() }
    }

    /// The value of attribute `key` of token `id`, if one was set.
    pub fn get_attribute(&self, id: Id, key: Vec<u8>) -> (r: Option<Vec<u8>>)
        requires
            self.wf(),
        ensures
            match r {
                Some(v) => self@.contains_key((id.model(), key@)) && v@ == self@[(id.model(), key@)],
                None => !self@.contains_key((id.model(), key@)),
            },
    {
        proof {
            lemma_byte_models(key@);
        }
        match self.attributes.get(&(id, key)) {
            Some(v) => {
                let w = v.duplicate();
                proof {
                    lemma_byte_models(v@);
                    lemma_byte_models(w@);
                }
                Some(w)
            },
            None => None,
        }
    }

    /// Sets attribute `key` of token `id` to `value`; this always succeeds.
    pub fn set_attribute(&mut self, id: Id, key: Vec<u8>, value: Vec<u8>) -> (r: Result<
        Vec<PSP34Event>,
        PSP34Error,
    >)
        requires
            old(self).wf(),
        ensures
            final(self).wf(),
            final(self)@ == old(self)@.insert((id.model(), key@), value@),
            emits(r, seq![PSP34Event::AttributeSet(AttributeSet { id, key, data: value })]),
    {
        proof {
            lemma_byte_models(key@);
            lemma_byte_models(value@);
        }
        self.attributes.insert((id.duplicate(), key.duplicate()), value.duplicate());
        let events = vec![PSP34Event::AttributeSet(AttributeSet { id, key, data: value })];
        assert(events@ =~= seq![PSP34Event::AttributeSet(AttributeSet { id, key, data: value })]);
        Ok(events)
    }
}

} // verus!
