use vstd::prelude::*;

use crate::account::AccountId;
use crate::errors::PSP34Error;
use crate::id::{Id, IdView};
use crate::index::{first_index, swap_removed, BalanceIndex};
use crate::model::Modeled;
use crate::vec_map::VecMap;

verus! {

/// A movement of a token: `from` is `None` for a mint, `to` is `None` for a burn.
#[derive(Debug, Clone, PartialEq, Eq)]
pub struct Transfer {
    pub from: Option<AccountId>,
    pub to: Option<AccountId>,
    pub id: Id,
}

/// `operator` may now (or may no longer) act on `id` of `owner`, or on all of
/// `owner`'s tokens where `id` is `None`.
#[derive(Debug, Clone, PartialEq, Eq)]
pub struct Approval {
    pub owner: AccountId,
    pub operator: AccountId,
    pub id: Option<Id>,
    pub approved: bool,
}

/// The attribute `key` of token `id` now holds `data`.
#[derive(Debug, Clone, PartialEq, Eq)]
pub struct AttributeSet {
    pub id: Id,
    pub key: Vec<u8>,
    pub data: Vec<u8>,
}

/// An event that a non-fungible-ledger operation asks the host to publish.
#[derive(Debug, Clone, PartialEq, Eq)]
pub enum PSP34Event {
    Transfer(Transfer),
    Approval(Approval),
    AttributeSet(AttributeSet),
}

/// The operation succeeded and returned exactly `events`.
pub open spec fn emits(r: Result<Vec<PSP34Event>, PSP34Error>, events: Seq<PSP34Event>) -> bool {
    r matches Ok(v) && v@ == events
}

/// The operation failed with `e`.
pub open spec fn fails(r: Result<Vec<PSP34Event>, PSP34Error>, e: PSP34Error) -> bool {
    r == Err::<Vec<PSP34Event>, PSP34Error>(e)
}

/// The model of an optional token id.
pub open spec fn id_model(id: Option<&Id>) -> Option<IdView> {
    match id {
        Some(i) => Some(i.model()),
        None => None,
    }
}

/// The abstract state of a non-fungible ledger.
pub struct NftState {
    /// The owner of each minted token.
    pub owners: Map<IdView, AccountId>,
    /// The approvals `(owner, operator, id)`; `id == None` is a blanket approval.
    pub approvals: Set<(AccountId, AccountId, Option<IdView>)>,
    /// The enumeration lists: `None` lists every token, `Some(o)` those of `o`.
    pub lists: Map<Option<AccountId>, Seq<IdView>>,
}

impl NftState {
    /// What holds of every reachable state: each minted token stands once in
    /// the global list and once in its owner's list, and in no other list.
    pub open spec fn consistent(self) -> bool {
        &&& self.owners.dom().finite()
        &&& forall|k: Option<AccountId>| #[trigger] self.lists[k].no_duplicates()
        &&& forall|i: IdView| #[trigger]
            self.lists[None].contains(i) <==> self.owners.contains_key(i)
        &&& forall|o: AccountId, i: IdView| #[trigger]
            self.lists[Some(o)].contains(i) <==> (self.owners.contains_key(i) && self.owners[i] == o)
    }

    /// `operator` may act on `id` of `owner` (on all of them where `id` is `None`).
    pub open spec fn allowed(self, owner: AccountId, operator: AccountId, id: Option<IdView>) -> bool {
        self.approvals.contains((owner, operator, None)) || (id is Some && self.approvals.contains(
            (owner, operator, id),
        ))
    }

    pub open spec fn with_approval(
        self,
        owner: AccountId,
        operator: AccountId,
        id: Option<IdView>,
        approved: bool,
    ) -> NftState {
        NftState {
            owners: self.owners,
            approvals: if approved {
                self.approvals.insert((owner, operator, id))
            } else {
                self.approvals.remove((owner, operator, id))
            },
            lists: self.lists,
        }
    }

    /// Token `id` created for `account`.
    pub open spec fn minted(self, account: AccountId, id: IdView) -> NftState {
        NftState {
            owners: self.owners.insert(id, account),
            approvals: self.approvals,
            lists: self.lists.insert(Some(account), self.lists[Some(account)].push(id)).insert(
                None,
                self.lists[None].push(id),
            ),
        }
    }

    /// Token `id` of `owner` handed to `to` by `caller`, whose own approval
    /// for that token is used up.
    pub open spec fn transferred(self, owner: AccountId, caller: AccountId, to: AccountId, id: IdView) -> NftState {
        NftState {
            owners: self.owners.insert(id, to),
            approvals: self.approvals.remove((owner, caller, Some(id))),
            lists: self.lists.insert(Some(owner), swap_removed(self.lists[Some(owner)], id)).insert(
                Some(to),
                self.lists[Some(to)].push(id),
            ),
        }
    }

    /// Token `id` of `account` destroyed.
    pub open spec fn burned(self, account: AccountId, id: IdView) -> NftState {
        NftState {
            owners: self.owners.remove(id),
            approvals: self.approvals,
            lists: self.lists.insert(Some(account), swap_removed(self.lists[Some(account)], id)).insert(
                None,
                swap_removed(self.lists[None], id),
            ),
        }
    }
}

/// Taking `x` out of a list without duplicates leaves every other element,
/// and only those, once.
pub proof fn lemma_swap_removed<T>(s: Seq<T>, x: T)
    requires
        s.no_duplicates(),
    ensures
        swap_removed(s, x).no_duplicates(),
        forall|y: T| #[trigger] swap_removed(s, x).contains(y) <==> (s.contains(y) && y != x),
{
    if s.contains(x) {
        let k = choose|k: int| 0 <= k < s.len() && s[k] == x;
        assert(first_index(s, x) == k) by {
            assert(0 <= k < s.len() && s[k] == x && forall|j: int| 0 <= j < k ==> s[j] != x);
            let f = first_index(s, x);
            assert(0 <= f < s.len() && s[f] == x);
        }
        let n = s.len() - 1;
        let r = swap_removed(s, x);
        assert(r =~= s.update(k, s[n]).drop_last());
        assert forall|a: int, b: int| 0 <= a < r.len() && 0 <= b < r.len() && a != b implies r[a]
            != r[b] by {
            let sa = if a == k { n } else { a };
            let sb = if b == k { n } else { b };
            assert(r[a] == s[sa] && r[b] == s[sb]);
        }
        assert forall|y: T| #[trigger] r.contains(y) <==> (s.contains(y) && y != x) by {
            if r.contains(y) {
                let a = choose|a: int| 0 <= a < r.len() && r[a] == y;
                let sa = if a == k { n } else { a };
                assert(s[sa] == y);
                assert(sa != k);
            }
            if s.contains(y) && y != x {
                let a = choose|a: int| 0 <= a < s.len() && s[a] == y;
                if a == n {
                    assert(r[k] == y);
                } else {
                    assert(r[a] == y);
                }
            }
        }
    }
}

/// Appending an element that a list lacks keeps it free of duplicates.
proof fn lemma_push<T>(s: Seq<T>, x: T)
    ensures
        forall|y: T| #[trigger] s.push(x).contains(y) <==> (s.contains(y) || y == x),
        s.no_duplicates() && !s.contains(x) ==> s.push(x).no_duplicates(),
{
    let t = s.push(x);
    assert forall|y: T| #[trigger] t.contains(y) <==> (s.contains(y) || y == x) by {
        if t.contains(y) {
            let a = choose|a: int| 0 <= a < t.len() && t[a] == y;
            if a < s.len() {
                assert(s[a] == y);
            }
        }
        if s.contains(y) {
            let a = choose|a: int| 0 <= a < s.len() && s[a] == y;
            assert(t[a] == y);
        }
        if y == x {
            assert(t[s.len() as int] == y);
        }
    }
    if s.no_duplicates() && !s.contains(x) {
        assert forall|a: int, b: int| 0 <= a < t.len() && 0 <= b < t.len() && a != b implies t[a]
            != t[b] by {
            if a == s.len() {
                assert(s[b] != x);
            } else if b == s.len() {
                assert(s[a] != x);
            }
        }
    }
}

/// Minting a token that does not exist keeps a state consistent.
pub proof fn lemma_mint_consistent(s: NftState, account: AccountId, id: IdView)
    requires
        s.consistent(),
        !s.owners.contains_key(id),
    ensures
        s.minted(account, id).consistent(),
{
    let t = s.minted(account, id);
    assert(!s.lists[None].contains(id));
    assert(!s.lists[Some(account)].contains(id));
    lemma_push(s.lists[None], id);
    lemma_push(s.lists[Some(account)], id);
    assert forall|k: Option<AccountId>| #[trigger] t.lists[k].no_duplicates() by {
        if k != None::<AccountId> && k != Some(account) {
            assert(t.lists[k] == s.lists[k]);
        }
    }
    assert forall|o: AccountId, i: IdView| #[trigger]
        t.lists[Some(o)].contains(i) <==> (t.owners.contains_key(i) && t.owners[i] == o) by {
        if o != account {
            assert(t.lists[Some(o)] == s.lists[Some(o)]);
            assert(s.lists[Some(o)].contains(i) <==> (s.owners.contains_key(i) && s.owners[i] == o));
        } else {
            assert(s.lists[Some(o)].contains(i) <==> (s.owners.contains_key(i) && s.owners[i] == o));
        }
    }
    assert forall|i: IdView| #[trigger] t.lists[None].contains(i) <==> t.owners.contains_key(i) by {
        assert(s.lists[None].contains(i) <==> s.owners.contains_key(i));
    }
}

/// Handing a token to a new owner keeps a state consistent.
pub proof fn lemma_transfer_consistent(
    s: NftState,
    owner: AccountId,
    caller: AccountId,
    to: AccountId,
    id: IdView,
)
    requires
        s.consistent(),
        s.owners.contains_key(id),
        s.owners[id] == owner,
        owner != to,
    ensures
        s.transferred(owner, caller, to, id).consistent(),
{
    let t = s.transferred(owner, caller, to, id);
    assert(!s.lists[Some(to)].contains(id));
    lemma_push(s.lists[Some(to)], id);
    lemma_swap_removed(s.lists[Some(owner)], id);
    assert forall|k: Option<AccountId>| #[trigger] t.lists[k].no_duplicates() by {
        if k != Some(owner) && k != Some(to) {
            assert(t.lists[k] == s.lists[k]);
        }
    }
    assert forall|o: AccountId, i: IdView| #[trigger]
        t.lists[Some(o)].contains(i) <==> (t.owners.contains_key(i) && t.owners[i] == o) by {
        assert(s.lists[Some(o)].contains(i) <==> (s.owners.contains_key(i) && s.owners[i] == o));
        if o != owner && o != to {
            assert(t.lists[Some(o)] == s.lists[Some(o)]);
            assert(s.lists[Some(o)].contains(id) <==> (s.owners.contains_key(id) && s.owners[id] == o));
        }
    }
    assert forall|i: IdView| #[trigger] t.lists[None].contains(i) <==> t.owners.contains_key(i) by {
        assert(t.lists[None] == s.lists[None]);
        assert(s.lists[None].contains(i) <==> s.owners.contains_key(i));
    }
}

/// Destroying a token of its owner keeps a state consistent.
pub proof fn lemma_burn_consistent(s: NftState, account: AccountId, id: IdView)
    requires
        s.consistent(),
        s.owners.contains_key(id),
        s.owners[id] == account,
    ensures
        s.burned(account, id).consistent(),
{
    let t = s.burned(account, id);
    lemma_swap_removed(s.lists[Some(account)], id);
    lemma_swap_removed(s.lists[None], id);
    assert forall|k: Option<AccountId>| #[trigger] t.lists[k].no_duplicates() by {
        if k != Some(account) && k != None::<AccountId> {
            assert(t.lists[k] == s.lists[k]);
        }
    }
    assert forall|o: AccountId, i: IdView| #[trigger]
        t.lists[Some(o)].contains(i) <==> (t.owners.contains_key(i) && t.owners[i] == o) by {
        assert(s.lists[Some(o)].contains(i) <==> (s.owners.contains_key(i) && s.owners[i] == o));
        if o != account {
            assert(t.lists[Some(o)] == s.lists[Some(o)]);
            assert(s.lists[Some(o)].contains(id) <==> (s.owners.contains_key(id) && s.owners[id] == o));
        }
    }
    assert forall|i: IdView| #[trigger] t.lists[None].contains(i) <==> t.owners.contains_key(i) by {
        assert(s.lists[None].contains(i) <==> s.owners.contains_key(i));
    }
}

/// The ledger of a non-fungible token: ownership, operator approvals and
/// enumeration lists.
///
/// Each mutating method takes the calling account explicitly and returns the
/// events to publish; on an error nothing has changed. Who may mint is decided
/// by the contract around the ledger, not here.
pub struct PSP34Data {
    token_owner: VecMap<Id, AccountId>,
    operator_approvals: VecMap<(AccountId, AccountId, Option<Id>), ()>,
    balance: BalanceIndex,
}

impl View for PSP34Data {
    type V = NftState;

    closed spec fn view(&self) -> NftState {
        NftState {
            owners: self.token_owner@,
            approvals: self.operator_approvals@.dom(),
            lists: self.balance@,
        }
    }
}

impl PSP34Data {
    pub closed spec fn parts_wf(&self) -> bool {
        &&& self.token_owner.wf()
        &&& self.operator_approvals.wf()
        &&& self.balance.wf()
    }

    pub open spec fn wf(&self) -> bool {
        self.parts_wf() && self@.consistent()
    }

    /// An empty ledger.
    pub fn new() -> (r: PSP34Data)
        ensures
            r.wf(),
            r@.owners == Map::<IdView, AccountId>::empty(),
            r@.approvals == Set::<(AccountId, AccountId, Option<IdView>)>::empty(),
            forall|k: Option<AccountId>| #[trigger] r@.lists[k] == Seq::<IdView>::empty(),
    {
        let r = PSP34Data {
            token_owner: VecMap::new(),
            operator_approvals: VecMap::new(),
            balance: BalanceIndex::new(),
        };
        assert(r@.approvals =~= Set::<(AccountId, AccountId, Option<IdView>)>::empty());
        r
    }

    /// The number of minted tokens: the length of the global list, which is
    /// the number of owned tokens.
    pub fn total_supply(&self) -> (r: u128)
        requires
            self.wf(),
        ensures
            r == self@.lists[None].len(),
            r == self@.owners.dom().len(),
    {
        proof {
            self.lemma_supply_counts();
        }
        self.balance.total_supply()
    }

    /// The global list holds exactly the owned tokens, once each.
    proof fn lemma_supply_counts(&self)
        requires
            self.wf(),
        ensures
            self@.lists[None].len() == self@.owners.dom().len(),
    {
        let s = self@.lists[None];
        assert(s.no_duplicates());
        s.unique_seq_to_set();
        assert(s.to_set() =~= self@.owners.dom());
    }

    /// The number of tokens of `owner`, truncated to 32 bits.
    pub fn balance_of(&self, owner: AccountId) -> (r: u32)
        requires
            self.wf(),
        ensures
            r == self@.lists[Some(owner)].len() as u32,
    {
        self.balance.balance_of(&owner)
    }

    pub fn owner_of(&self, id: &Id) -> (r: Option<AccountId>)
        requires
            self.wf(),
        ensures
            r == (if self@.owners.contains_key(id.model()) {
                Some(self@.owners[id.model()])
            } else {
                None
            }),
    {
        match self.token_owner.get(id) {
            Some(owner) => Some(*owner),
            None => None,
        }
    }

    /// Whether `operator` may act on `id` of `owner`: through a blanket
    /// approval, or through an approval for that very token.
    pub fn allowance(&self, owner: AccountId, operator: AccountId, id: Option<&Id>) -> (r: bool)
        requires
            self.wf(),
        ensures
            r == self@.allowed(owner, operator, id_model(id)),
    {
        if self.operator_approvals.contains_key(&(owner, operator, None)) {
            return true;
        }
        match id {
            Some(i) => self.operator_approvals.contains_key(&(owner, operator, Some(i.duplicate()))),
            None => false,
        }
    }

    /// The identifier of the collection that the ledger at `account_id` keeps:
    /// the account's bytes.
    pub fn collection_id(&self, account_id: AccountId) -> (r: Id)
        ensures
            r.model() == IdView::Bytes(account_id.bytes@),
    {
        Id::from_account(&account_id)
    }

    /// Grants or revokes an approval of `operator`: for token `id` of its
    /// owner, or for all tokens of `caller` where `id` is `None`.
    pub fn approve(
        &mut self,
        caller: AccountId,
        operator: AccountId,
        id: Option<Id>,
        approved: bool,
    ) -> (r: Result<Vec<PSP34Event>, PSP34Error>)
        requires
            old(self).wf(),
        ensures
            final(self).wf(),
            match id {
                None => {
                    &&& emits(
                        r,
                        seq![PSP34Event::Approval(Approval { owner: caller, operator, id, approved })],
                    )
                    &&& final(self)@ == old(self)@.with_approval(caller, operator, None, approved)
                },
                Some(i) => {
                    let s = old(self)@;
                    if !s.owners.contains_key(i.model()) {
                        fails(r, PSP34Error::TokenNotExists) && final(self)@ == s
                    } else if approved && s.owners[i.model()] == operator {
                        fails(r, PSP34Error::SelfApprove) && final(self)@ == s
                    } else if s.owners[i.model()] != caller && !s.allowed(
                        s.owners[i.model()],
                        caller,
                        None,
                    ) {
                        fails(r, PSP34Error::NotApproved) && final(self)@ == s
                    } else if !approved && s.allowed(s.owners[i.model()], operator, None) {
                        &&& r matches Err(PSP34Error::Custom(message))
                        &&& message@ == partial_revoke_message()
                        &&& final(self)@ == s
                    } else {
                        let owner = s.owners[i.model()];
                        &&& emits(
                            r,
                            seq![PSP34Event::Approval(Approval { owner, operator, id, approved })],
                        )
                        &&& final(self)@ == s.with_approval(owner, operator, Some(i.model()), approved)
                    }
                },
            },
    {
        let mut owner = caller;
        if let Some(i) = &id {
            owner = match self.owner_of(i) {
                Some(o) => o,
                None => {
                    return Err(PSP34Error::TokenNotExists);
                },
            };
            if approved && owner == operator {
                return Err(PSP34Error::SelfApprove);
            }
            if owner != caller && !self.allowance(owner, caller, None) {
                return Err(PSP34Error::NotApproved);
            }
            if !approved && self.allowance(owner, operator, None) {
                proof {
                    reveal_strlit(
                        "Cannot revoke approval for a single token, when the operator has approval for all tokens.",
                    );
                }
                return Err(
                    PSP34Error::Custom(
                        "Cannot revoke approval for a single token, when the operator has approval for all tokens.".to_owned(),
                    ),
                );
            }
        }
        let key = (owner, operator, id.duplicate());
        let ghost km = key.model();
        if approved {
            self.operator_approvals.insert(key, ());
            assert(self@.approvals =~= old(self)@.approvals.insert(km));
        } else {
            let _ = self.operator_approvals.remove(&key);
            assert(self@.approvals =~= old(self)@.approvals.remove(km));
        }
        assert(self@.owners == old(self)@.owners);
        assert(self@.lists == old(self)@.lists);
        let events = vec![PSP34Event::Approval(Approval { owner, operator, id, approved })];
        assert(events@ =~= seq![PSP34Event::Approval(Approval { owner, operator, id, approved })]);
        Ok(events)
    }

    /// Hands token `id` to `to`; `caller` must own it or be approved for it.
    /// The event names `caller` as the sender. `_data` is not inspected.
    pub fn transfer(&mut self, caller: AccountId, to: AccountId, id: Id, _data: Vec<u8>) -> (r: Result<
        Vec<PSP34Event>,
        PSP34Error,
    >)
        requires
            old(self).wf(),
        ensures
            final(self).wf(),
            ({
                let s = old(self)@;
                let i = id.model();
                if !s.owners.contains_key(i) {
                    fails(r, PSP34Error::TokenNotExists) && final(self)@ == s
                } else if s.owners[i] == to {
                    emits(r, seq![]) && final(self)@ == s
                } else if s.owners[i] != caller && !s.allowed(s.owners[i], caller, Some(i)) {
                    fails(r, PSP34Error::NotApproved) && final(self)@ == s
                } else {
                    &&& emits(
                        r,
                        seq![PSP34Event::Transfer(Transfer { from: Some(caller), to: Some(to), id })],
                    )
                    &&& final(self)@ == s.transferred(s.owners[i], caller, to, i)
                }
            }),
    {
        let owner = match self.owner_of(&id) {
            Some(o) => o,
            None => {
                return Err(PSP34Error::TokenNotExists);
            },
        };
        if owner == to {
            return Ok(Vec::new());
        }
        if owner != caller && !self.allowance(owner, caller, Some(&id)) {
            return Err(PSP34Error::NotApproved);
        }
        let ghost s = self@;
        let ghost i = id.model();
        self.balance.decrease_balance(&owner, &id, false);
        let approval = (owner, caller, Some(id.duplicate()));
        let _ = self.operator_approvals.remove(&approval);
        let _ = self.token_owner.remove(&id);
        self.token_owner.insert(id.duplicate(), to);
        self.balance.increase_balance(&to, &id, false);
        proof {
            lemma_transfer_consistent(s, owner, caller, to, i);
            let t = s.transferred(owner, caller, to, i);
            assert(self@.owners =~= t.owners);
            assert(self@.approvals =~= t.approvals);
            assert(self@.lists =~= t.lists);
        }
        let events = vec![PSP34Event::Transfer(Transfer { from: Some(caller), to: Some(to), id })];
        assert(events@ =~= seq![PSP34Event::Transfer(Transfer { from: Some(caller), to: Some(to), id })]);
        Ok(events)
    }

    /// Creates token `id`, owned by `account`.
    pub fn mint(&mut self, account: AccountId, id: Id) -> (r: Result<Vec<PSP34Event>, PSP34Error>)
        requires
            old(self).wf(),
        ensures
            final(self).wf(),
            if old(self)@.owners.contains_key(id.model()) {
                fails(r, PSP34Error::TokenExists) && final(self)@ == old(self)@
            } else {
                &&& emits(
                    r,
                    seq![PSP34Event::Transfer(Transfer { from: None, to: Some(account), id })],
                )
                &&& final(self)@ == old(self)@.minted(account, id.model())
            },
    {
        if self.owner_of(&id).is_some() {
            return Err(PSP34Error::TokenExists);
        }
        let ghost s = self@;
        self.balance.increase_balance(&account, &id, true);
        self.token_owner.insert(id.duplicate(), account);
        proof {
            lemma_mint_consistent(s, account, id.model());
            let t = s.minted(account, id.model());
            assert(self@.approvals =~= t.approvals);
            assert(self@.lists =~= t.lists);
        }
        let events = vec![PSP34Event::Transfer(Transfer { from: None, to: Some(account), id })];
        assert(events@ =~= seq![PSP34Event::Transfer(Transfer { from: None, to: Some(account), id })]);
        Ok(events)
    }

    /// Destroys token `id` of `account`; `caller` must be `account` or hold a
    /// blanket approval from it (an approval for the single token does not
    /// suffice).
    pub fn burn(&mut self, caller: AccountId, account: AccountId, id: Id) -> (r: Result<
        Vec<PSP34Event>,
        PSP34Error,
    >)
        requires
            old(self).wf(),
        ensures
            final(self).wf(),
            ({
                let s = old(self)@;
                let i = id.model();
                if !s.owners.contains_key(i) {
                    fails(r, PSP34Error::TokenNotExists) && final(self)@ == s
                } else if s.owners[i] != account || (caller != account && !s.allowed(
                    account,
                    caller,
                    None,
                )) {
                    fails(r, PSP34Error::NotApproved) && final(self)@ == s
                } else {
                    &&& emits(
                        r,
                        seq![PSP34Event::Transfer(Transfer { from: Some(account), to: None, id })],
                    )
                    &&& final(self)@ == s.burned(account, i)
                }
            }),
    {
        let owner = match self.owner_of(&id) {
            Some(o) => o,
            None => {
                return Err(PSP34Error::TokenNotExists);
            },
        };
        if owner != account || (account != caller && !self.allowance(account, caller, None)) {
            return Err(PSP34Error::NotApproved);
        }
        let ghost s = self@;
        self.balance.decrease_balance(&account, &id, true);
        let _ = self.token_owner.remove(&id);
        proof {
            lemma_burn_consistent(s, account, id.model());
            let t = s.burned(account, id.model());
            assert(self@.approvals =~= t.approvals);
            assert(self@.lists =~= t.lists);
        }
        let events = vec![PSP34Event::Transfer(Transfer { from: Some(account), to: None, id })];
        assert(events@ =~= seq![PSP34Event::Transfer(Transfer { from: Some(account), to: None, id })]);
        Ok(events)
    }

    /// The `index`-th token of `owner`.
    pub fn owners_token_by_index(&self, owner: AccountId, index: u128) -> (r: Result<Id, PSP34Error>)
        requires
            self.wf(),
        ensures
            if index < self@.lists[Some(owner)].len() {
                r matches Ok(id) && id.model() == self@.lists[Some(owner)][index as int]
            } else {
                r == Err::<Id, PSP34Error>(PSP34Error::TokenNotExists)
            },
    {
        self.balance.owners_token_by_index(owner, index)
    }

    /// The `index`-th minted token.
    pub fn token_by_index(&self, index: u128) -> (r: Result<Id, PSP34Error>)
        requires
            self.wf(),
        ensures
            if index < self@.lists[None].len() {
                r matches Ok(id) && id.model() == self@.lists[None][index as int]
            } else {
                r == Err::<Id, PSP34Error>(PSP34Error::TokenNotExists)
            },
    {
        self.balance.token_by_index(index)
    }
}

/// The message of the error that `approve` returns where a single-token
/// revocation would contradict a blanket approval.
pub open spec fn partial_revoke_message() -> Seq<char> {
    "Cannot revoke approval for a single token, when the operator has approval for all tokens."@
}

} // verus!
