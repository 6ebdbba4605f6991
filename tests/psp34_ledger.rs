use psp_ledger::account::AccountId;
use psp_ledger::errors::{OwnableError, PSP34Error};
use psp_ledger::id::Id;
use psp_ledger::metadata::AttributeStore;
use psp_ledger::psp34::{Approval, AttributeSet, PSP34Data, PSP34Event, Transfer};

fn account(b: u8) -> AccountId {
    AccountId::from([b; 32])
}

#[test]
fn test_display_ownable_error() {
    let error = OwnableError::NotAnOwner;
    assert_eq!(error.to_string(), "NotAnOwner");
}

#[test]
fn unit_burn_all_works() {
    let sender = account(0x2);
    let mut token = PSP34Data::new();
    let example_token_id = Id::U8(0);
    token.mint(sender, example_token_id.clone()).expect("Success expected");
    assert_eq!(token.total_supply(), 1);
    token.burn(sender, sender, example_token_id).expect("Success expected");
    assert_eq!(token.total_supply(), 0);
}

#[test]
fn unit_burn_part_of_tokens_works() {
    let sender = account(0x2);
    let mut token = PSP34Data::new();
    token.mint(sender, Id::U8(0)).expect("Success expected");
    token.mint(sender, Id::U8(1)).expect("Success expected");
    assert_eq!(token.total_supply(), 2);
    token.burn(sender, sender, Id::U8(1)).expect("Success expected");
    assert_eq!(token.total_supply(), 1);
}

#[test]
fn burn_for_not_existing_token_fails_1() {
    let sender = account(0x2);
    let mut token = PSP34Data::new();
    assert_eq!(token.total_supply(), 0);
    assert_eq!(token.burn(sender, sender, Id::U8(1)), Err(PSP34Error::TokenNotExists));
    assert_eq!(token.total_supply(), 0);
}

#[test]
fn burn_for_not_existing_token_fails_2() {
    let sender = account(0x2);
    let mut token = PSP34Data::new();
    token.mint(sender, Id::U8(0)).expect("Success expected");
    assert_eq!(token.total_supply(), 1);
    assert!(token.burn(sender, sender, Id::U8(23)).is_err());
    assert_eq!(token.total_supply(), 1);
}

#[test]
fn read_token_by_index_works() {
    let sender = account(0x2);
    let mut token = PSP34Data::new();
    token.mint(sender, Id::U8(9)).expect("Success expected");
    assert_eq!(token.token_by_index(0), Ok(Id::U8(9)));
}

#[test]
fn read_token_by_index_non_owner_works() {
    let sender = account(0x2);
    let mut token = PSP34Data::new();
    token.mint(sender, Id::U8(7)).expect("Success expected");
    assert_eq!(token.token_by_index(0), Ok(Id::U8(7)));
}

#[test]
fn read_token_by_index_unusual_index_incremental_works() {
    let sender = account(0x2);
    let mut token = PSP34Data::new();
    token.mint(sender, Id::U8(0)).expect("Success expected");
    token.mint(sender, Id::U8(10)).expect("Success expected");
    token.mint(sender, Id::U8(3)).expect("Success expected");
    assert_eq!(token.token_by_index(0), Ok(Id::U8(0)));
    assert_eq!(token.token_by_index(1), Ok(Id::U8(10)));
    assert_eq!(token.token_by_index(2), Ok(Id::U8(3)));
}

#[test]
fn read_token_by_index_fails() {
    let token = PSP34Data::new();
    assert_eq!(token.token_by_index(10), Err(PSP34Error::TokenNotExists));
}

#[test]
fn read_owners_token_by_index_works() {
    let sender = account(0x2);
    let mut token = PSP34Data::new();
    token.mint(sender, Id::U8(5)).expect("Success expected");
    assert_eq!(token.owners_token_by_index(sender, 0), Ok(Id::U8(5)));
}

#[test]
fn read_owners_token_by_index_non_owner_works() {
    let sender = account(0x2);
    let mut token = PSP34Data::new();
    token.mint(sender, Id::U8(5)).expect("Success expected");
    assert_eq!(token.owners_token_by_index(sender, 0), Ok(Id::U8(5)));
}

#[test]
fn read_owners_token_unusual_index_incremental_by_index_works() {
    let sender = account(0x2);
    let mut token = PSP34Data::new();
    token.mint(sender, Id::U8(0)).expect("Success expected");
    token.mint(sender, Id::U8(10)).expect("Success expected");
    token.mint(sender, Id::U8(3)).expect("Success expected");
    assert_eq!(token.owners_token_by_index(sender, 0), Ok(Id::U8(0)));
    assert_eq!(token.owners_token_by_index(sender, 1), Ok(Id::U8(10)));
    assert_eq!(token.owners_token_by_index(sender, 2), Ok(Id::U8(3)));
}

#[test]
fn read_owners_token_by_index_fails() {
    let sender = account(0x2);
    let token = PSP34Data::new();
    assert_eq!(token.owners_token_by_index(sender, 10), Err(PSP34Error::TokenNotExists));
}

#[test]
fn metadata_read_non_existing_token_works() {
    let store = AttributeStore::new();
    let example_id = Id::U8(0);
    assert!(store.get_attribute(example_id, "test".into()).is_none());
}

#[test]
fn metadata_read_on_existing_token_works() {
    let sender = account(0x2);
    let mut token = PSP34Data::new();
    let store = AttributeStore::new();
    let new_token_id = Id::U8(0);
    token.mint(sender, new_token_id.clone()).expect("Success expected");
    assert!(store.get_attribute(new_token_id.clone(), "test".into()).is_none());
}

#[test]
fn unit_mint_works() {
    let sender = account(0x2);
    let mut token = PSP34Data::new();
    assert_eq!(token.total_supply(), 0);
    token.mint(sender, Id::U8(0)).expect("Success expected");
    assert_eq!(token.total_supply(), 1);
}

#[test]
fn mint_used_id_same_sender_fails() {
    let sender = account(0x2);
    let mut token = PSP34Data::new();
    assert_eq!(token.total_supply(), 0);
    token.mint(sender, Id::U8(0)).expect("Success expected");
    assert!(token.mint(sender, Id::U8(0)).is_err());
    assert_eq!(token.total_supply(), 1);
}

#[test]
fn mint_then_transfer_moves_enumeration() {
    let x = account(0x1);
    let y = account(0x2);
    let mut token = PSP34Data::new();
    let events = token.mint(x, Id::U8(7)).expect("Success expected");
    assert_eq!(events, vec![PSP34Event::Transfer(Transfer { from: None, to: Some(x), id: Id::U8(7) })]);
    assert_eq!(token.owner_of(&Id::U8(7)), Some(x));
    assert_eq!(token.total_supply(), 1);
    let events = token.transfer(x, y, Id::U8(7), vec![]).expect("Success expected");
    assert_eq!(
        events,
        vec![PSP34Event::Transfer(Transfer { from: Some(x), to: Some(y), id: Id::U8(7) })]
    );
    assert_eq!(token.owner_of(&Id::U8(7)), Some(y));
    assert_eq!(token.balance_of(x), 0);
    assert_eq!(token.owners_token_by_index(x, 0), Err(PSP34Error::TokenNotExists));
    assert_eq!(token.balance_of(y), 1);
    assert_eq!(token.owners_token_by_index(y, 0), Ok(Id::U8(7)));
    assert_eq!(token.owners_token_by_index(y, 1), Err(PSP34Error::TokenNotExists));
    assert_eq!(token.total_supply(), 1);
}

#[test]
fn blanket_approval_allows_burn() {
    let x = account(0x1);
    let operator = account(0x5);
    let mut token = PSP34Data::new();
    token.mint(x, Id::U8(7)).expect("Success expected");
    let events = token.approve(x, operator, None, true).expect("Success expected");
    assert_eq!(
        events,
        vec![PSP34Event::Approval(Approval { owner: x, operator, id: None, approved: true })]
    );
    let events = token.burn(operator, x, Id::U8(7)).expect("Success expected");
    assert_eq!(events, vec![PSP34Event::Transfer(Transfer { from: Some(x), to: None, id: Id::U8(7) })]);
    assert_eq!(token.owner_of(&Id::U8(7)), None);
    assert_eq!(token.total_supply(), 0);
    assert_eq!(token.balance_of(x), 0);
}

#[test]
fn single_token_approval_does_not_allow_burn() {
    let x = account(0x1);
    let operator = account(0x5);
    let mut token = PSP34Data::new();
    token.mint(x, Id::U8(7)).expect("Success expected");
    token.approve(x, operator, Some(Id::U8(7)), true).expect("Success expected");
    assert!(token.allowance(x, operator, Some(&Id::U8(7))));
    assert!(!token.allowance(x, operator, None));
    assert_eq!(token.burn(operator, x, Id::U8(7)), Err(PSP34Error::NotApproved));
    assert_eq!(token.owner_of(&Id::U8(7)), Some(x));
    assert_eq!(token.total_supply(), 1);
}

#[test]
fn minting_twice_fails_and_changes_nothing() {
    let a = account(0x1);
    let b = account(0x2);
    let mut token = PSP34Data::new();
    token.mint(a, Id::U8(7)).expect("Success expected");
    assert_eq!(token.mint(b, Id::U8(7)), Err(PSP34Error::TokenExists));
    assert_eq!(token.mint(a, Id::U8(7)), Err(PSP34Error::TokenExists));
    assert_eq!(token.owner_of(&Id::U8(7)), Some(a));
    assert_eq!(token.total_supply(), 1);
    assert_eq!(token.balance_of(a), 1);
    assert_eq!(token.balance_of(b), 0);
    assert_eq!(token.token_by_index(0), Ok(Id::U8(7)));
    assert_eq!(token.token_by_index(1), Err(PSP34Error::TokenNotExists));
}

#[test]
fn approve_errors() {
    let a = account(0x1);
    let b = account(0x2);
    let c = account(0x3);
    let mut token = PSP34Data::new();
    assert_eq!(token.approve(a, b, Some(Id::U8(1)), true), Err(PSP34Error::TokenNotExists));
    token.mint(a, Id::U8(1)).expect("Success expected");
    assert_eq!(token.approve(a, a, Some(Id::U8(1)), true), Err(PSP34Error::SelfApprove));
    assert_eq!(token.approve(b, c, Some(Id::U8(1)), true), Err(PSP34Error::NotApproved));
    token.approve(a, b, None, true).expect("Success expected");
    assert_eq!(
        token.approve(a, b, Some(Id::U8(1)), false),
        Err(PSP34Error::Custom(String::from(
            "Cannot revoke approval for a single token, when the operator has approval for all tokens."
        )))
    );
    let events = token.approve(b, c, Some(Id::U8(1)), true).expect("Success expected");
    assert_eq!(
        events,
        vec![PSP34Event::Approval(Approval { owner: a, operator: c, id: Some(Id::U8(1)), approved: true })]
    );
    assert!(token.allowance(a, c, Some(&Id::U8(1))));
    assert!(!token.allowance(b, c, Some(&Id::U8(1))));
}

#[test]
fn approved_operator_transfer_uses_up_its_approval() {
    let a = account(0x1);
    let b = account(0x2);
    let c = account(0x3);
    let mut token = PSP34Data::new();
    token.mint(a, Id::U128(42)).expect("Success expected");
    assert_eq!(token.transfer(b, c, Id::U128(42), vec![]), Err(PSP34Error::NotApproved));
    token.approve(a, b, Some(Id::U128(42)), true).expect("Success expected");
    token.transfer(b, c, Id::U128(42), vec![]).expect("Success expected");
    assert_eq!(token.owner_of(&Id::U128(42)), Some(c));
    assert!(!token.allowance(a, b, Some(&Id::U128(42))));
    let events = token.transfer(c, c, Id::U128(42), vec![]).expect("Success expected");
    assert!(events.is_empty());
    assert_eq!(token.transfer(c, a, Id::U8(42), vec![]), Err(PSP34Error::TokenNotExists));
}

#[test]
fn burn_swaps_last_token_into_place() {
    let a = account(0x1);
    let mut token = PSP34Data::new();
    token.mint(a, Id::U8(1)).expect("Success expected");
    token.mint(a, Id::U8(2)).expect("Success expected");
    token.mint(a, Id::U8(3)).expect("Success expected");
    token.burn(a, a, Id::U8(1)).expect("Success expected");
    assert_eq!(token.token_by_index(0), Ok(Id::U8(3)));
    assert_eq!(token.token_by_index(1), Ok(Id::U8(2)));
    assert_eq!(token.owners_token_by_index(a, 0), Ok(Id::U8(3)));
    assert_eq!(token.balance_of(a), 2);
    assert_eq!(token.total_supply(), 2);
}

#[test]
fn burn_of_someone_elses_token_fails() {
    let a = account(0x1);
    let b = account(0x2);
    let mut token = PSP34Data::new();
    token.mint(a, Id::U8(1)).expect("Success expected");
    assert_eq!(token.burn(b, b, Id::U8(1)), Err(PSP34Error::NotApproved));
    assert_eq!(token.owner_of(&Id::U8(1)), Some(a));
    assert_eq!(token.total_supply(), 1);
}

#[test]
fn byte_ids_are_distinct_from_integer_ids() {
    let a = account(0x1);
    let mut token = PSP34Data::new();
    token.mint(a, Id::Bytes(vec![1, 2])).expect("Success expected");
    token.mint(a, Id::U8(1)).expect("Success expected");
    assert_eq!(token.mint(a, Id::Bytes(vec![1, 2])), Err(PSP34Error::TokenExists));
    assert_eq!(token.owner_of(&Id::Bytes(vec![1])), None);
    assert_eq!(token.total_supply(), 2);
}

#[test]
fn collection_id_is_the_account_bytes() {
    let token = PSP34Data::new();
    let me = account(0x7);
    assert_eq!(token.collection_id(me), Id::Bytes(vec![0x7; 32]));
}

#[test]
fn attributes_round_trip() {
    let mut store = AttributeStore::new();
    let events = store.set_attribute(Id::U8(3), b"name".to_vec(), b"token".to_vec()).expect("Success expected");
    assert_eq!(
        events,
        vec![PSP34Event::AttributeSet(AttributeSet {
            id: Id::U8(3),
            key: b"name".to_vec(),
            data: b"token".to_vec()
        })]
    );
    assert_eq!(store.get_attribute(Id::U8(3), b"name".to_vec()), Some(b"token".to_vec()));
    assert_eq!(store.get_attribute(Id::U16(3), b"name".to_vec()), None);
    store.set_attribute(Id::U8(3), b"name".to_vec(), b"other".to_vec()).expect("Success expected");
    assert_eq!(store.get_attribute(Id::U8(3), b"name".to_vec()), Some(b"other".to_vec()));
}

#[test]
fn supply_matches_owned_tokens_and_global_list() {
    let a = account(0x1);
    let b = account(0x2);
    let mut token = PSP34Data::new();
    token.mint(a, Id::U8(1)).expect("Success expected");
    token.mint(b, Id::U16(2)).expect("Success expected");
    token.mint(a, Id::Bytes(vec![3])).expect("Success expected");
    token.transfer(a, b, Id::U8(1), vec![]).expect("Success expected");
    token.burn(b, b, Id::U16(2)).expect("Success expected");
    assert_eq!(token.total_supply(), 2);
    assert_eq!(u128::from(token.balance_of(a) + token.balance_of(b)), token.total_supply());
    let mut listed = 0;
    while token.token_by_index(listed).is_ok() {
        listed += 1;
    }
    assert_eq!(listed, token.total_supply());
    assert_eq!(token.owners_token_by_index(b, 0), Ok(Id::U8(1)));
    assert_eq!(token.owners_token_by_index(a, 0), Ok(Id::Bytes(vec![3])));
}
