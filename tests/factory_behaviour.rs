use token_factory::{Address, Error, FactoryState, TokenFactory};

fn addr(id: u64) -> Address {
    Address { id }
}

fn factory_with_token(supply: i128) -> (TokenFactory, Address) {
    let mut f = TokenFactory::new();
    f.initialize(addr(1), addr(2), 10, 5).unwrap();
    let x = f
        .create_token(addr(1), "Coin".to_string(), "COIN".to_string(), 7, supply, addr(100), 42)
        .unwrap();
    (f, x)
}

#[test]
fn scenario_initialize_create_burn() {
    let mut f = TokenFactory::new();
    assert_eq!(f.initialize(addr(1), addr(2), 10, 5), Ok(()));
    assert_eq!(
        f.get_state(),
        FactoryState { admin: addr(1), treasury: addr(2), base_fee: 10, metadata_fee: 5 }
    );
    let x = f
        .create_token(addr(1), "Coin".to_string(), "COIN".to_string(), 7, 1000, addr(100), 42)
        .unwrap();
    assert_eq!(x, addr(100));
    let info = f.get_token_info_by_address(x);
    assert_eq!(info.total_supply, 1000);
    assert_eq!(info.name, "Coin");
    assert_eq!(info.symbol, "COIN");
    assert_eq!(info.decimals, 7);
    assert_eq!(info.created_at, 42);
    assert_eq!(info.metadata_uri, None);
    assert_eq!(f.burn(x, addr(3), 300), Ok(()));
    let info = f.get_token_info_by_address(x);
    assert_eq!(info.total_supply, 700);
    assert_eq!(info.total_burned, 300);
    assert_eq!(info.burn_count, 1);
}

#[test]
fn second_initialize_fails_and_keeps_state() {
    let mut f = TokenFactory::new();
    f.initialize(addr(1), addr(2), 10, 5).unwrap();
    assert_eq!(f.initialize(addr(9), addr(8), 1, 1), Err(Error::AlreadyInitialized));
    assert_eq!(f.initialize(addr(9), addr(8), -1, -1), Err(Error::AlreadyInitialized));
    assert_eq!(
        f.get_state(),
        FactoryState { admin: addr(1), treasury: addr(2), base_fee: 10, metadata_fee: 5 }
    );
}

#[test]
fn initialize_rejects_negative_fees() {
    let mut f = TokenFactory::new();
    assert_eq!(f.initialize(addr(1), addr(2), -1, 5), Err(Error::InvalidParameters));
    assert_eq!(f.initialize(addr(1), addr(2), 10, -5), Err(Error::InvalidParameters));
    assert_eq!(f.initialize(addr(1), addr(2), 0, 0), Ok(()));
}

#[test]
fn update_fees_by_non_admin_is_unauthorized() {
    let mut f = TokenFactory::new();
    f.initialize(addr(1), addr(2), 10, 5).unwrap();
    assert_eq!(f.update_fees(addr(2), Some(20), Some(30)), Err(Error::Unauthorized));
    assert_eq!(f.update_fees(addr(3), None, None), Err(Error::Unauthorized));
    assert_eq!(f.update_fees(addr(3), Some(-1), None), Err(Error::Unauthorized));
    assert_eq!(f.get_state().base_fee, 10);
    assert_eq!(f.get_state().metadata_fee, 5);
}

#[test]
fn update_fees_by_admin() {
    let mut f = TokenFactory::new();
    f.initialize(addr(1), addr(2), 10, 5).unwrap();
    assert_eq!(f.update_fees(addr(1), Some(20), None), Ok(()));
    assert_eq!(f.get_state().base_fee, 20);
    assert_eq!(f.get_state().metadata_fee, 5);
    assert_eq!(f.update_fees(addr(1), None, Some(7)), Ok(()));
    assert_eq!(f.get_state().base_fee, 20);
    assert_eq!(f.get_state().metadata_fee, 7);
    assert_eq!(f.update_fees(addr(1), None, None), Ok(()));
    assert_eq!(f.get_state().base_fee, 20);
    assert_eq!(f.get_state().metadata_fee, 7);
}

#[test]
fn update_fees_rejects_negative_without_partial_write() {
    let mut f = TokenFactory::new();
    f.initialize(addr(1), addr(2), 10, 5).unwrap();
    assert_eq!(f.update_fees(addr(1), Some(50), Some(-1)), Err(Error::InvalidParameters));
    assert_eq!(f.update_fees(addr(1), Some(-3), None), Err(Error::InvalidParameters));
    assert_eq!(f.get_state().base_fee, 10);
    assert_eq!(f.get_state().metadata_fee, 5);
}

#[test]
fn create_token_rejects_negative_supply() {
    let mut f = TokenFactory::new();
    let r = f.create_token(addr(1), "A".to_string(), "A".to_string(), 0, -1, addr(100), 0);
    assert_eq!(r, Err(Error::InvalidParameters));
    assert_eq!(f.get_token_count(), 0);
}

#[test]
fn tokens_are_indexed_in_creation_order() {
    let mut f = TokenFactory::new();
    f.create_token(addr(1), "A".to_string(), "A".to_string(), 0, 5, addr(100), 1).unwrap();
    f.create_token(addr(2), "B".to_string(), "B".to_string(), 2, 6, addr(101), 2).unwrap();
    assert_eq!(f.get_token_count(), 2);
    assert_eq!(f.get_token_info(0).unwrap().address, addr(100));
    assert_eq!(f.get_token_info(1).unwrap().address, addr(101));
    assert_eq!(f.get_token_info(1).unwrap().creator, addr(2));
    assert_eq!(f.get_token_info(2), Err(Error::TokenNotFound));
    assert_eq!(f.find_token(addr(101)), Some(1));
    assert_eq!(f.find_token(addr(999)), None);
}

#[test]
fn duplicate_address_resolves_to_first_index() {
    let mut f = TokenFactory::new();
    f.create_token(addr(1), "A".to_string(), "A".to_string(), 0, 5, addr(100), 1).unwrap();
    f.create_token(addr(2), "B".to_string(), "B".to_string(), 0, 9, addr(100), 2).unwrap();
    assert_eq!(f.find_token(addr(100)), Some(0));
    assert_eq!(f.burn(addr(100), addr(3), 5), Ok(()));
    assert_eq!(f.get_token_info(0).unwrap().total_supply, 0);
    assert_eq!(f.get_token_info(1).unwrap().total_supply, 9);
}

#[test]
fn zero_supply_token_rejects_positive_burn() {
    let (mut f, x) = factory_with_token(0);
    assert_eq!(f.get_token_info_by_address(x).total_supply, 0);
    assert_eq!(f.burn(x, addr(3), 1), Err(Error::InvalidBurnAmount));
    assert_eq!(f.burn(x, addr(3), 0), Err(Error::InvalidBurnAmount));
    let info = f.get_token_info_by_address(x);
    assert_eq!(info.total_supply, 0);
    assert_eq!(info.total_burned, 0);
    assert_eq!(info.burn_count, 0);
}

#[test]
fn burn_rejects_non_positive_and_excess_amounts() {
    let (mut f, x) = factory_with_token(10);
    assert_eq!(f.burn(x, addr(3), 0), Err(Error::InvalidBurnAmount));
    assert_eq!(f.burn(x, addr(3), -4), Err(Error::InvalidBurnAmount));
    assert_eq!(f.burn(x, addr(3), 11), Err(Error::InvalidBurnAmount));
    assert_eq!(f.burn(x, addr(3), 10), Ok(()));
    let info = f.get_token_info_by_address(x);
    assert_eq!(info.total_supply, 0);
    assert_eq!(info.total_burned, 10);
    assert_eq!(info.burn_count, 1);
}

#[test]
fn supply_is_conserved_and_counts_grow() {
    let (mut f, x) = factory_with_token(100);
    let mut last_burned = 0;
    let mut last_count = 0;
    for amount in [1i128, 0, 20, 500, 79, 1] {
        let _ = f.burn(x, addr(3), amount);
        let info = f.get_token_info_by_address(x);
        assert_eq!(info.total_supply + info.total_burned, 100);
        assert!(info.total_supply >= 0);
        assert!(info.total_burned >= last_burned);
        assert!(info.burn_count >= last_count);
        last_burned = info.total_burned;
        last_count = info.burn_count;
    }
    let info = f.get_token_info_by_address(x);
    assert_eq!(info.total_supply, 0);
    assert_eq!(info.burn_count, 3);
}

#[test]
fn admin_burn_needs_the_creator() {
    let (mut f, x) = factory_with_token(100);
    assert_eq!(f.admin_burn(x, addr(2), addr(3), 10), Err(Error::Unauthorized));
    assert_eq!(f.admin_burn(x, addr(2), addr(3), -10), Err(Error::Unauthorized));
    assert_eq!(f.get_token_info_by_address(x).total_supply, 100);
    assert_eq!(f.admin_burn(x, addr(1), addr(3), 0), Err(Error::InvalidBurnAmount));
    assert_eq!(f.admin_burn(x, addr(1), addr(3), 10), Ok(()));
    let info = f.get_token_info_by_address(x);
    assert_eq!(info.total_supply, 90);
    assert_eq!(info.burn_count, 1);
}

#[test]
fn batch_stops_at_first_failure_keeping_earlier_burns() {
    let (mut f, x) = factory_with_token(100);
    let burns = vec![(addr(10), 5i128), (addr(11), -1), (addr(12), 3)];
    assert_eq!(f.burn_batch(x, burns), Err(Error::InvalidBurnAmount));
    let info = f.get_token_info_by_address(x);
    assert_eq!(info.total_supply, 95);
    assert_eq!(info.total_burned, 5);
    assert_eq!(info.burn_count, 1);
}

#[test]
fn batch_applies_every_burn_in_order() {
    let (mut f, x) = factory_with_token(100);
    let burns = vec![(addr(10), 5i128), (addr(11), 15), (addr(12), 80)];
    assert_eq!(f.burn_batch(x, burns), Ok(()));
    let info = f.get_token_info_by_address(x);
    assert_eq!(info.total_supply, 0);
    assert_eq!(info.total_burned, 100);
    assert_eq!(info.burn_count, 3);
    assert_eq!(f.burn_batch(x, Vec::new()), Ok(()));
    assert_eq!(f.get_token_info_by_address(x).burn_count, 3);
}

#[test]
fn non_positive_burn_on_unknown_address_is_invalid() {
    let (mut f, x) = factory_with_token(100);
    assert_eq!(f.burn(addr(999), addr(3), 0), Err(Error::InvalidBurnAmount));
    assert_eq!(f.burn(addr(999), addr(3), -7), Err(Error::InvalidBurnAmount));
    assert_eq!(f.get_token_info_by_address(x).total_supply, 100);
    assert_eq!(f.get_token_count(), 1);
}

#[test]
fn batch_on_unknown_address() {
    let (mut f, x) = factory_with_token(100);
    assert_eq!(f.burn_batch(addr(999), Vec::new()), Ok(()));
    assert_eq!(f.burn_batch(addr(999), vec![(addr(10), 0i128), (addr(11), 5)]), Err(Error::InvalidBurnAmount));
    let info = f.get_token_info_by_address(x);
    assert_eq!(info.total_supply, 100);
    assert_eq!(info.burn_count, 0);
}

#[test]
fn authorize_admin_burn_checks_the_creator() {
    let (f, x) = factory_with_token(100);
    assert_eq!(f.authorize_admin_burn(x, addr(1)), Ok(()));
    assert_eq!(f.authorize_admin_burn(x, addr(2)), Err(Error::Unauthorized));
}
