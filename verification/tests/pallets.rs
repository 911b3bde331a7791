use state_machine::balances;
use state_machine::proof_of_existence;
use state_machine::system;
use state_machine::table::Table;
use state_machine::utils::DispatchError;

fn name(s: &str) -> String {
    s.to_string()
}

#[test]
fn table_starts_empty() {
    let t: Table<u32> = Table::new();
    assert_eq!(t.get(&name("a")), None);
}

#[test]
fn table_insert_then_get() {
    let mut t: Table<u32> = Table::new();
    t.insert(name("a"), 1);
    t.insert(name("b"), 2);
    assert_eq!(t.get(&name("a")), Some(&1));
    assert_eq!(t.get(&name("b")), Some(&2));
    assert_eq!(t.get(&name("c")), None);
}

#[test]
fn table_insert_replaces() {
    let mut t: Table<u32> = Table::new();
    t.insert(name("a"), 1);
    t.insert(name("b"), 2);
    t.insert(name("a"), 7);
    assert_eq!(t.get(&name("a")), Some(&7));
    assert_eq!(t.get(&name("b")), Some(&2));
    assert_eq!(t.remove(&name("a")), Some(7));
    assert_eq!(t.get(&name("a")), None);
}

#[test]
fn table_remove() {
    let mut t: Table<u32> = Table::new();
    t.insert(name("a"), 1);
    t.insert(name("b"), 2);
    t.insert(name("c"), 3);
    assert_eq!(t.remove(&name("b")), Some(2));
    assert_eq!(t.remove(&name("b")), None);
    assert_eq!(t.get(&name("a")), Some(&1));
    assert_eq!(t.get(&name("b")), None);
    assert_eq!(t.get(&name("c")), Some(&3));
}

#[test]
fn system_starts_at_zero() {
    let s = system::Pallet::new();
    assert_eq!(s.block_number(), 0);
    assert_eq!(s.nonce(&name("alice")), 0);
}

#[test]
fn system_counts_blocks() {
    let mut s = system::Pallet::new();
    s.inc_block_number();
    assert_eq!(s.block_number(), 1);
    s.inc_block_number();
    s.inc_block_number();
    assert_eq!(s.block_number(), 3);
}

#[test]
fn system_counts_nonces_per_account() {
    let mut s = system::Pallet::new();
    s.inc_nonce(&name("alice"));
    s.inc_nonce(&name("alice"));
    s.inc_nonce(&name("bob"));
    assert_eq!(s.nonce(&name("alice")), 2);
    assert_eq!(s.nonce(&name("bob")), 1);
    assert_eq!(s.nonce(&name("carol")), 0);
    assert_eq!(s.block_number(), 0);
}

#[test]
fn balance_of_unknown_account_is_zero() {
    let b = balances::Pallet::new();
    assert_eq!(b.balance(&name("alice")), 0);
}

#[test]
fn set_balance_overwrites() {
    let mut b = balances::Pallet::new();
    b.set_balance(&name("alice"), 100);
    assert_eq!(b.balance(&name("alice")), 100);
    b.set_balance(&name("alice"), 30);
    assert_eq!(b.balance(&name("alice")), 30);
    assert_eq!(b.balance(&name("bob")), 0);
}

#[test]
fn transfer_moves_the_amount() {
    let mut b = balances::Pallet::new();
    b.set_balance(&name("alice"), 100);
    assert_eq!(b.transfer(name("alice"), name("bob"), 51), Ok(()));
    assert_eq!(b.balance(&name("alice")), 49);
    assert_eq!(b.balance(&name("bob")), 51);
}

#[test]
fn transfer_of_everything() {
    let mut b = balances::Pallet::new();
    b.set_balance(&name("alice"), 100);
    b.set_balance(&name("bob"), 5);
    assert_eq!(b.transfer(name("alice"), name("bob"), 100), Ok(()));
    assert_eq!(b.balance(&name("alice")), 0);
    assert_eq!(b.balance(&name("bob")), 105);
}

#[test]
fn transfer_of_nothing() {
    let mut b = balances::Pallet::new();
    assert_eq!(b.transfer(name("alice"), name("bob"), 0), Ok(()));
    assert_eq!(b.balance(&name("alice")), 0);
    assert_eq!(b.balance(&name("bob")), 0);
}

#[test]
fn insufficient_funds() {
    let mut b = balances::Pallet::new();
    b.set_balance(&name("alice"), 100);
    assert_eq!(
        b.transfer(name("alice"), name("bob"), 150),
        Err(DispatchError::InsufficientBalance)
    );
    assert_eq!(b.balance(&name("alice")), 100);
    assert_eq!(b.balance(&name("bob")), 0);
}

#[test]
fn transfer_from_unknown_account() {
    let mut b = balances::Pallet::new();
    b.set_balance(&name("bob"), 10);
    assert_eq!(
        b.transfer(name("alice"), name("bob"), 1),
        Err(DispatchError::InsufficientBalance)
    );
    assert_eq!(b.balance(&name("bob")), 10);
}

#[test]
fn transfer_overflow() {
    let mut b = balances::Pallet::new();
    b.set_balance(&name("alice"), 10);
    b.set_balance(&name("bob"), u128::MAX - 4);
    assert_eq!(b.transfer(name("alice"), name("bob"), 5), Err(DispatchError::Overflow));
    assert_eq!(b.balance(&name("alice")), 10);
    assert_eq!(b.balance(&name("bob")), u128::MAX - 4);
    assert_eq!(b.transfer(name("alice"), name("bob"), 4), Ok(()));
    assert_eq!(b.balance(&name("alice")), 6);
    assert_eq!(b.balance(&name("bob")), u128::MAX);
}

#[test]
fn insufficient_funds_is_judged_before_overflow() {
    let mut b = balances::Pallet::new();
    b.set_balance(&name("alice"), 1);
    b.set_balance(&name("bob"), u128::MAX);
    assert_eq!(
        b.transfer(name("alice"), name("bob"), 2),
        Err(DispatchError::InsufficientBalance)
    );
}

#[test]
fn self_transfer_keeps_the_balance() {
    let mut b = balances::Pallet::new();
    b.set_balance(&name("alice"), 100);
    assert_eq!(b.transfer(name("alice"), name("alice"), 40), Ok(()));
    assert_eq!(b.balance(&name("alice")), 100);
    assert_eq!(b.transfer(name("alice"), name("alice"), 100), Ok(()));
    assert_eq!(b.balance(&name("alice")), 100);
    assert_eq!(
        b.transfer(name("alice"), name("alice"), 101),
        Err(DispatchError::InsufficientBalance)
    );
    assert_eq!(b.balance(&name("alice")), 100);
}

#[test]
fn self_transfer_at_the_upper_limit() {
    let mut b = balances::Pallet::new();
    b.set_balance(&name("alice"), u128::MAX);
    assert_eq!(b.transfer(name("alice"), name("alice"), u128::MAX), Ok(()));
    assert_eq!(b.balance(&name("alice")), u128::MAX);
}

#[test]
fn successful_transfers_conserve_the_sum() {
    let names = ["alice", "bob", "carol"];
    let mut b = balances::Pallet::new();
    b.set_balance(&name("alice"), 1000);
    b.set_balance(&name("bob"), 200);
    let steps: [(&str, &str, u128); 6] = [
        ("alice", "bob", 300),
        ("bob", "carol", 450),
        ("carol", "alice", 1),
        ("carol", "carol", 10),
        ("bob", "alice", 50),
        ("alice", "carol", 751),
    ];
    for (from, to, amount) in steps {
        assert_eq!(b.transfer(name(from), name(to), amount), Ok(()));
        let sum: u128 = names.iter().map(|n| b.balance(&name(n))).sum();
        assert_eq!(sum, 1200);
    }
    assert_eq!(b.balance(&name("alice")), 0);
    assert_eq!(b.balance(&name("bob")), 0);
    assert_eq!(b.balance(&name("carol")), 1200);
}

#[test]
fn balances_dispatch_transfers() {
    let mut b = balances::Pallet::new();
    b.set_balance(&name("alice"), 100);
    let call = balances::Call::Transfer { to: name("bob"), amount: 30 };
    assert_eq!(b.dispatch(name("alice"), call), Ok(()));
    assert_eq!(b.balance(&name("alice")), 70);
    assert_eq!(b.balance(&name("bob")), 30);
    let call = balances::Call::Transfer { to: name("bob"), amount: 71 };
    assert_eq!(b.dispatch(name("alice"), call), Err(DispatchError::InsufficientBalance));
}

#[test]
fn unclaimed_content_has_no_owner() {
    let p = proof_of_existence::Pallet::new();
    assert_eq!(p.get_claim(&name("x")), None);
}

#[test]
fn claim_exclusivity() {
    let mut p = proof_of_existence::Pallet::new();
    assert_eq!(p.create_claim(name("A"), name("x")), Ok(()));
    assert_eq!(p.create_claim(name("B"), name("x")), Err(DispatchError::ClaimAlreadyExists));
    assert_eq!(p.get_claim(&name("x")), Some(&name("A")));
}

#[test]
fn claim_twice_by_the_owner() {
    let mut p = proof_of_existence::Pallet::new();
    assert_eq!(p.create_claim(name("A"), name("x")), Ok(()));
    assert_eq!(p.create_claim(name("A"), name("x")), Err(DispatchError::ClaimAlreadyExists));
    assert_eq!(p.create_claim(name("A"), name("y")), Ok(()));
    assert_eq!(p.get_claim(&name("y")), Some(&name("A")));
}

#[test]
fn revoke_authorization() {
    let mut p = proof_of_existence::Pallet::new();
    assert_eq!(p.create_claim(name("A"), name("x")), Ok(()));
    assert_eq!(p.revoke_claim(name("B"), name("x")), Err(DispatchError::NotClaimOwner));
    assert_eq!(p.get_claim(&name("x")), Some(&name("A")));
    assert_eq!(p.revoke_claim(name("A"), name("x")), Ok(()));
    assert_eq!(p.get_claim(&name("x")), None);
    assert_eq!(p.create_claim(name("C"), name("x")), Ok(()));
    assert_eq!(p.get_claim(&name("x")), Some(&name("C")));
}

#[test]
fn revoke_of_unclaimed_content() {
    let mut p = proof_of_existence::Pallet::new();
    assert_eq!(p.revoke_claim(name("A"), name("x")), Err(DispatchError::ClaimNotExists));
    assert_eq!(p.create_claim(name("A"), name("y")), Ok(()));
    assert_eq!(p.revoke_claim(name("A"), name("x")), Err(DispatchError::ClaimNotExists));
    assert_eq!(p.get_claim(&name("y")), Some(&name("A")));
}

#[test]
fn claims_dispatch() {
    let mut p = proof_of_existence::Pallet::new();
    let create = proof_of_existence::Call::CreateClaim { claim: name("x") };
    assert_eq!(p.dispatch(name("A"), create), Ok(()));
    assert_eq!(p.get_claim(&name("x")), Some(&name("A")));
    let revoke = proof_of_existence::Call::RevokeClaim { claim: name("x") };
    assert_eq!(p.dispatch(name("B"), revoke), Err(DispatchError::NotClaimOwner));
    let revoke = proof_of_existence::Call::RevokeClaim { claim: name("x") };
    assert_eq!(p.dispatch(name("A"), revoke), Ok(()));
    assert_eq!(p.get_claim(&name("x")), None);
}

#[test]
fn error_messages() {
    assert_eq!(
        DispatchError::BlockNumberMismatch.message(),
        "block number does not match what is expected"
    );
    assert_eq!(DispatchError::InsufficientBalance.message(), "Not enough funds.");
    assert_eq!(DispatchError::Overflow.message(), "Overflow");
    assert_eq!(DispatchError::ClaimAlreadyExists.message(), "this content is already claimed");
    assert_eq!(DispatchError::ClaimNotExists.message(), "claim does not exist");
    assert_eq!(DispatchError::NotClaimOwner.message(), "this content is owned by someone else");
}
