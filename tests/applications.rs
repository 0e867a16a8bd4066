use capacity_ledger::error::ServiceError;
use capacity_ledger::identity::{default_account, Identity};
use capacity_ledger::ledger::{FetchedBlock, LedgerOperation};
use capacity_ledger::minting::MintRegistry;
use capacity_ledger::applications::{Profile, ProfileStatus, ApplicationQueue};
use capacity_ledger::service::VerifiedPayment;

const FEE: u128 = 500;

fn id(b: u8) -> Identity {
    Identity::from_bytes(&[b, 9]).unwrap()
}

fn queue() -> ApplicationQueue {
    ApplicationQueue::init(id(200), id(201), id(202), FEE, id(203))
}

fn paid(index: u64, amount: u64) -> VerifiedPayment {
    VerifiedPayment { block_index: index, amount }
}

fn apply(q: &mut ApplicationQueue, who: Identity, index: u64, amount: u64) -> Result<(), ServiceError> {
    q.insert(who, paid(index, amount), "guild".to_string(), "user#1".to_string())
}

#[test]
fn application_is_filed_pending() {
    let mut q = queue();
    let a = id(1);
    assert_eq!(apply(&mut q, a, 1, 500), Ok(()));
    let p = q.get(&a).unwrap();
    assert_eq!(p.status, ProfileStatus::Pending);
    assert_eq!((p.community_name.as_str(), p.discord_account.as_str(), p.comment.as_str()), ("guild", "user#1", ""));
    assert_eq!(p.number, 0);
    assert_eq!(p.wallet_address, a);
    assert_eq!(q.precheck_charge_block(1), Err(ServiceError::BlockAlreadyUsed));
}

#[test]
fn application_below_fee_is_refused() {
    let mut q = queue();
    assert_eq!(apply(&mut q, id(1), 1, 499), Err(ServiceError::InvalidFee));
    assert!(q.profiles.is_empty());
    assert_eq!(q.precheck_charge_block(1), Ok(()));
}

#[test]
fn closed_queue_refuses_applications() {
    let mut q = queue();
    assert_eq!(q.set_closed(&id(200), true), Ok(()));
    assert_eq!(apply(&mut q, id(1), 1, 500), Err(ServiceError::Closed));
}

#[test]
fn duplicate_application_is_refused() {
    let mut q = queue();
    let a = id(1);
    apply(&mut q, a, 1, 500).unwrap();
    assert_eq!(apply(&mut q, a, 2, 500), Err(ServiceError::DuplicateWalletAddress));
    assert_eq!(q.precheck_charge_block(2), Ok(()));
}

#[test]
fn refused_application_can_be_filed_again() {
    let mut q = queue();
    let a = id(1);
    apply(&mut q, a, 1, 500).unwrap();
    assert_eq!(q.refuse(&a, "incomplete".to_string()), Ok(()));
    assert_eq!(q.get(&a).unwrap().comment, "incomplete");
    assert_eq!(apply(&mut q, a, 1, 500), Err(ServiceError::BlockAlreadyUsed));
    assert_eq!(apply(&mut q, a, 2, 600), Ok(()));
    let p = q.get(&a).unwrap();
    assert_eq!((p.status, p.comment.as_str()), (ProfileStatus::Pending, ""));
    assert_eq!(q.profiles.len(), 1);
}

#[test]
fn passing_gives_sequential_numbers() {
    let mut q = queue();
    let a = id(1);
    let b = id(2);
    apply(&mut q, a, 1, 500).unwrap();
    apply(&mut q, b, 2, 500).unwrap();
    assert_eq!(q.pass(&b), Ok(()));
    assert_eq!(q.pass(&a), Ok(()));
    assert_eq!(q.get(&b).unwrap().number, 1);
    assert_eq!(q.get(&a).unwrap().number, 2);
    assert_eq!(q.get(&a).unwrap().status, ProfileStatus::Passed);
    assert_eq!(q.pass(&id(3)), Err(ServiceError::WalletAddressNotFound));
    assert_eq!(q.last_number, 2);
}

#[test]
fn unknown_wallet_is_not_found() {
    let mut q = queue();
    assert_eq!(q.get(&id(1)), Err(ServiceError::WalletAddressNotFound));
    assert_eq!(q.refuse(&id(1), String::new()), Err(ServiceError::WalletAddressNotFound));
}

#[test]
fn profile_update_replaces_application() {
    let mut q = queue();
    let a = id(1);
    apply(&mut q, a, 1, 500).unwrap();
    let edited = Profile {
        community_name: "other".to_string(),
        discord_account: "x#2".to_string(),
        wallet_address: a,
        status: ProfileStatus::Passed,
        comment: "ok".to_string(),
        number: 9,
    };
    assert_eq!(q.update_profile(edited.clone()), Ok(()));
    assert_eq!(q.get(&a).unwrap(), edited);
    let stranger = Profile { wallet_address: id(5), ..edited };
    assert_eq!(q.update_profile(stranger), Err(ServiceError::WalletAddressNotFound));
}

#[test]
fn admin_and_owner_checks() {
    let mut q = queue();
    assert_eq!(q.check_admin(&id(201)), Ok(()));
    assert_eq!(q.check_admin(&id(200)), Err(ServiceError::InvalidCaller));
    assert_eq!(q.set_admin(&id(201), id(1)), Err(ServiceError::InvalidCaller));
    assert_eq!(q.set_admin(&id(200), id(1)), Ok(()));
    assert_eq!(q.check_admin(&id(1)), Ok(()));
    assert_eq!(q.set_fee(&id(200), 7), Ok(()));
    assert_eq!(q.set_ledger(&id(200), id(8)), Ok(()));
    assert_eq!(q.set_fee_to(&id(200), id(9)), Ok(()));
    assert_eq!((q.config.fee, q.config.ledger, q.config.fee_to), (7, id(8), id(9)));
}

#[test]
fn queue_checks_payments_to_its_recipient() {
    let q = queue();
    let a = id(1);
    let to_queue = FetchedBlock::Found(LedgerOperation::Transfer {
        from: default_account(&a),
        to: default_account(&id(203)),
        amount: 500,
    });
    assert_eq!(q.check_charge_block(&a, to_queue), Ok(500));
    let elsewhere = FetchedBlock::Found(LedgerOperation::Transfer {
        from: default_account(&a),
        to: default_account(&id(204)),
        amount: 500,
    });
    assert_eq!(q.check_charge_block(&a, elsewhere), Err(ServiceError::InvalidTransaction));
}

#[test]
fn listing_applications() {
    let mut q = queue();
    for k in 0..4u8 {
        apply(&mut q, id(k), k as u64, 500).unwrap();
    }
    let page = q.get_all(1, 2);
    assert_eq!(page.iter().map(|p| p.wallet_address).collect::<Vec<_>>(), vec![id(1), id(2)]);
    assert!(q.get_all(4, 2).is_empty());
}

#[test]
fn only_keepers_withdraw() {
    let mut m = MintRegistry::init(id(200), id(201), id(1));
    assert_eq!(m.check_withdraw(&id(1)), Ok(()));
    assert_eq!(m.check_withdraw(&id(2)), Err(ServiceError::InvalidCaller));
    assert_eq!(m.get_keepers(), vec![id(1)]);
    assert!(m.get_backers().is_empty());
    assert_eq!(m.set_closed(&id(1), true), Err(ServiceError::InvalidCaller));
    assert_eq!(m.set_closed(&id(200), true), Ok(()));
    assert_eq!(m.check_withdraw(&id(1)), Err(ServiceError::Closed));
}
