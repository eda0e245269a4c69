use imbue_governance::fellowship::{EnsureFellowshipRole, Role, RoleToPercentFee};
use imbue_governance::types::{AccountId, BadOrigin};

fn alice() -> AccountId {
    AccountId::new([1; 32])
}

fn bob() -> AccountId {
    AccountId::new([2; 32])
}

#[test]
fn ensure_role_in_works() {
    let mut roster = EnsureFellowshipRole::new();
    roster.set_role(alice(), Role::Vetter);
    roster.set_role(bob(), Role::Freelancer);

    assert_eq!(roster.ensure_role_in(&alice(), vec![Role::Vetter, Role::Freelancer]), Ok(()));
    assert_eq!(roster.ensure_role_in(&bob(), vec![Role::Vetter, Role::Freelancer]), Ok(()));
    assert!(
        roster.ensure_role_in(&bob(), vec![Role::Approver]).is_err(),
        "BOB is not of this Role."
    );
    assert!(
        roster.ensure_role_in(&alice(), vec![Role::Freelancer]).is_err(),
        "ALICE is not of this Role."
    );
}

#[test]
fn ensure_role_works() {
    let mut roster = EnsureFellowshipRole::new();
    roster.set_role(alice(), Role::Vetter);
    assert_eq!(roster.ensure_role(&alice(), Role::Vetter), Ok(()));
    assert!(roster.ensure_role(&alice(), Role::Freelancer).is_err());
}

#[test]
fn freelancer_to_vetter_works() {
    let mut roster = EnsureFellowshipRole::new();
    roster.set_vetter(alice(), bob());
    let v = roster.maybe_convert(&alice()).expect("we just inserted so should be there.");
    assert_eq!(v, bob());
    assert!(roster.maybe_convert(&bob()).is_none());
}

#[test]
fn an_account_without_a_role_is_refused() {
    let mut roster = EnsureFellowshipRole::new();
    assert_eq!(roster.ensure_role(&alice(), Role::Vetter), Err(BadOrigin));
    assert_eq!(roster.ensure_role_in(&alice(), vec![Role::Vetter]), Err(BadOrigin));
    assert_eq!(roster.role_of(&alice()), None);
    roster.set_role(alice(), Role::Vetter);
    assert_eq!(roster.ensure_role_in(&alice(), vec![]), Err(BadOrigin));
    // a new role takes the place of the old one
    roster.set_role(alice(), Role::BusinessDev);
    assert_eq!(roster.role_of(&alice()), Some(Role::BusinessDev));
    assert_eq!(roster.ensure_role(&alice(), Role::Vetter), Err(BadOrigin));
    assert_eq!(roster.ensure_role(&alice(), Role::BusinessDev), Ok(()));
}

#[test]
fn every_role_pays_half() {
    for role in [Role::Vetter, Role::Freelancer, Role::BusinessDev, Role::Approver] {
        assert_eq!(RoleToPercentFee::convert(role), 50);
    }
}
