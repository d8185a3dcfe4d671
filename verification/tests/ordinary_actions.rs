use dytallix_fast_node::ordinary_actions::{apply_action, ActionEffect, ActionFault, ClaimFunds, Transfer};
use dytallix_fast_node::ordinary_authority::{Action, Denomination, KeyIdentity, RecoveryAccount, RecoveryBook, RecoveryDomain};
use dytallix_fast_node::ordinary_logical::DiscretionaryGrant;

fn account(id: u8) -> RecoveryAccount {
    RecoveryAccount {
        address: format!("addr-{id}"),
        domain: RecoveryDomain { network: 3, chain_id: "act".to_string(), genesis_digest: [7; 32], account_id: [id; 32] },
        active_key: KeyIdentity { algorithm: "mldsa65".to_string(), public_key: vec![id; 8] },
        active_generation: 0,
        spending_nonce: 0,
        outgoing_allowed: true,
        address_id: Some([id; 32]),
    }
}

fn book() -> RecoveryBook {
    RecoveryBook { last_height: 10, structurally_valid: true, accounts: vec![account(1), account(2)] }
}

fn funds() -> ClaimFunds {
    ClaimFunds { held_udgt: 50, held_udrt: 5, remaining_udgt: 30, remaining_udrt: 9 }
}

fn grant(owner: u8, beneficiary: u8, last: u64) -> DiscretionaryGrant {
    DiscretionaryGrant { version: 1, owner: [owner; 32], beneficiary: [beneficiary; 32], owner_generation: 0, period_blocks: 4, last_active_height: last }
}

#[test]
fn send_moves_funds_between_distinct_accounts_only() {
    let mut grants = vec![];
    let mut f = funds();
    let send = Action::Send { recipient: [2; 32], denomination: Denomination::Udrt, amount: 7 };
    assert_eq!(
        apply_action(&send, &book(), "addr-1", 0, 11, &mut grants, &mut f),
        Ok(ActionEffect::Transfers(vec![Transfer {
            from: "addr-1".to_string(),
            to: "addr-2".to_string(),
            denomination: Denomination::Udrt,
            amount: 7
        }]))
    );
    let to_self = Action::Send { recipient: [1; 32], denomination: Denomination::Udgt, amount: 7 };
    assert_eq!(apply_action(&to_self, &book(), "addr-1", 0, 11, &mut grants, &mut f), Ok(ActionEffect::Transfers(vec![])));
    let unknown = Action::Send { recipient: [9; 32], denomination: Denomination::Udgt, amount: 1 };
    assert_eq!(
        apply_action(&unknown, &book(), "addr-1", 0, 11, &mut grants, &mut f),
        Err(ActionFault::Internal("Unregistered ordinary account"))
    );
    assert_eq!(apply_action(&Action::Data, &book(), "addr-9", 0, 11, &mut grants, &mut f), Err(ActionFault::Internal("Actor missing")));
    assert_eq!(apply_action(&Action::RewardClaim, &book(), "addr-1", 0, 11, &mut grants, &mut f), Ok(ActionEffect::Module));
    assert_eq!(f, funds());
}

#[test]
fn register_and_ping_update_the_actor_grant() {
    let mut grants = vec![grant(2, 1, 3)];
    let mut f = funds();
    let ping = Action::DmsPing;
    assert_eq!(apply_action(&ping, &book(), "addr-1", 5, 11, &mut grants, &mut f), Err(ActionFault::Internal("Grant disappeared")));
    let register = Action::DmsRegister { beneficiary: [2; 32], period_blocks: 6 };
    apply_action(&register, &book(), "addr-1", 5, 11, &mut grants, &mut f).unwrap();
    assert_eq!(grants[1], DiscretionaryGrant { version: 1, owner: [1; 32], beneficiary: [2; 32], owner_generation: 5, period_blocks: 6, last_active_height: 11 });
    apply_action(&ping, &book(), "addr-1", 5, 14, &mut grants, &mut f).unwrap();
    assert_eq!(grants[1].last_active_height, 14);
    assert_eq!(grants[0], grant(2, 1, 3));
}

#[test]
fn claim_waits_for_inactivity_and_takes_what_the_claims_allow() {
    let mut grants = vec![grant(2, 1, 3)];
    let mut f = funds();
    let claim = Action::DmsClaim { owner: [2; 32], expected_grant_generation: 0 };
    assert_eq!(
        apply_action(&claim, &book(), "addr-1", 0, 6, &mut grants, &mut f),
        Err(ActionFault::Rule("ACTION_STATE_PRECONDITION", "DMS_INACTIVITY_DELAY"))
    );
    assert_eq!(
        apply_action(&claim, &book(), "addr-1", 0, 7, &mut grants, &mut f),
        Ok(ActionEffect::Transfers(vec![
            Transfer { from: "addr-2".to_string(), to: "addr-1".to_string(), denomination: Denomination::Udgt, amount: 30 },
            Transfer { from: "addr-2".to_string(), to: "addr-1".to_string(), denomination: Denomination::Udrt, amount: 5 },
        ]))
    );
    assert_eq!(f, ClaimFunds { held_udgt: 50, held_udrt: 5, remaining_udgt: 0, remaining_udrt: 4 });
    let mut late = vec![DiscretionaryGrant { last_active_height: u64::MAX, ..grant(2, 1, 0) }];
    assert_eq!(
        apply_action(&claim, &book(), "addr-1", 0, 7, &mut late, &mut f),
        Err(ActionFault::Internal("Grant deadline overflow"))
    );
}
