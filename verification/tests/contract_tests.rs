use std::collections::HashMap;

use tipjar::contract::{Role, TipJarContract, TipJarError};
use tipjar::ledger::{Address, Transfer};

/// The contract's own account on the token ledger.
const CONTRACT: Address = Address(1);

/// Token balances held outside the contract's records, moved by the
/// transfers that the contract's operations hand back.
struct Tokens {
    balances: HashMap<(u64, u64), i128>,
}

impl Tokens {
    fn new() -> Self {
        Tokens { balances: HashMap::new() }
    }

    fn mint(&mut self, token: Address, to: Address, amount: i128) {
        *self.balances.entry((token.0, to.0)).or_insert(0) += amount;
    }

    fn balance(&self, token: Address, who: Address) -> i128 {
        *self.balances.get(&(token.0, who.0)).unwrap_or(&0)
    }

    fn apply(&mut self, t: Transfer) {
        match t {
            Transfer::Deposit { token, from, amount } => {
                assert!(self.balance(token, from) >= amount, "insufficient balance");
                self.mint(token, from, -amount);
                self.mint(token, CONTRACT, amount);
            }
            Transfer::Payout { token, to, amount } => {
                self.mint(token, CONTRACT, -amount);
                self.mint(token, to, amount);
            }
        }
    }
}

/// Returns (contract, token_id_1, token_id_2, admin).
fn setup() -> (TipJarContract, Address, Address, Address) {
    let token_id_1 = Address(10);
    let token_id_2 = Address(11);
    let admin = Address(2);
    let mut c = TipJarContract::new();
    c.init(admin).unwrap();
    c.add_token(admin, token_id_1).unwrap();
    (c, token_id_1, token_id_2, admin)
}

#[test]
fn test_tipping_functionality_multi_token() {
    let (mut c, token_id_1, token_id_2, admin) = setup();
    let mut tokens = Tokens::new();
    let sender = Address(100);
    let creator = Address(200);

    tokens.mint(token_id_1, sender, 1_000);
    tokens.mint(token_id_2, sender, 1_000);

    // Success for whitelisted token 1
    tokens.apply(c.tip(sender, creator, token_id_1, 250).unwrap());
    assert_eq!(tokens.balance(token_id_1, sender), 750);
    assert_eq!(tokens.balance(token_id_1, CONTRACT), 250);
    assert_eq!(c.get_total_tips(creator, token_id_1), 250);

    // Failure for non-whitelisted token 2
    let result = c.tip(sender, creator, token_id_2, 100);
    assert!(result.is_err());

    // Success after whitelisting token 2
    c.add_token(admin, token_id_2).unwrap();
    tokens.apply(c.tip(sender, creator, token_id_2, 300).unwrap());
    assert_eq!(tokens.balance(token_id_2, sender), 700);
    assert_eq!(c.get_total_tips(creator, token_id_2), 300);
}

#[test]
fn test_balance_tracking_and_withdraw() {
    let (mut c, token_id, _, admin) = setup();
    let mut tokens = Tokens::new();
    let sender_a = Address(100);
    let sender_b = Address(101);
    let creator = Address(200);

    tokens.mint(token_id, sender_a, 1_000);
    tokens.mint(token_id, sender_b, 1_000);

    tokens.apply(c.tip(sender_a, creator, token_id, 100).unwrap());
    tokens.apply(c.tip(sender_b, creator, token_id, 300).unwrap());

    assert_eq!(c.get_total_tips(creator, token_id), 400);
    assert_eq!(c.get_withdrawable_balance(creator, token_id), 400);

    // Grant Creator role so withdraw passes role check
    c.grant_role(admin, creator, Role::Creator).unwrap();
    tokens.apply(c.withdraw(creator, token_id).unwrap());

    assert_eq!(c.get_withdrawable_balance(creator, token_id), 0);
    assert_eq!(tokens.balance(token_id, creator), 400);
}

#[test]
fn test_multi_token_balance_and_withdraw() {
    let (mut c, token_id_1, token_id_2, admin) = setup();
    let mut tokens = Tokens::new();
    let sender = Address(100);
    let creator = Address(200);

    c.add_token(admin, token_id_2).unwrap();
    tokens.mint(token_id_1, sender, 1_000);
    tokens.mint(token_id_2, sender, 1_000);

    tokens.apply(c.tip(sender, creator, token_id_1, 100).unwrap());
    tokens.apply(c.tip(sender, creator, token_id_2, 300).unwrap());

    assert_eq!(c.get_withdrawable_balance(creator, token_id_1), 100);
    assert_eq!(c.get_withdrawable_balance(creator, token_id_2), 300);

    // Grant Creator role so withdraw passes role check
    c.grant_role(admin, creator, Role::Creator).unwrap();

    // Withdraw token 1
    tokens.apply(c.withdraw(creator, token_id_1).unwrap());
    assert_eq!(c.get_withdrawable_balance(creator, token_id_1), 0);
    assert_eq!(tokens.balance(token_id_1, creator), 100);
    assert_eq!(c.get_withdrawable_balance(creator, token_id_2), 300);

    // Withdraw token 2
    tokens.apply(c.withdraw(creator, token_id_2).unwrap());
    assert_eq!(c.get_withdrawable_balance(creator, token_id_2), 0);
    assert_eq!(tokens.balance(token_id_2, creator), 300);
}

#[test]
#[should_panic]
fn test_invalid_tip_amount() {
    let (mut c, token_id_1, _, _) = setup();
    let mut tokens = Tokens::new();
    let sender = Address(100);
    let creator = Address(200);

    tokens.mint(token_id_1, sender, 100);
    c.tip(sender, creator, token_id_1, 0).unwrap();
}

#[test]
fn test_pause_unpause() {
    let (mut c, token_id_1, _, admin) = setup();
    let mut tokens = Tokens::new();

    c.pause(admin).unwrap();

    let sender = Address(100);
    let creator = Address(200);

    let result = c.tip(sender, creator, token_id_1, 100);
    assert!(result.is_err());

    c.unpause(admin).unwrap();

    tokens.mint(token_id_1, sender, 100);
    tokens.apply(c.tip(sender, creator, token_id_1, 100).unwrap());
    assert_eq!(c.get_total_tips(creator, token_id_1), 100);
}

#[test]
#[should_panic]
fn test_pause_admin_only() {
    let (mut c, _, _, _) = setup();
    let non_admin = Address(300);

    c.pause(non_admin).unwrap();
}

#[test]
fn test_grant_role_admin_variant() {
    let (mut c, _, _, admin) = setup();
    let target = Address(400);

    c.grant_role(admin, target, Role::Admin).unwrap();
    assert!(c.has_role(target, Role::Admin));
}

#[test]
fn test_grant_role_moderator_variant() {
    let (mut c, _, _, admin) = setup();
    let target = Address(400);

    c.grant_role(admin, target, Role::Moderator).unwrap();
    assert!(c.has_role(target, Role::Moderator));
}

#[test]
fn test_grant_role_creator_variant() {
    let (mut c, _, _, admin) = setup();
    let target = Address(400);

    c.grant_role(admin, target, Role::Creator).unwrap();
    assert!(c.has_role(target, Role::Creator));
}

#[test]
fn test_grant_role_idempotent_no_duplicate_in_role_members() {
    let (mut c, _, _, admin) = setup();
    let target = Address(400);

    // Grant the same role twice.
    c.grant_role(admin, target, Role::Moderator).unwrap();
    c.grant_role(admin, target, Role::Moderator).unwrap();

    // has_role must still be true.
    assert!(c.has_role(target, Role::Moderator));

    // The members of the role must not contain a duplicate entry.
    let members = c.get_role_members(Role::Moderator);
    let count = members.iter().filter(|a| **a == target).count();
    assert_eq!(count, 1, "target should appear exactly once in RoleMembers");
}

#[test]
fn test_revoke_role_removes_role() {
    let (mut c, _, _, admin) = setup();
    let target = Address(400);

    c.grant_role(admin, target, Role::Moderator).unwrap();
    assert!(c.has_role(target, Role::Moderator));

    c.revoke_role(admin, target).unwrap();
    assert!(!c.has_role(target, Role::Moderator));
}

#[test]
fn test_revoke_role_unassigned_returns_role_not_found() {
    let (mut c, _, _, admin) = setup();
    let target = Address(400);

    let result = c.revoke_role(admin, target);
    assert_eq!(result.unwrap_err(), TipJarError::RoleNotFound);
}

#[test]
fn test_non_admin_grant_role_returns_unauthorized() {
    let (mut c, _, _, _) = setup();
    let non_admin = Address(300);
    let target = Address(400);

    let result = c.grant_role(non_admin, target, Role::Creator);
    assert_eq!(result.unwrap_err(), TipJarError::Unauthorized);
}

#[test]
fn test_non_admin_revoke_role_returns_unauthorized() {
    let (mut c, _, _, admin) = setup();
    let non_admin = Address(300);
    let target = Address(400);

    // Give target a role so the revoke would otherwise succeed.
    c.grant_role(admin, target, Role::Creator).unwrap();

    let result = c.revoke_role(non_admin, target);
    assert_eq!(result.unwrap_err(), TipJarError::Unauthorized);
}

#[test]
fn test_moderator_can_pause_and_unpause() {
    let (mut c, _, _, admin) = setup();
    let moderator = Address(500);

    c.grant_role(admin, moderator, Role::Moderator).unwrap();

    // Should succeed without panic.
    c.pause(moderator).unwrap();
    c.unpause(moderator).unwrap();
}

#[test]
fn test_creator_cannot_pause() {
    let (mut c, _, _, admin) = setup();
    let creator = Address(200);

    c.grant_role(admin, creator, Role::Creator).unwrap();

    let result = c.pause(creator);
    assert_eq!(result.unwrap_err(), TipJarError::Unauthorized);
}

#[test]
fn test_moderator_cannot_add_token() {
    let (mut c, _, token_id_2, admin) = setup();
    let moderator = Address(500);

    c.grant_role(admin, moderator, Role::Moderator).unwrap();

    let result = c.add_token(moderator, token_id_2);
    assert_eq!(result.unwrap_err(), TipJarError::Unauthorized);
}

#[test]
fn test_non_creator_cannot_withdraw() {
    let (mut c, token_id_1, _, admin) = setup();
    let moderator = Address(500);

    c.grant_role(admin, moderator, Role::Moderator).unwrap();

    // Moderator has no Creator role — withdraw must be rejected.
    let result = c.withdraw(moderator, token_id_1);
    assert_eq!(result.unwrap_err(), TipJarError::Unauthorized);
}

#[test]
fn test_init_auto_grants_admin_role() {
    let (c, _, _, admin) = setup();

    assert!(c.has_role(admin, Role::Admin));
}

// ── Further cases ────────────────────────────────────────────────────────────

#[test]
fn init_twice_is_refused() {
    let (mut c, _, _, admin) = setup();
    assert_eq!(c.init(admin).unwrap_err(), TipJarError::AlreadyInitialized);
}

#[test]
fn tip_returns_the_deposit_it_needs() {
    let (mut c, token, _, _) = setup();
    let t = c.tip(Address(100), Address(200), token, 42).unwrap();
    assert_eq!(t, Transfer::Deposit { token, from: Address(100), amount: 42 });
}

#[test]
fn tip_errors_by_cause() {
    let (mut c, token, other, admin) = setup();
    assert_eq!(c.tip(Address(100), Address(200), token, -5).unwrap_err(), TipJarError::InvalidAmount);
    assert_eq!(c.tip(Address(100), Address(200), other, 5).unwrap_err(), TipJarError::TokenNotWhitelisted);
    c.pause(admin).unwrap();
    assert_eq!(c.tip(Address(100), Address(200), token, 5).unwrap_err(), TipJarError::ContractPaused);
    assert!(c.is_paused());
}

#[test]
fn withdraw_with_nothing_is_refused() {
    let (mut c, token, _, admin) = setup();
    let creator = Address(200);
    c.grant_role(admin, creator, Role::Creator).unwrap();
    assert_eq!(c.withdraw(creator, token).unwrap_err(), TipJarError::NothingToWithdraw);
}

#[test]
fn withdraw_pays_out_balance_and_keeps_total() {
    let (mut c, token, _, admin) = setup();
    let creator = Address(200);
    c.tip(Address(100), creator, token, 70).unwrap();
    c.grant_role(admin, creator, Role::Creator).unwrap();
    let t = c.withdraw(creator, token).unwrap();
    assert_eq!(t, Transfer::Payout { token, to: creator, amount: 70 });
    // The lifetime total stays; only the withdrawable balance goes to zero.
    assert_eq!(c.get_total_tips(creator, token), 70);
    assert_eq!(c.get_withdrawable_balance(creator, token), 0);
}

#[test]
fn remove_token_stops_tips() {
    let (mut c, token, _, admin) = setup();
    assert!(c.is_whitelisted(token));
    c.remove_token(admin, token).unwrap();
    assert!(!c.is_whitelisted(token));
    assert_eq!(c.tip(Address(100), Address(200), token, 5).unwrap_err(), TipJarError::TokenNotWhitelisted);
}

#[test]
fn message_tips_are_kept_in_order_and_long_notes_refused() {
    let (mut c, token, _, _) = setup();
    let creator = Address(200);
    c.tip_with_message(7, Address(100), creator, token, 10, "thanks".to_string(), vec![]).unwrap();
    c.tip_with_message(8, Address(101), creator, token, 20, "more".to_string(), vec![("k".to_string(), "v".to_string())])
        .unwrap();
    let msgs = c.get_messages(creator);
    assert_eq!(msgs.len(), 2);
    assert_eq!(msgs[0].message, "thanks");
    assert_eq!(msgs[0].timestamp, 7);
    assert_eq!(msgs[1].amount, 20);
    assert_eq!(c.get_total_tips(creator, token), 30);

    let long = "x".repeat(281);
    let r = c.tip_with_message(9, Address(100), creator, token, 10, long, vec![]);
    assert_eq!(r.unwrap_err(), TipJarError::MessageTooLong);
    let exact = "y".repeat(280);
    assert!(c.tip_with_message(9, Address(100), creator, token, 10, exact, vec![]).is_ok());
}

#[test]
fn revoked_member_leaves_the_member_list() {
    let (mut c, _, _, admin) = setup();
    let a = Address(600);
    let b = Address(601);
    c.grant_role(admin, a, Role::Moderator).unwrap();
    c.grant_role(admin, b, Role::Moderator).unwrap();
    assert_eq!(c.get_role_members(Role::Moderator), vec![a, b]);
    c.revoke_role(admin, a).unwrap();
    assert_eq!(c.get_role_members(Role::Moderator), vec![b]);
}

#[test]
fn balance_never_exceeds_total() {
    let (mut c, token, _, admin) = setup();
    let creator = Address(200);
    c.grant_role(admin, creator, Role::Creator).unwrap();
    for amount in [5, 10, 15] {
        c.tip(Address(100), creator, token, amount).unwrap();
        assert!(c.get_withdrawable_balance(creator, token) <= c.get_total_tips(creator, token));
    }
    c.withdraw(creator, token).unwrap();
    c.tip(Address(100), creator, token, 3).unwrap();
    assert_eq!(c.get_withdrawable_balance(creator, token), 3);
    assert_eq!(c.get_total_tips(creator, token), 33);
}
