use tipjar::composable_nft::{NftBook, NftError};
use tipjar::did::{DidError, DidMethod, DidRegistry};
use tipjar::ledger::Address;
use tipjar::reputation_tokens::{self, ReputationBook};
use tipjar::verifiable_credentials::{CredentialError, CredentialRegistry, CredentialStatus};

// ── DID tests ────────────────────────────────────────────────────────────────

#[test]
fn test_did_register() {
    let mut reg = DidRegistry::new();
    let owner = Address(100);

    let id = reg.register_did(0, owner, "did:stellar:GABC".to_string(), DidMethod::Stellar);

    assert_eq!(id, 0);
    let record = reg.get_did(id).unwrap();
    assert_eq!(record.owner, owner);
    assert!(record.active);
}

#[test]
fn test_did_register_multiple() {
    let mut reg = DidRegistry::new();
    let owner = Address(100);

    let id0 = reg.register_did(0, owner, "did:web:example.com".to_string(), DidMethod::Web);
    let id1 = reg.register_did(0, owner, "did:key:z6Mk".to_string(), DidMethod::Key);

    assert_eq!(id0, 0);
    assert_eq!(id1, 1);

    let ids = reg.get_owner_dids(owner);
    assert_eq!(ids.len(), 2);
}

#[test]
fn test_did_update() {
    let mut reg = DidRegistry::new();
    let owner = Address(100);

    let id = reg.register_did(0, owner, "did:stellar:old".to_string(), DidMethod::Stellar);
    reg.update_did(0, owner, id, "did:stellar:new".to_string()).unwrap();

    let record = reg.get_did(id).unwrap();
    assert_eq!(record.did_string, "did:stellar:new");
}

#[test]
fn test_did_add_and_get_claim() {
    let mut reg = DidRegistry::new();
    let owner = Address(100);

    let did_id = reg.register_did(0, owner, "did:stellar:GABC".to_string(), DidMethod::Stellar);
    let claim_id = reg.add_claim(0, did_id, "email".to_string(), "user@example.com".to_string());

    let claim = reg.get_claim(claim_id).unwrap();
    assert_eq!(claim.did_id, did_id);
    assert!(!claim.verified);

    let claim_ids = reg.get_did_claims(did_id);
    assert_eq!(claim_ids.len(), 1);
}

#[test]
fn test_did_verify_claim() {
    let mut reg = DidRegistry::new();
    let owner = Address(100);
    let verifier = Address(101);

    let did_id = reg.register_did(0, owner, "did:stellar:GABC".to_string(), DidMethod::Stellar);
    let claim_id = reg.add_claim(0, did_id, "kyc".to_string(), "passed".to_string());

    reg.verify_claim(verifier, claim_id).unwrap();

    let claim = reg.get_claim(claim_id).unwrap();
    assert!(claim.verified);
    assert_eq!(claim.verifier, Some(verifier));
}

#[test]
fn did_update_errors_by_cause() {
    let mut reg = DidRegistry::new();
    let owner = Address(100);
    assert_eq!(reg.update_did(5, owner, 0, "x".to_string()).unwrap_err(), DidError::DidNotFound);
    let id = reg.register_did(3, owner, "did:web:a".to_string(), DidMethod::Web);
    assert_eq!(reg.update_did(5, Address(7), id, "x".to_string()).unwrap_err(), DidError::Unauthorized);
    assert_eq!(reg.verify_claim(owner, 9).unwrap_err(), DidError::ClaimNotFound);
    reg.update_did(5, owner, id, "did:web:b".to_string()).unwrap();
    let d = reg.get_did(id).unwrap();
    assert_eq!(d.created_at, 3);
    assert_eq!(d.updated_at, 5);
    assert_eq!(d.method, DidMethod::Web);
    assert!(reg.get_did(id + 1).is_none());
}

// ── Verifiable credential tests ──────────────────────────────────────────────

#[test]
fn test_vc_issue() {
    let mut reg = CredentialRegistry::new();
    let issuer = Address(100);
    let subject = Address(101);

    let id = reg.issue_credential(0, issuer, subject, "TipAchievement".to_string(), r#"{"level":"gold"}"#.to_string(), None);

    assert_eq!(id, 0);
    let vc = reg.get_credential(id).unwrap();
    assert_eq!(vc.issuer, issuer);
    assert_eq!(vc.subject, subject);
    assert_eq!(vc.status, CredentialStatus::Active);
}

#[test]
fn test_vc_verify_active() {
    let mut reg = CredentialRegistry::new();
    let issuer = Address(100);
    let subject = Address(101);

    let id = reg.issue_credential(0, issuer, subject, "schema".to_string(), "data".to_string(), None);

    assert!(reg.verify_credential(0, id));
}

#[test]
fn test_vc_verify_expired() {
    let mut reg = CredentialRegistry::new();
    let issuer = Address(100);
    let subject = Address(101);

    // Issue with expiry in the past
    let id = reg.issue_credential(0, issuer, subject, "schema".to_string(), "data".to_string(), Some(1));

    // Advance time
    let now = 1000;

    assert!(!reg.verify_credential(now, id));
}

#[test]
fn test_vc_revoke() {
    let mut reg = CredentialRegistry::new();
    let issuer = Address(100);
    let subject = Address(101);

    let id = reg.issue_credential(0, issuer, subject, "schema".to_string(), "data".to_string(), None);

    reg.revoke_credential(issuer, id).unwrap();

    let vc = reg.get_credential(id).unwrap();
    assert_eq!(vc.status, CredentialStatus::Revoked);
    assert!(!reg.verify_credential(0, id));
}

#[test]
fn test_vc_subject_and_issuer_lists() {
    let mut reg = CredentialRegistry::new();
    let issuer = Address(100);
    let subject = Address(101);

    reg.issue_credential(0, issuer, subject, "s".to_string(), "d".to_string(), None);
    reg.issue_credential(0, issuer, subject, "s2".to_string(), "d2".to_string(), None);

    let subject_creds = reg.get_subject_credentials(subject);
    assert_eq!(subject_creds.len(), 2);

    let issuer_creds = reg.get_issuer_credentials(issuer);
    assert_eq!(issuer_creds.len(), 2);
}

#[test]
fn vc_expiry_is_inclusive_and_revocation_refusals() {
    let mut reg = CredentialRegistry::new();
    let issuer = Address(100);
    let id = reg.issue_credential(0, issuer, Address(101), "s".to_string(), "d".to_string(), Some(50));
    assert!(reg.verify_credential(50, id));
    assert!(!reg.verify_credential(51, id));
    assert!(!reg.verify_credential(0, id + 1));
    assert_eq!(reg.revoke_credential(Address(7), id).unwrap_err(), CredentialError::Unauthorized);
    assert_eq!(reg.revoke_credential(issuer, 99).unwrap_err(), CredentialError::CredentialNotFound);
    reg.revoke_credential(issuer, id).unwrap();
    assert_eq!(reg.revoke_credential(issuer, id).unwrap_err(), CredentialError::NotActive);
    for t in [0, 10, 50, 1_000_000] {
        assert!(!reg.verify_credential(t, id));
    }
}

// ── Reputation token tests ───────────────────────────────────────────────────

#[test]
fn test_rep_mint_increases_score() {
    let mut book = ReputationBook::new();
    let account = Address(100);

    book.mint(0, account, 1_000_000);

    let score = book.get_score(0, account);
    assert!(score > 0);
}

#[test]
fn test_rep_mint_accumulates() {
    let mut book = ReputationBook::new();
    let account = Address(100);

    book.mint(0, account, 1_000_000);
    book.mint(0, account, 1_000_000);

    let token = book.get_token(0, account);
    assert!(token.total_minted > 0);
}

#[test]
fn test_rep_decay_reduces_score() {
    let mut book = ReputationBook::new();
    let account = Address(100);

    book.mint(0, account, 10_000_000);
    let score_before = book.get_score(0, account);

    // Advance time by one half-life
    let now = reputation_tokens::HALF_LIFE_SECS;

    book.decay(now, account);
    let score_after = book.get_score(now, account);

    assert!(score_after < score_before);
}

#[test]
fn test_rep_apply_decay_zero_elapsed() {
    assert_eq!(reputation_tokens::apply_decay(1_000_000, 0), 1_000_000);
}

#[test]
fn test_rep_apply_decay_one_half_life() {
    let decayed = reputation_tokens::apply_decay(2_000_000, reputation_tokens::HALF_LIFE_SECS);
    assert_eq!(decayed, 1_000_000);
}

#[test]
fn test_rep_history_recorded() {
    let mut book = ReputationBook::new();
    let account = Address(100);

    book.mint(0, account, 1_000_000);

    let history = book.get_history(account);
    assert!(history.len() > 0);
}

#[test]
fn test_rep_no_transfer() {
    // Reputation tokens are non-transferable: there is no transfer function.
    // This test verifies that minting one account does not affect another.
    let mut book = ReputationBook::new();
    let a = Address(100);
    let b = Address(101);

    book.mint(0, a, 5_000_000);

    let score_b = book.get_score(0, b);
    assert_eq!(score_b, 0);
}

#[test]
fn rep_mint_awards_score_per_unit() {
    let mut book = ReputationBook::new();
    let account = Address(100);
    book.mint(0, account, 1_000);
    assert_eq!(book.get_score(0, account), 1_000 * reputation_tokens::SCORE_PER_UNIT);
    assert_eq!(book.get_token(0, account).total_minted, 1_000_000);
}

#[test]
fn rep_apply_decay_values() {
    let h = reputation_tokens::HALF_LIFE_SECS;
    // Negative scores decay to zero at once.
    assert_eq!(reputation_tokens::apply_decay(-5, 0), 0);
    assert_eq!(reputation_tokens::apply_decay(-5, 10), 0);
    // Two half-lives: a quarter.
    assert_eq!(reputation_tokens::apply_decay(4_000_000, 2 * h), 1_000_000);
    // Half a half-life: linear part, s - s * rem / (2 * h) = 4_000_000 - 1_000_000.
    assert_eq!(reputation_tokens::apply_decay(4_000_000, h / 2), 3_000_000);
    // One and a half: halve, then the linear part.
    assert_eq!(reputation_tokens::apply_decay(4_000_000, h + h / 2), 1_500_000);
    // Small scores reach zero.
    assert_eq!(reputation_tokens::apply_decay(1, 2 * h), 0);
}

#[test]
fn rep_mint_records_gain_then_decay() {
    let mut book = ReputationBook::new();
    let account = Address(100);
    book.mint(0, account, 4); // gain 4 * 1_000
    let h = reputation_tokens::HALF_LIFE_SECS;
    book.mint(h, account, 1); // decays to 2_000, then gains 1_000
    let token = book.get_token(h, account);
    assert_eq!(token.score, 3_000);
    assert_eq!(token.total_minted, 5_000);
    assert_eq!(token.total_decayed, 2_000);
    assert_eq!(token.last_updated, h);
    let hist = book.get_history(account);
    assert_eq!(hist.len(), 3);
    assert_eq!(hist[1].delta, 1_000);
    assert!(!hist[1].is_decay);
    assert_eq!(hist[1].score_after, 3_000);
    assert_eq!(hist[2].delta, -2_000);
    assert!(hist[2].is_decay);
    assert_eq!(hist[2].score_after, 2_000);
}

#[test]
fn rep_history_keeps_the_latest_twenty() {
    let mut book = ReputationBook::new();
    let account = Address(100);
    for i in 1..=25i128 {
        book.mint(0, account, i);
    }
    let hist = book.get_history(account);
    assert_eq!(hist.len(), reputation_tokens::HISTORY_SIZE as usize);
    assert_eq!(hist[0].delta, 6_000);
    assert_eq!(hist[19].delta, 25_000);
}

#[test]
fn rep_decay_without_elapsed_time_changes_nothing() {
    let mut book = ReputationBook::new();
    let account = Address(100);
    book.mint(10, account, 2);
    book.decay(10, account);
    assert_eq!(book.get_history(account).len(), 1);
    assert_eq!(book.get_token(10, account).score, 2_000);
    // Decay after one half-life halves the score and records it.
    let h = reputation_tokens::HALF_LIFE_SECS;
    book.decay(10 + h, account);
    let t = book.get_token(10 + h, account);
    assert_eq!(t.score, 1_000);
    assert_eq!(t.total_decayed, 1_000);
    assert_eq!(book.get_history(account).len(), 2);
}

// ── Composable NFT tests ─────────────────────────────────────────────────────

#[test]
fn test_nft_mint() {
    let mut book = NftBook::new();
    let owner = Address(100);

    let id = book.mint(0, owner, r#"{"tip":100}"#.to_string());

    assert_eq!(id, 0);
    let nft = book.get_nft(id).unwrap();
    assert_eq!(nft.owner, owner);
    assert!(nft.active);
    assert!(nft.parent_id.is_none());
}

#[test]
fn test_nft_owner_list() {
    let mut book = NftBook::new();
    let owner = Address(100);

    book.mint(0, owner, "a".to_string());
    book.mint(0, owner, "b".to_string());

    let ids = book.get_owner_nfts(owner);
    assert_eq!(ids.len(), 2);
}

#[test]
fn test_nft_compose() {
    let mut book = NftBook::new();
    let owner = Address(100);

    let parent_id = book.mint(0, owner, "parent".to_string());
    let child_id = book.mint(0, owner, "child".to_string());

    book.compose(0, owner, parent_id, child_id).unwrap();

    let child = book.get_nft(child_id).unwrap();
    assert_eq!(child.parent_id, Some(parent_id));

    let children = book.get_children(parent_id);
    assert_eq!(children.len(), 1);
    assert_eq!(children[0], child_id);
}

#[test]
fn test_nft_decompose() {
    let mut book = NftBook::new();
    let owner = Address(100);

    let parent_id = book.mint(0, owner, "parent".to_string());
    let child_id = book.mint(0, owner, "child".to_string());

    book.compose(0, owner, parent_id, child_id).unwrap();
    book.decompose(0, owner, child_id).unwrap();

    let child = book.get_nft(child_id).unwrap();
    assert!(child.parent_id.is_none());

    let children = book.get_children(parent_id);
    assert_eq!(children.len(), 0);
}

#[test]
fn test_nft_composition_history() {
    let mut book = NftBook::new();
    let owner = Address(100);

    let parent_id = book.mint(0, owner, "parent".to_string());
    let child_id = book.mint(0, owner, "child".to_string());

    book.compose(0, owner, parent_id, child_id).unwrap();
    book.decompose(0, owner, child_id).unwrap();

    let history = book.get_composition_history(parent_id);
    assert_eq!(history.len(), 2);
    assert!(!history[0].is_decompose);
    assert!(history[1].is_decompose);
}

#[test]
fn test_nft_nested_composition() {
    let mut book = NftBook::new();
    let owner = Address(100);

    let grandparent = book.mint(0, owner, "gp".to_string());
    let parent = book.mint(0, owner, "p".to_string());
    let child = book.mint(0, owner, "c".to_string());

    book.compose(0, owner, grandparent, parent).unwrap();
    book.compose(0, owner, parent, child).unwrap();

    let p = book.get_nft(parent).unwrap();
    assert_eq!(p.parent_id, Some(grandparent));

    let c = book.get_nft(child).unwrap();
    assert_eq!(c.parent_id, Some(parent));
}

#[test]
fn nft_compose_errors_by_cause() {
    let mut book = NftBook::new();
    let owner = Address(100);
    let other = Address(101);
    let a = book.mint(0, owner, "a".to_string());
    let b = book.mint(0, owner, "b".to_string());
    let c = book.mint(0, other, "c".to_string());
    assert_eq!(book.compose(0, owner, a, a).unwrap_err(), NftError::SelfComposition);
    assert_eq!(book.compose(0, owner, 9, a).unwrap_err(), NftError::ParentNotFound);
    assert_eq!(book.compose(0, owner, a, 9).unwrap_err(), NftError::ChildNotFound);
    assert_eq!(book.compose(0, owner, c, a).unwrap_err(), NftError::NotParentOwner);
    assert_eq!(book.compose(0, owner, a, c).unwrap_err(), NftError::NotChildOwner);
    book.compose(0, owner, a, b).unwrap();
    assert_eq!(book.compose(0, owner, a, b).unwrap_err(), NftError::AlreadyComposed);
    assert_eq!(book.decompose(0, other, b).unwrap_err(), NftError::NotOwner);
    assert_eq!(book.decompose(0, owner, a).unwrap_err(), NftError::NotComposed);
    assert_eq!(book.decompose(0, owner, 9).unwrap_err(), NftError::ChildNotFound);
}

#[test]
fn nft_decompose_after_compose_restores_children() {
    let mut book = NftBook::new();
    let owner = Address(100);
    let p = book.mint(1, owner, "p".to_string());
    let x = book.mint(1, owner, "x".to_string());
    let y = book.mint(1, owner, "y".to_string());
    book.compose(2, owner, p, x).unwrap();
    let before = book.get_children(p);
    book.compose(3, owner, p, y).unwrap();
    book.decompose(4, owner, y).unwrap();
    assert_eq!(book.get_children(p), before);
    assert!(book.get_nft(y).unwrap().parent_id.is_none());
    assert_eq!(book.get_nft(y).unwrap().metadata, "y");
    let h = book.get_composition_history(p);
    assert_eq!(h.len(), 3);
    assert_eq!(h[1].child_id, y);
    assert_eq!(h[1].timestamp, 3);
    assert_eq!(h[2].timestamp, 4);
}

#[test]
fn rep_decay_over_half_lives_and_in_time() {
    let h = reputation_tokens::HALF_LIFE_SECS;
    for k in 0..5u64 {
        assert_eq!(reputation_tokens::apply_decay(1_000_000, k * h), 1_000_000 >> k);
    }
    let mut last = reputation_tokens::apply_decay(999_999, 0);
    for e in [1, h / 3, h - 1, h, h + 1, 2 * h + 7, 10 * h] {
        let now = reputation_tokens::apply_decay(999_999, e);
        assert!(now <= last);
        last = now;
    }
}
