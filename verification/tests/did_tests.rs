use identity_service::did::check_did;
use identity_service::errors::http_status_for;
use identity_service::errors::Outcome;
use identity_service::errors::RejectReason;
use identity_service::orchestrator::verify_precheck;

fn bv(s: &str) -> Vec<u8> {
    s.as_bytes().to_vec()
}

#[test]
fn well_formed_dids_are_accepted() {
    assert!(check_did(&bv("did:iota:tst:0xabc")));
    assert!(check_did(&bv("did:web:example.com")));
    assert!(check_did(&bv("did:key:z6Mk")));
    assert!(check_did(&bv("did:iota:tst:0xplaceholderdidforuseratolecom")));
}

#[test]
fn malformed_dids_are_rejected() {
    assert!(!check_did(&bv("not-a-did")));
    assert!(!check_did(&bv("")));
    assert!(!check_did(&bv("did:")));
    assert!(!check_did(&bv("did::abc")));
    assert!(!check_did(&bv("did:iota")));
    assert!(!check_did(&bv("did:iota:")));
    assert!(!check_did(&bv("DID:iota:abc")));
    assert!(!check_did(&bv("did:IOTA:abc")));
    assert!(!check_did(&bv("did:iota:tst:0x abc")));
}

#[test]
fn malformed_did_precheck_rejects_before_any_resolution() {
    let r = verify_precheck(&bv("not-a-did"));
    let outcome = r.expect_err("a malformed DID must be rejected");
    assert_eq!(outcome, Outcome::Rejected(RejectReason::MalformedIdentifier));
    assert_eq!(http_status_for(outcome), 400);
}

#[test]
fn valid_did_passes_precheck() {
    assert!(verify_precheck(&bv("did:iota:tst:0xabc")).is_ok());
}
