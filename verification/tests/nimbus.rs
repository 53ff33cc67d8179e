use integritee_parachain::nimbus::{
    author_step, choose_author, is_nimbus, nimbus_id, seal_logs, signature_verdict, split_nimbus_seal, AuthorChoice, AuthorStep, DigestItem,
    VerifyError,
};

const AURA: [u8; 4] = *b"aura";

fn consensus(id: [u8; 4], data: &[u8]) -> DigestItem {
    DigestItem::Consensus(id, data.to_vec())
}

#[test]
fn the_engine_id_is_nmbs() {
    assert_eq!(nimbus_id(), *b"nmbs");
    assert!(is_nimbus(b"nmbs"));
    assert!(!is_nimbus(&AURA));
}

#[test]
fn sealing_then_splitting_gives_back_the_parts() {
    let mut logs = vec![
        DigestItem::PreRuntime(AURA, vec![1]),
        consensus(AURA, b"other"),
        consensus(*b"nmbs", b"alice"),
        consensus(*b"nmbs", b"bob"),
    ];
    seal_logs(&mut logs, vec![9, 9, 9]);
    assert_eq!(logs.len(), 5);
    let parts = split_nimbus_seal(logs).unwrap();
    assert_eq!(parts.signature, vec![9, 9, 9]);
    assert_eq!(parts.claimed_author, b"alice".to_vec());
    assert_eq!(parts.pre_seal_logs.len(), 4);
}

#[test]
fn a_header_without_a_nimbus_seal_is_refused() {
    let logs = vec![consensus(*b"nmbs", b"alice"), DigestItem::Seal(AURA, vec![1])];
    assert_eq!(split_nimbus_seal(logs).err().unwrap(), VerifyError::HeaderUnsealed);
    let logs = vec![consensus(*b"nmbs", b"alice"), DigestItem::Other(vec![1])];
    assert_eq!(split_nimbus_seal(logs).err().unwrap(), VerifyError::HeaderUnsealed);
    assert_eq!(VerifyError::HeaderUnsealed.message(), "HeaderUnsealed");
}

#[test]
fn an_invalid_signature_is_refused() {
    assert!(signature_verdict(true).is_ok());
    assert_eq!(signature_verdict(false), Err(VerifyError::InvalidSignature));
    assert_eq!(VerifyError::InvalidSignature.message(), "Block signature invalid");
}

#[test]
fn the_first_eligible_key_authors() {
    assert_eq!(choose_author(&vec![]), AuthorChoice::NoKeys);
    assert_eq!(choose_author(&vec![false, false]), AuthorChoice::NotEligible);
    assert_eq!(choose_author(&vec![false, true, true]), AuthorChoice::Key(1));
    assert_eq!(choose_author(&vec![true]), AuthorChoice::Key(0));
}

#[test]
fn the_author_search_stops_at_the_first_eligible_key() {
    assert_eq!(author_step(3, 0, false), AuthorStep::Ask(1));
    assert_eq!(author_step(3, 1, true), AuthorStep::Author(1));
    assert_eq!(author_step(3, 2, false), AuthorStep::NotEligible);
}
