use integritee_parachain::announce::{
    announces_with, JustifiedBlockAnnounceValidator, bytes_equal, check_candidate, justification_statement, signer_index, AnnounceError, GossipMessage,
    Statement,
};

#[test]
fn valid_if_no_data() {
    assert!(matches!(justification_statement(0, None), Ok(None)));
}

#[test]
fn the_justification_must_be_a_gossip_statement() {
    assert_eq!(justification_statement(3, None).err().unwrap(), AnnounceError::CannotDecode);
    assert_eq!(justification_statement(3, Some(GossipMessage::Other)).err().unwrap(), AnnounceError::NotAStatement);
    let r = justification_statement(3, Some(GossipMessage::Statement { statement: Statement::Valid, sender: 2 }));
    match r {
        Ok(Some((Statement::Valid, 2))) => {},
        _ => panic!("expected the statement"),
    }
}

#[test]
fn the_signer_must_be_a_validator() {
    assert_eq!(signer_index(false, 4, 0), Err(AnnounceError::SigningContext));
    assert_eq!(signer_index(true, 4, 3), Ok(3));
    assert_eq!(signer_index(true, 4, 4), Err(AnnounceError::SignerOutOfBounds));
    assert_eq!(signer_index(true, 0, 0), Err(AnnounceError::SignerOutOfBounds));
}

#[test]
fn the_candidate_must_justify_the_header() {
    let header = vec![1, 2, 3];
    assert_eq!(check_candidate(false, &Statement::Candidate(header.clone()), &header), Err(AnnounceError::InvalidSignature));
    assert_eq!(check_candidate(true, &Statement::Candidate(header.clone()), &header), Ok(()));
    assert_eq!(check_candidate(true, &Statement::Candidate(vec![1, 2]), &header), Err(AnnounceError::HeaderMismatch));
    assert_eq!(check_candidate(true, &Statement::Valid, &header), Err(AnnounceError::NotACandidate));
    assert_eq!(
        AnnounceError::HeaderMismatch.message(),
        "block announced header does not match the one justified"
    );
}

#[test]
fn only_own_candidates_are_announced() {
    let head = vec![4, 5];
    assert!(announces_with(&Statement::Candidate(vec![4, 5]), &head));
    assert!(!announces_with(&Statement::Candidate(vec![4, 6]), &head));
    assert!(!announces_with(&Statement::Valid, &head));
    assert!(bytes_equal(&vec![], &vec![]));
    assert!(!bytes_equal(&vec![1], &vec![]));
}

#[test]
fn the_signer_is_looked_up_in_the_validator_set() {
    let v = JustifiedBlockAnnounceValidator::new(vec![[1; 32], [2; 32]]);
    assert_eq!(v.signer(true, 1), Ok([2; 32]));
    assert_eq!(v.signer(true, 2), Err(AnnounceError::SignerOutOfBounds));
    assert_eq!(v.signer(false, 0), Err(AnnounceError::SigningContext));
}
