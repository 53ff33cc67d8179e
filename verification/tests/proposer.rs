use integritee_parachain::proposer::{proposal_outcome, Proposer, ProposerError};

#[test]
fn proposer_wraps_its_environment() {
    let p: Proposer<u8, &str> = Proposer::new("env");
    assert_eq!(p.inner, "env");
}

#[test]
fn first_failing_step_decides_the_error() {
    let ok: Result<(), String> = Ok(());
    assert_eq!(
        proposal_outcome::<u32>(Err("no env".to_string()), Err("x".to_string()), Ok(1)),
        Err(ProposerError::ProposerCreation("no env".to_string()))
    );
    assert_eq!(
        proposal_outcome::<u32>(ok.clone(), Err("inherent".to_string()), Ok(1)),
        Err(ProposerError::Proposing("inherent".to_string()))
    );
    assert_eq!(
        proposal_outcome::<u32>(ok.clone(), ok.clone(), Err("propose".to_string())),
        Err(ProposerError::Proposing("propose".to_string()))
    );
    assert_eq!(proposal_outcome::<u32>(ok.clone(), ok, Ok(5)), Ok(5));
}
