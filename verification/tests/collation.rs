use integritee_parachain::collation::{
    assemble_collation, build_collation, check_block_status, proposal_size_limit, request_fate, slot_authoring_answer, slot_authoring_request_fate, slot_and_timestamp, BlockStatus,
    CollationStep, RequestFate, StepResult, UpwardMessages,
};

#[test]
fn only_imported_blocks_with_state_are_built_on() {
    assert!(check_block_status(Some(BlockStatus::InChainWithState)));
    for s in [BlockStatus::Queued, BlockStatus::InChainPruned, BlockStatus::KnownBad, BlockStatus::Unknown] {
        assert!(!check_block_status(Some(s)));
    }
    assert!(!check_block_status(None));
}

#[test]
fn proposals_take_half_the_pov() {
    assert_eq!(proposal_size_limit(5 * 1024 * 1024), 2621440);
    assert_eq!(proposal_size_limit(7), 3);
    assert_eq!(proposal_size_limit(u32::MAX), 2147483647);
}

#[test]
fn slot_follows_the_relay_parent() {
    // A relay slot of 6 s at relay slot 100 is 600 s; parachain slots of 12 s.
    assert_eq!(slot_and_timestamp(6000, 100, 12000), (50, 600000));
    assert_eq!(slot_and_timestamp(6000, 101, 12000), (50, 606000));
}

#[test]
fn failed_steps_answer_and_missing_parents_abandon() {
    assert_eq!(request_fate(CollationStep::DecodeParent, StepResult::Failed), RequestFate::AnswerEmpty);
    assert_eq!(request_fate(CollationStep::Import, StepResult::Failed), RequestFate::AnswerEmpty);
    assert_eq!(request_fate(CollationStep::CheckParent, StepResult::Nothing), RequestFate::Abandon);
    assert_eq!(request_fate(CollationStep::RelayParentHeader, StepResult::Nothing), RequestFate::Abandon);
    assert_eq!(request_fate(CollationStep::ClaimSlot, StepResult::Nothing), RequestFate::Abandon);
    assert_eq!(request_fate(CollationStep::BuildCollation, StepResult::Nothing), RequestFate::AnswerEmpty);
    assert_eq!(request_fate(CollationStep::Propose, StepResult::Done), RequestFate::Proceed);
}

#[test]
fn collations_carry_the_block_and_its_messages() {
    let c = assemble_collation(vec![1, 2], vec![3], UpwardMessages::Decoded(vec![vec![7], vec![8]]), Some(vec![5])).unwrap();
    assert_eq!(c.fees, 0);
    assert_eq!(c.block_data, vec![1, 2]);
    assert_eq!(c.head_data, vec![3]);
    assert_eq!(c.upward_messages, vec![vec![7], vec![8]]);
    assert_eq!(c.new_validation_code, Some(vec![5]));
    let c = assemble_collation(vec![1], vec![3], UpwardMessages::Absent, None).unwrap();
    assert!(c.upward_messages.is_empty());
    assert!(c.new_validation_code.is_none());
    assert!(assemble_collation(vec![1], vec![3], UpwardMessages::Undecodable, None).is_none());
}

#[test]
fn slot_authoring_answers_every_request() {
    assert_eq!(slot_authoring_request_fate(StepResult::Done), RequestFate::Proceed);
    assert_eq!(slot_authoring_request_fate(StepResult::Nothing), RequestFate::AnswerEmpty);
    assert_eq!(slot_authoring_request_fate(StepResult::Failed), RequestFate::AnswerEmpty);
}

#[test]
fn collations_decode_the_queued_upward_messages() {
    // Two messages, [7] and [8, 9], each with its compact length prefix.
    let c = build_collation(vec![1], vec![3], Some(vec![8, 4, 7, 8, 8, 9]), None).unwrap();
    assert_eq!(c.upward_messages, vec![vec![7], vec![8, 9]]);
    assert_eq!(c.block_data, vec![1]);
    assert_eq!(c.head_data, vec![3]);
    let c = build_collation(vec![1], vec![3], None, Some(vec![5])).unwrap();
    assert!(c.upward_messages.is_empty());
    assert_eq!(c.new_validation_code, Some(vec![5]));
    // One message announced, but its bytes are missing.
    assert!(build_collation(vec![1], vec![3], Some(vec![4, 8]), None).is_none());
}

#[test]
fn slot_authoring_completes_failures_without_a_collation() {
    let c = build_collation(vec![1], vec![3], None, None);
    let answer = slot_authoring_answer::<String>(Ok(c));
    assert_eq!(answer.unwrap().block_data, vec![1]);
    assert!(slot_authoring_answer::<String>(Ok(None)).is_none());
    assert!(slot_authoring_answer(Err(String::from("no authorities"))).is_none());
}
