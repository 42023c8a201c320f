use group_sim::driver::{check_group_states, next_batch_size, pick_distinct_pair};
use group_sim::engine::{
    CommitMessageBundle, MessageContent, MlsGroupCreateConfig, MlsMessageIn, Proposal,
    ProtocolMessage, RatchetTreeIn, TestError,
};
use group_sim::group::GroupState;
use group_sim::member::MemberState;
use group_sim::party::{key_package_payload, CorePartyState, PreGroupPartyState};
use openmls_traits::types::Ciphersuite;

const SUITE: Ciphersuite = Ciphersuite::MLS_128_DHKEMX25519_AES128GCM_SHA256_Ed25519;

fn pre_group(party: &mut CorePartyState) -> PreGroupPartyState {
    party.generate_pre_group(SUITE).expect("key generation")
}

fn stage(group: &mut GroupState, n: usize, at: usize, proposals: Vec<Proposal>) -> CommitMessageBundle {
    let members = group.groups_mut(n).expect("member count");
    let member = &mut members[at];
    let mut builder = member.commit_builder();
    for p in proposals {
        builder = builder.add_proposal(p);
    }
    let bundle = member.build_commit_and_stage(builder).expect("stage");
    member.merge_pending_commit().expect("merge");
    bundle
}

fn names(m: &MemberState) -> Vec<Option<String>> {
    m.members()
}

fn leaves(v: &[Option<&str>]) -> Vec<Option<String>> {
    v.iter().map(|s| s.map(|x| x.to_string())).collect()
}

fn strings(v: &[&str]) -> Vec<String> {
    v.iter().map(|s| s.to_string()).collect()
}

/// Alice creates a group and adds Bob; returns the group and the parties.
fn two_party(tree_in_welcome: bool) -> (GroupState, CorePartyState, CorePartyState) {
    let mut alice_party = CorePartyState::new("alice");
    let mut bob_party = CorePartyState::new("bob");
    let alice_pre = pre_group(&mut alice_party);
    let bob_pre = pre_group(&mut bob_party);
    let bob_key_package = bob_pre.key_package();
    let config = MlsGroupCreateConfig::new(SUITE, tree_in_welcome);
    let join_config = config.join_config();
    let mut group = GroupState::new_from_party(alice_pre, config).unwrap();
    let bundle = stage(&mut group, 1, 0, vec![Proposal::Add(bob_key_package)]);
    group
        .deliver_and_apply_if(bundle.commit(), |m| m.name() != "alice")
        .expect("deliver commit");
    let welcome = bundle.welcome().unwrap().clone();
    let tree = if tree_in_welcome {
        None
    } else {
        Some(RatchetTreeIn { roster: leaves(&[Some("alice"), Some("bob")]) })
    };
    group
        .deliver_and_apply_welcome(bob_pre, join_config, welcome, tree)
        .expect("deliver welcome");
    (group, alice_party, bob_party)
}

fn add_carol(group: &mut GroupState) {
    let mut carol_party = CorePartyState::new("carol");
    let carol_pre = pre_group(&mut carol_party);
    let config = MlsGroupCreateConfig::new(SUITE, true);
    let bundle = stage(group, 2, 0, vec![Proposal::Add(carol_pre.key_package())]);
    group
        .deliver_and_apply_if(bundle.commit(), |m| m.name() != "alice")
        .expect("deliver commit");
    group
        .deliver_and_apply_welcome(carol_pre, config.join_config(), bundle.welcome().unwrap().clone(), None)
        .expect("deliver welcome");
}

#[test]
fn simple_example() {
    let (group, _, _) = two_party(true);
    assert_eq!(group.len(), 2);
    for i in 0..2 {
        assert_eq!(group.member(i).epoch(), 1);
        assert_eq!(names(group.member(i)), leaves(&[Some("alice"), Some("bob")]));
    }
    assert!(check_group_states(&group));
}

#[test]
fn two_party_join_with_outside_tree() {
    let (group, _, _) = two_party(false);
    assert_eq!(group.len(), 2);
    assert_eq!(group.member(1).epoch(), 1);
    assert_eq!(names(group.member(1)), leaves(&[Some("alice"), Some("bob")]));
    assert!(check_group_states(&group));
}

#[test]
fn three_party_join() {
    let (mut group, _, _) = two_party(true);
    add_carol(&mut group);
    assert_eq!(group.len(), 3);
    for i in 0..3 {
        assert_eq!(group.member(i).epoch(), 2);
        assert_eq!(names(group.member(i)), leaves(&[Some("alice"), Some("bob"), Some("carol")]));
    }
    assert!(check_group_states(&group));
}

#[test]
fn remove_member() {
    let (mut group, _, _) = two_party(true);
    let bundle = stage(&mut group, 2, 0, vec![Proposal::Remove(1)]);
    assert!(bundle.welcome().is_none());
    group
        .deliver_and_apply_if(bundle.commit(), |m| m.name() != "alice" && m.name() != "bob")
        .unwrap();
    group.untrack_member(&"bob".to_string());
    assert_eq!(group.len(), 1);
    assert_eq!(group.member(0).epoch(), 2);
    assert_eq!(names(group.member(0)), leaves(&[Some("alice"), None]));
    assert_eq!(names(group.member(0)).iter().filter(|l| l.is_some()).count(), 1);
    assert!(check_group_states(&group));
}

#[test]
fn self_update() {
    let (mut group, _, _) = two_party(true);
    let bundle = stage(&mut group, 2, 0, vec![Proposal::Update]);
    group.deliver_and_apply_if(bundle.commit(), |m| m.name() != "alice").unwrap();
    for i in 0..2 {
        assert_eq!(group.member(i).epoch(), 2);
        assert_eq!(names(group.member(i)), leaves(&[Some("alice"), Some("bob")]));
    }
    assert!(check_group_states(&group));
}

#[test]
fn second_welcome_is_refused() {
    let mut alice_party = CorePartyState::new("alice");
    let mut bob_party = CorePartyState::new("bob");
    let alice_pre = pre_group(&mut alice_party);
    let bob_pre = pre_group(&mut bob_party);
    let bob_again = pre_group(&mut bob_party);
    let config = MlsGroupCreateConfig::new(SUITE, true);
    let mut group = GroupState::new_from_party(alice_pre, config).unwrap();
    let bundle = stage(&mut group, 1, 0, vec![Proposal::Add(bob_pre.key_package())]);
    let welcome = bundle.welcome().unwrap().clone();
    group
        .deliver_and_apply_welcome(bob_pre, config.join_config(), welcome.clone(), None)
        .unwrap();
    assert_eq!(group.len(), 2);
    let r = group.deliver_and_apply_welcome(bob_again, config.join_config(), welcome, None);
    assert_eq!(r, Err(TestError::JoinError));
    assert_eq!(group.len(), 2);
    assert_eq!(group.position(&"bob".to_string()), Some(1));
}

#[test]
fn untrack_leaves_other_engines_alone() {
    let (mut group, _, _) = two_party(true);
    add_carol(&mut group);
    group.untrack_member(&"bob".to_string());
    assert_eq!(group.len(), 2);
    assert_eq!(group.position(&"bob".to_string()), None);
    assert_eq!(group.member(0).name(), "alice");
    assert_eq!(group.member(1).name(), "carol");
    for i in 0..2 {
        assert_eq!(group.member(i).epoch(), 2);
        assert_eq!(names(group.member(i)), leaves(&[Some("alice"), Some("bob"), Some("carol")]));
    }
    group.untrack_member(&"dave".to_string());
    assert_eq!(group.len(), 2);
}

#[test]
fn partial_fan_out_keeps_earlier_members() {
    let (mut group, _, _) = two_party(true);
    add_carol(&mut group);
    // Only Bob hears the first update, so Carol falls an epoch behind.
    let first = stage(&mut group, 3, 0, vec![Proposal::Update]);
    group.deliver_and_apply_if(first.commit(), |m| m.name() == "bob").unwrap();
    let second = stage(&mut group, 3, 0, vec![Proposal::Update]);
    let r = group.deliver_and_apply_if(second.commit(), |m| m.name() != "alice");
    assert_eq!(r, Err(TestError::ProcessingError));
    assert_eq!(group.member(0).epoch(), 4);
    assert_eq!(group.member(1).epoch(), 4);
    assert_eq!(group.member(2).epoch(), 2);
    assert!(!check_group_states(&group));
}

#[test]
fn deliver_to_all_rejects_own_commit() {
    let (mut group, _, _) = two_party(true);
    let bundle = stage(&mut group, 2, 0, vec![Proposal::Update]);
    let r = group.deliver_and_apply(bundle.commit());
    assert_eq!(r, Err(TestError::ProcessingError));
    assert_eq!(group.member(0).epoch(), 2);
    assert_eq!(group.member(1).epoch(), 1);
}

#[test]
fn deliver_to_all_from_outside_sender() {
    let (mut group, _, _) = two_party(true);
    add_carol(&mut group);
    group.untrack_member(&"alice".to_string());
    // A commit from leaf 0, which the registry no longer holds but both rosters do.
    let bundle = MlsMessageIn::Protocol(ProtocolMessage {
        epoch: 2,
        sender: 0,
        content: MessageContent::Commit(vec![Proposal::Update]),
    });
    group.deliver_and_apply(&bundle).unwrap();
    assert_eq!(group.member(0).epoch(), 3);
    assert_eq!(group.member(1).epoch(), 3);
}

#[test]
fn non_protocol_message_is_format_error() {
    let (mut group, _, _) = two_party(true);
    let members = group.groups_mut(2).unwrap();
    let kp = MlsMessageIn::KeyPackage(group_sim::engine::KeyPackage {
        identity: "x".to_string(),
        signature_key: vec![1, 2],
        ciphersuite: 1,
        signature: vec![],
    });
    assert_eq!(members[1].deliver_and_apply(&kp), Err(TestError::MessageFormat));
    assert_eq!(members[1].epoch(), 1);
}

#[test]
fn application_data_is_unsupported() {
    let (mut group, _, _) = two_party(true);
    let members = group.groups_mut(2).unwrap();
    let m = MlsMessageIn::Protocol(ProtocolMessage {
        epoch: 1,
        sender: 0,
        content: MessageContent::ApplicationData(vec![7]),
    });
    assert_eq!(members[1].deliver_and_apply(&m), Err(TestError::Unsupported));
}

#[test]
fn stale_epoch_is_processing_error() {
    let (mut group, _, _) = two_party(true);
    let members = group.groups_mut(2).unwrap();
    let m = MlsMessageIn::Protocol(ProtocolMessage {
        epoch: 0,
        sender: 0,
        content: MessageContent::Commit(vec![]),
    });
    assert_eq!(members[1].deliver_and_apply(&m), Err(TestError::ProcessingError));
    assert_eq!(members[1].epoch(), 1);
}

#[test]
fn bad_remove_is_proposal_error() {
    let (mut group, _, _) = two_party(true);
    let members = group.groups_mut(2).unwrap();
    let builder = members[0].commit_builder().add_proposal(Proposal::Remove(5));
    assert!(matches!(members[0].build_commit_and_stage(builder), Err(TestError::ProposalError)));
    assert_eq!(members[0].merge_pending_commit(), Err(TestError::StagingError));
    assert_eq!(members[0].epoch(), 1);
}

#[test]
fn duplicate_add_is_proposal_error() {
    let (mut group, _, mut bob_party) = two_party(true);
    let bob_again = pre_group(&mut bob_party);
    let members = group.groups_mut(2).unwrap();
    let builder = members[0].commit_builder().add_proposal(Proposal::Add(bob_again.key_package()));
    assert!(matches!(members[0].build_commit_and_stage(builder), Err(TestError::ProposalError)));
}

#[test]
fn wrong_member_count_is_precondition_violation() {
    let (mut group, _, _) = two_party(true);
    assert!(matches!(group.groups_mut(3), Err(TestError::PreconditionViolation)));
}

#[test]
fn welcome_without_tree_needs_outside_tree() {
    let mut alice_party = CorePartyState::new("alice");
    let mut bob_party = CorePartyState::new("bob");
    let alice_pre = pre_group(&mut alice_party);
    let bob_pre = pre_group(&mut bob_party);
    let config = MlsGroupCreateConfig::new(SUITE, false);
    let mut group = GroupState::new_from_party(alice_pre, config).unwrap();
    let bundle = stage(&mut group, 1, 0, vec![Proposal::Add(bob_pre.key_package())]);
    let welcome = bundle.welcome().unwrap().clone();
    assert!(welcome.tree.is_none());
    assert_eq!(welcome.recipients, strings(&["bob"]));
    let r = group.deliver_and_apply_welcome(bob_pre, config.join_config(), welcome, None);
    assert_eq!(r, Err(TestError::JoinError));
    assert_eq!(group.len(), 1);
}

#[test]
fn ciphersuite_mismatch_is_join_error() {
    let mut alice_party = CorePartyState::new("alice");
    let mut bob_party = CorePartyState::new("bob");
    let alice_pre = pre_group(&mut alice_party);
    let bob_pre = pre_group(&mut bob_party);
    let config = MlsGroupCreateConfig::new(SUITE, true);
    let other = MlsGroupCreateConfig::new(
        Ciphersuite::MLS_128_DHKEMX25519_CHACHA20POLY1305_SHA256_Ed25519,
        true,
    );
    let mut group = GroupState::new_from_party(alice_pre, config).unwrap();
    let bundle = stage(&mut group, 1, 0, vec![Proposal::Add(bob_pre.key_package())]);
    let r = group.deliver_and_apply_welcome(
        bob_pre,
        other.join_config(),
        bundle.welcome().unwrap().clone(),
        None,
    );
    assert_eq!(r, Err(TestError::JoinError));
}

#[test]
fn creating_with_other_suite_is_join_error() {
    let mut alice_party = CorePartyState::new("alice");
    let alice_pre = pre_group(&mut alice_party);
    let other = MlsGroupCreateConfig::new(
        Ciphersuite::MLS_128_DHKEMX25519_CHACHA20POLY1305_SHA256_Ed25519,
        true,
    );
    assert!(matches!(GroupState::new_from_party(alice_pre, other), Err(TestError::JoinError)));
}

#[test]
fn pre_group_binds_name_key_and_suite() {
    let mut party = CorePartyState::new("alice");
    let pre = pre_group(&mut party);
    assert_eq!(pre.name, "alice");
    assert_eq!(pre.ciphersuite, 1);
    let kp = pre.key_package();
    assert_eq!(kp.identity, "alice");
    assert_eq!(kp.ciphersuite, 1);
    assert_eq!(kp.signature_key, pre.credential_with_key.signature_key);
    assert_eq!(kp.signature_key.len(), 32);
    assert!(party.read_signer(&kp.signature_key).is_some());
    assert!(party.read_signer(&vec![0u8; 32]).is_none());
}

#[test]
fn unsupported_signature_scheme_is_storage_error() {
    let mut party = CorePartyState::new("alice");
    let r = party.generate_pre_group(Ciphersuite::MLS_256_DHKEMX448_AES256GCM_SHA512_Ed448);
    assert!(matches!(r, Err(TestError::StorageError)));
}

#[test]
fn config_carries_code_point() {
    let config = MlsGroupCreateConfig::new(Ciphersuite::MLS_128_DHKEMP256_AES128GCM_SHA256_P256, false);
    assert_eq!(config.ciphersuite, 2);
    assert!(!config.join_config().use_ratchet_tree_extension);
}

#[test]
fn distinct_pair_from_draws() {
    assert_eq!(pick_distinct_pair(5, 7, 9), (2, 1));
    assert_eq!(pick_distinct_pair(5, 2, 2), (2, 3));
    assert_eq!(pick_distinct_pair(2, 1, 0), (1, 0));
    assert_eq!(pick_distinct_pair(2, 0, 0), (0, 1));
}

#[test]
fn batch_sizes() {
    assert_eq!(next_batch_size(7, 5), 5);
    assert_eq!(next_batch_size(3, 5), 3);
    assert_eq!(next_batch_size(0, 5), 0);
}

#[test]
fn key_package_payload_layout() {
    let p = key_package_payload(&"ab".to_string(), &vec![9, 8], 0x0102);
    assert_eq!(p, vec![b'a', b'b', 9, 8, 1, 2]);
}

#[test]
fn key_package_is_signed() {
    let mut party = CorePartyState::new("alice");
    let pre = pre_group(&mut party);
    assert_eq!(pre.key_package().signature.len(), 64);
    assert_eq!(pre.key_package().signature, pre.key_package.signature);
}

fn four_party() -> GroupState {
    let mut parties: Vec<CorePartyState> =
        ["alice", "bob", "carol", "dave"].iter().map(|n| CorePartyState::new(n)).collect();
    let mut pres: Vec<PreGroupPartyState> = parties.iter_mut().map(pre_group).collect();
    let config = MlsGroupCreateConfig::new(SUITE, true);
    let joiners: Vec<PreGroupPartyState> = pres.drain(1..).collect();
    let alice_pre = pres.pop().unwrap();
    let mut group = GroupState::new_from_party(alice_pre, config).unwrap();
    let adds = joiners.iter().map(|p| Proposal::Add(p.key_package())).collect();
    let bundle = stage(&mut group, 1, 0, adds);
    let welcome = bundle.welcome().unwrap().clone();
    assert_eq!(welcome.recipients, strings(&["bob", "carol", "dave"]));
    for p in joiners {
        group
            .deliver_and_apply_welcome(p, config.join_config(), welcome.clone(), None)
            .unwrap();
    }
    group
}

#[test]
fn removals_in_one_commit_name_leaves_before_it() {
    let mut group = four_party();
    assert!(check_group_states(&group));
    let bundle = stage(&mut group, 4, 0, vec![Proposal::Remove(1), Proposal::Remove(2)]);
    group.deliver_and_apply_if(bundle.commit(), |m| m.name() == "dave").unwrap();
    assert_eq!(names(group.member(0)), leaves(&[Some("alice"), None, None, Some("dave")]));
    assert_eq!(names(group.member(3)), leaves(&[Some("alice"), None, None, Some("dave")]));
    assert_eq!(group.member(3).epoch(), 2);
}

#[test]
fn duplicate_remove_is_proposal_error() {
    let mut group = four_party();
    let members = group.groups_mut(4).unwrap();
    let builder = members[0]
        .commit_builder()
        .add_proposal(Proposal::Remove(2))
        .add_proposal(Proposal::Remove(2));
    assert!(matches!(members[0].build_commit_and_stage(builder), Err(TestError::ProposalError)));
    assert!(!members[0].has_pending_commit());
}

#[test]
fn add_for_other_suite_is_proposal_error() {
    let (mut group, _, _) = two_party(true);
    let mut carol_party = CorePartyState::new("carol");
    let carol_pre = carol_party
        .generate_pre_group(Ciphersuite::MLS_128_DHKEMX25519_CHACHA20POLY1305_SHA256_Ed25519)
        .unwrap();
    assert_eq!(carol_pre.ciphersuite, 3);
    let members = group.groups_mut(2).unwrap();
    let builder = members[0].commit_builder().add_proposal(Proposal::Add(carol_pre.key_package()));
    assert!(matches!(members[0].build_commit_and_stage(builder), Err(TestError::ProposalError)));
    assert_eq!(members[0].epoch(), 1);
}

#[test]
fn addition_fills_leftmost_blank_leaf() {
    let (mut group, _, _) = two_party(true);
    add_carol(&mut group);
    let mut dave_party = CorePartyState::new("dave");
    let dave_pre = pre_group(&mut dave_party);
    let bundle = stage(
        &mut group,
        3,
        0,
        vec![Proposal::Remove(1), Proposal::Add(dave_pre.key_package())],
    );
    group
        .deliver_and_apply_if(bundle.commit(), |m| m.name() == "carol")
        .unwrap();
    group.untrack_member(&"bob".to_string());
    let config = MlsGroupCreateConfig::new(SUITE, true);
    group
        .deliver_and_apply_welcome(dave_pre, config.join_config(), bundle.welcome().unwrap().clone(), None)
        .unwrap();
    for i in 0..3 {
        assert_eq!(group.member(i).epoch(), 3);
        assert_eq!(names(group.member(i)), leaves(&[Some("alice"), Some("dave"), Some("carol")]));
    }
    assert!(check_group_states(&group));
}

#[test]
fn remove_of_blank_leaf_is_proposal_error() {
    let (mut group, _, _) = two_party(true);
    let _ = stage(&mut group, 2, 0, vec![Proposal::Remove(1)]);
    let members = group.groups_mut(2).unwrap();
    let builder = members[0].commit_builder().add_proposal(Proposal::Remove(1));
    assert!(matches!(members[0].build_commit_and_stage(builder), Err(TestError::ProposalError)));
}

#[test]
fn key_generation_for_each_supported_suite() {
    for cs in [
        Ciphersuite::MLS_128_DHKEMX25519_AES128GCM_SHA256_Ed25519,
        Ciphersuite::MLS_128_DHKEMP256_AES128GCM_SHA256_P256,
        Ciphersuite::MLS_256_DHKEMP384_AES256GCM_SHA384_P384,
    ] {
        let mut party = CorePartyState::new("p");
        let pre = party.generate_pre_group(cs).unwrap();
        assert!(!pre.key_package.signature.is_empty());
        assert!(party.read_signer(&pre.credential_with_key.signature_key).is_some());
    }
    let mut party = CorePartyState::new("p");
    assert!(matches!(
        party.generate_pre_group(Ciphersuite::MLS_256_DHKEMP521_AES256GCM_SHA512_P521),
        Err(TestError::StorageError)
    ));
}
