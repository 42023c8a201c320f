//! One party's membership in one group: its consumed pre-group state and its
//! group engine.

use vstd::prelude::*;
use crate::engine::{
    CommitMessageBundle, EngineState, GroupEngine, MlsGroupCreateConfig, MlsGroupJoinConfig,
    MlsMessageIn, Proposal, RatchetTreeIn, TestError, Welcome, bundle_spec, deliver_spec, join_ok,
    merge_spec, leaves_of, stage_spec, welcome_roster,
};
use crate::party::PreGroupPartyState;

verus! {

/// The proposals of a commit under construction.
pub struct CommitBuilder {
    pub proposals: Vec<Proposal>,
}

impl CommitBuilder {
    /// Appends a proposal.
    pub fn add_proposal(self, p: Proposal) -> (r: CommitBuilder)
        ensures
            r.proposals@ == self.proposals@.push(p),
    {
        let mut proposals = self.proposals;
        proposals.push(p);
        CommitBuilder { proposals }
    }
}

/// A group member's engine and the pre-group state it was made from.
pub struct MemberState {
    party: PreGroupPartyState,
    group: GroupEngine,
}

impl MemberState {
    pub closed spec fn name_view(&self) -> Seq<char> {
        self.party.name@
    }

    pub closed spec fn engine(&self) -> EngineState {
        self.group.state()
    }

    /// The pre-group state the member was made from.
    pub closed spec fn party(&self) -> PreGroupPartyState {
        self.party
    }

    /// The engine speaks for the party that owns it.
    pub open spec fn wf(&self) -> bool {
        self.engine().own == self.name_view()
    }

    /// Starts a new group of one from the party's pre-group state.
    pub fn create_from_pre_group(party: PreGroupPartyState, mls_group_create_config: MlsGroupCreateConfig)
        -> (r: Result<MemberState, TestError>)
        ensures
            party.ciphersuite == mls_group_create_config.ciphersuite ==> (r matches Ok(m) && m.wf()
                && m.party() == party && m.name_view() == party.name@ && m.engine() == (EngineState {
                epoch: 0,
                roster: seq![Some(party.name@)],
                own: party.name@,
                ciphersuite: mls_group_create_config.ciphersuite,
                tree_ext: mls_group_create_config.use_ratchet_tree_extension,
                pending: None,
            })),
            party.ciphersuite != mls_group_create_config.ciphersuite ==> r == Err::<
                MemberState,
                TestError,
            >(TestError::JoinError),
    {
        if party.ciphersuite != mls_group_create_config.ciphersuite {
            return Err(TestError::JoinError);
        }
        let group = GroupEngine::new(&mls_group_create_config, party.name.clone());
        Ok(MemberState { party, group })
    }

    /// Joins an existing group through a welcome, with the tree given from
    /// outside where the welcome does not carry it.
    pub fn join_from_pre_group(
        party: PreGroupPartyState,
        mls_group_join_config: MlsGroupJoinConfig,
        welcome: Welcome,
        tree: Option<RatchetTreeIn>,
    ) -> (r: Result<MemberState, TestError>)
        ensures
            join_ok(mls_group_join_config, welcome, tree, party.name@) ==> (r matches Ok(m)
                && m.wf() && m.party() == party && m.name_view() == party.name@ && m.engine() == (EngineState {
                epoch: welcome.epoch as int,
                roster: welcome_roster(welcome, tree).unwrap(),
                own: party.name@,
                ciphersuite: mls_group_join_config.ciphersuite,
                tree_ext: mls_group_join_config.use_ratchet_tree_extension,
                pending: None,
            })),
            !join_ok(mls_group_join_config, welcome, tree, party.name@) ==> r == Err::<
                MemberState,
                TestError,
            >(TestError::JoinError),
    {
        let group = GroupEngine::from_welcome(
            &mls_group_join_config,
            &welcome,
            tree,
            party.name.clone(),
        )?;
        Ok(MemberState { party, group })
    }

    /// Applies an inbound message to this member's engine: a commit is
    /// validated and merged; anything else is rejected with its error.
    pub fn deliver_and_apply(&mut self, message: &MlsMessageIn) -> (r: Result<(), TestError>)
        ensures
            final(self).name_view() == old(self).name_view(),
            final(self).party() == old(self).party(),
            match deliver_spec(old(self).engine(), *message) {
                Ok(s) => r is Ok && final(self).engine() == s,
                Err(e) => r == Err::<(), TestError>(e) && *final(self) == *old(self),
            },
    {
        match message {
            MlsMessageIn::Protocol(pm) => self.group.process_message(pm),
            _ => Err(TestError::MessageFormat),
        }
    }

    /// An empty commit under construction.
    pub fn commit_builder(&self) -> (r: CommitBuilder)
        ensures
            r.proposals@ == Seq::<Proposal>::empty(),
    {
        CommitBuilder { proposals: Vec::new() }
    }

    /// Builds a commit of the builder's proposals and stages it; it takes
    /// effect here only once merged.
    pub fn build_commit_and_stage(&mut self, builder: CommitBuilder) -> (r: Result<
        CommitMessageBundle,
        TestError,
    >)
        ensures
            final(self).name_view() == old(self).name_view(),
            final(self).party() == old(self).party(),
            match stage_spec(old(self).engine(), builder.proposals@) {
                Ok(s) => r matches Ok(b) && final(self).engine() == s && bundle_spec(
                    old(self).engine(),
                    builder.proposals,
                    b,
                ),
                Err(e) => r == Err::<CommitMessageBundle, TestError>(e) && *final(self) == *old(self),
            },
    {
        self.group.stage_commit(builder.proposals)
    }

    /// Merges this member's own staged commit.
    pub fn merge_pending_commit(&mut self) -> (r: Result<(), TestError>)
        ensures
            final(self).name_view() == old(self).name_view(),
            final(self).party() == old(self).party(),
            match merge_spec(old(self).engine()) {
                Ok(s) => r is Ok && final(self).engine() == s,
                Err(e) => r == Err::<(), TestError>(e) && *final(self) == *old(self),
            },
    {
        self.group.merge_pending_commit()
    }

    pub fn name(&self) -> (r: &String)
        ensures
            r@ == self.name_view(),
    {
        &self.party.name
    }

    /// Whether a commit is staged and not yet merged.
    pub fn has_pending_commit(&self) -> (r: bool)
        ensures
            r == self.engine().pending is Some,
    {
        self.group.has_pending_commit()
    }

    pub fn epoch(&self) -> (r: u64)
        ensures
            r == self.engine().epoch,
    {
        self.group.epoch()
    }

    /// The group's leaves by leaf index, as this member sees them; a blank
    /// leaf is `None`.
    pub fn members(&self) -> (r: Vec<Option<String>>)
        ensures
            leaves_of(r@) == self.engine().roster,
    {
        self.group.members()
    }
}

} // verus!
