//! The driver's registry of one group's members, keyed by party name.

use vstd::prelude::*;
use crate::engine::{
    EngineState, MlsGroupCreateConfig, MlsGroupJoinConfig, MlsMessageIn, RatchetTreeIn, TestError,
    Welcome, deliver_spec, join_ok, welcome_roster,
};
use crate::member::MemberState;
use crate::party::PreGroupPartyState;

verus! {

/// The names of the members, in registry order.
pub open spec fn names_of(ms: Seq<MemberState>) -> Seq<Seq<char>> {
    ms.map_values(|m: MemberState| m.name_view())
}

/// No two members share a name, and each engine speaks for its member.
pub open spec fn registry_wf(ms: Seq<MemberState>) -> bool {
    &&& forall|i: int, j: int|
        0 <= i < ms.len() && 0 <= j < ms.len() && i != j ==> ms[i].name_view() != ms[j].name_view()
    &&& forall|i: int| 0 <= i < ms.len() ==> #[trigger] ms[i].wf()
}

/// What a fan-out does to one member: passed over, unchanged, where the
/// condition may reject it; otherwise the message applied to its engine.
pub open spec fn processed<F: Fn(&MemberState) -> bool>(
    condition: F,
    m: MlsMessageIn,
    before: MemberState,
    after: MemberState,
) -> bool {
    ||| condition.ensures((&before,), false) && after == before
    ||| condition.ensures((&before,), true) && after.name_view() == before.name_view()
        && after.party() == before.party() && deliver_spec(before.engine(), m) == Ok::<EngineState, TestError>(after.engine())
}

/// The message applied to every member, or the first failure with the members
/// before it updated and the rest untouched.
pub open spec fn fan_out<F: Fn(&MemberState) -> bool>(
    condition: F,
    m: MlsMessageIn,
    before: Seq<MemberState>,
    after: Seq<MemberState>,
    r: Result<(), TestError>,
) -> bool {
    &&& after.len() == before.len()
    &&& match r {
        Ok(_) => forall|i: int| 0 <= i < before.len() ==> processed(condition, m, before[i], after[i]),
        Err(e) => exists|k: int|
            0 <= k < before.len() && (forall|i: int|
                0 <= i < k ==> processed(condition, m, before[i], after[i]))
                && condition.ensures((&before[k],), true) && deliver_spec(before[k].engine(), m)
                == Err::<EngineState, TestError>(e) && (forall|i: int|
                k <= i < before.len() ==> after[i] == before[i]),
    }
}

/// Delivering a message never changes whose engine it is.
pub proof fn lemma_deliver_keeps_own(s: EngineState, m: MlsMessageIn)
    ensures
        deliver_spec(s, m) matches Ok(t) ==> t.own == s.own,
{
}

/// A registry whose members keep their names and engines' owners stays well formed.
pub proof fn lemma_wf_carries(before: Seq<MemberState>, after: Seq<MemberState>)
    requires
        after.len() == before.len(),
        forall|j: int|
            0 <= j < before.len() ==> #[trigger] after[j].name_view() == before[j].name_view() && (
            before[j].wf() ==> after[j].wf()),
    ensures
        registry_wf(before) ==> registry_wf(after),
{
    if registry_wf(before) {
        assert forall|a: int, b: int|
            0 <= a < before.len() && 0 <= b < before.len() && a != b implies after[a].name_view()
                != after[b].name_view() by {
            assert(after[a].name_view() == before[a].name_view());
            assert(after[b].name_view() == before[b].name_view());
        }
        assert forall|a: int| 0 <= a < before.len() implies #[trigger] after[a].wf() by {
            assert(after[a].name_view() == before[a].name_view());
            assert(before[a].wf());
        }
    }
}

/// All of the state for a group and its members.
pub struct GroupState {
    members: Vec<MemberState>,
}

impl GroupState {
    pub closed spec fn entries(&self) -> Seq<MemberState> {
        self.members@
    }

    pub open spec fn wf(&self) -> bool {
        registry_wf(self.entries())
    }

    /// Starts a group from one party, held under its name.
    pub fn new_from_party(
        pre_group_state: PreGroupPartyState,
        mls_group_create_config: MlsGroupCreateConfig,
    ) -> (r: Result<GroupState, TestError>)
        ensures
            pre_group_state.ciphersuite == mls_group_create_config.ciphersuite ==> (r matches Ok(g)
                && g.wf() && g.entries().len() == 1 && g.entries()[0].name_view()
                == pre_group_state.name@ && g.entries()[0].engine() == (EngineState {
                epoch: 0,
                roster: seq![Some(pre_group_state.name@)],
                own: pre_group_state.name@,
                ciphersuite: mls_group_create_config.ciphersuite,
                tree_ext: mls_group_create_config.use_ratchet_tree_extension,
                pending: None,
            })),
            pre_group_state.ciphersuite != mls_group_create_config.ciphersuite ==> r == Err::<
                GroupState,
                TestError,
            >(TestError::JoinError),
    {
        let member_state = MemberState::create_from_pre_group(
            pre_group_state,
            mls_group_create_config,
        )?;
        let mut members: Vec<MemberState> = Vec::new();
        members.push(member_state);
        Ok(GroupState { members })
    }

    /// The number of members.
    pub fn len(&self) -> (r: usize)
        ensures
            r == self.entries().len(),
    {
        self.members.len()
    }

    /// The member at a position.
    pub fn member(&self, i: usize) -> (r: &MemberState)
        requires
            i < self.entries().len(),
        ensures
            *r == self.entries()[i as int],
    {
        &self.members[i]
    }

    /// The position of the member held under a name.
    pub fn position(&self, name: &String) -> (r: Option<usize>)
        ensures
            match r {
                Some(i) => i < self.entries().len() && self.entries()[i as int].name_view() == name@,
                None => !names_of(self.entries()).contains(name@),
            },
    {
        let mut i: usize = 0;
        while i < self.members.len()
            invariant
                i <= self.members.len(),
                forall|j: int| 0 <= j < i ==> self.entries()[j].name_view() != name@,
            decreases self.members.len() - i,
        {
            if *self.members[i].name() == *name {
                return Some(i);
            }
            i += 1;
        }
        assert(forall|j: int|
            0 <= j < self.entries().len() ==> names_of(self.entries())[j] != name@);
        None
    }

    /// All members at once, for scenario code that drives several;
    /// a precondition violation where there are not exactly `n`.
    pub fn groups_mut(&mut self, n: usize) -> (r: Result<&mut [MemberState], TestError>)
        ensures
            old(self).entries().len() != n ==> r == Err::<&mut [MemberState], TestError>(
                TestError::PreconditionViolation,
            ) && *final(self) == *old(self),
            old(self).entries().len() == n ==> (r matches Ok(s) && s@ == old(self).entries()
                && final(self).entries() == final(s)@),
    {
        if self.members.len() != n {
            return Err(TestError::PreconditionViolation);
        }
        Ok(self.members.as_mut_slice())
    }

    /// Applies a message to every member in the registry that the condition selects,
    /// in registry order, stopping at the first failure without undoing the
    /// members already updated.
    pub fn deliver_and_apply_if<F: Fn(&MemberState) -> bool>(
        &mut self,
        message: &MlsMessageIn,
        condition: F,
    ) -> (r: Result<(), TestError>)
        requires
            forall|m: &MemberState| condition.requires((m,)),
        ensures
            fan_out(condition, *message, old(self).entries(), final(self).entries(), r),
            old(self).wf() ==> final(self).wf(),
    {
        let ghost before = self.members@;
        let mut i: usize = 0;
        while i < self.members.len()
            invariant
                i <= self.members.len(),
                self.members@.len() == before.len(),
                forall|m: &MemberState| condition.requires((m,)),
                forall|j: int| 0 <= j < i ==> processed(condition, *message, before[j], self.members@[j]),
                forall|j: int| i <= j < before.len() ==> self.members@[j] == before[j],
                before == old(self).members@,
                forall|j: int|
                    0 <= j < before.len() ==> #[trigger] self.members@[j].name_view()
                        == before[j].name_view() && (before[j].wf() ==> self.members@[j].wf()),
            decreases self.members.len() - i,
        {
            let selected = condition(&self.members[i]);
            if selected {
                let ghost mid = self.members@;
                let res = self.members[i].deliver_and_apply(message);
                assert(self.members@ == mid.update(i as int, self.members@[i as int]));
                match res {
                    Err(e) => {
                        assert(self.members@ =~= mid);
                        assert(fan_out(condition, *message, before, self.members@, Err(e))) by {
                            assert(0 <= i < before.len() && (forall|j: int|
                                0 <= j < i ==> processed(condition, *message, before[j], self.members@[j]))
                                && condition.ensures((&before[i as int],), true) && deliver_spec(
                                before[i as int].engine(),
                                *message,
                            ) == Err::<EngineState, TestError>(e) && (forall|j: int|
                                i <= j < before.len() ==> self.members@[j] == before[j]));
                        }
                        proof {
                            lemma_wf_carries(before, self.members@);
                        }
                        return Err(e);
                    },
                    Ok(()) => {
                        proof {
                            lemma_deliver_keeps_own(before[i as int].engine(), *message);
                        }
                        assert(processed(condition, *message, before[i as int], self.members@[i as int]));
                    },
                }
            }
            i += 1;
        }
        proof {
            lemma_wf_carries(before, self.members@);
        }
        Ok(())
    }

    /// Admits a new member through a welcome and holds it under the
    /// recipient's name; nothing changes where the name is already held or the
    /// welcome does not admit the recipient.
    pub fn deliver_and_apply_welcome(
        &mut self,
        recipient: PreGroupPartyState,
        mls_group_join_config: MlsGroupJoinConfig,
        welcome: Welcome,
        tree: Option<RatchetTreeIn>,
    ) -> (r: Result<(), TestError>)
        requires
            old(self).wf(),
        ensures
            final(self).wf(),
            names_of(old(self).entries()).contains(recipient.name@) ==> r == Err::<(), TestError>(
                TestError::JoinError,
            ) && *final(self) == *old(self),
            !names_of(old(self).entries()).contains(recipient.name@) && !join_ok(
                mls_group_join_config,
                welcome,
                tree,
                recipient.name@,
            ) ==> r == Err::<(), TestError>(TestError::JoinError) && *final(self) == *old(self),
            !names_of(old(self).entries()).contains(recipient.name@) && join_ok(
                mls_group_join_config,
                welcome,
                tree,
                recipient.name@,
            ) ==> {
                &&& r is Ok
                &&& final(self).entries().len() == old(self).entries().len() + 1
                &&& final(self).entries().drop_last() == old(self).entries()
                &&& final(self).entries().last().name_view() == recipient.name@
                &&& final(self).entries().last().engine() == (EngineState {
                    epoch: welcome.epoch as int,
                    roster: welcome_roster(welcome, tree).unwrap(),
                    own: recipient.name@,
                    ciphersuite: mls_group_join_config.ciphersuite,
                    tree_ext: mls_group_join_config.use_ratchet_tree_extension,
                    pending: None,
                })
            },
    {
        match self.position(&recipient.name) {
            Some(i) => {
                assert(names_of(self.members@)[i as int] == recipient.name@);
                return Err(TestError::JoinError);
            },
            None => {},
        }
        let member_state = MemberState::join_from_pre_group(
            recipient,
            mls_group_join_config,
            welcome,
            tree,
        )?;
        let ghost before = self.members@;
        self.members.push(member_state);
        assert(self.members@.drop_last() =~= before);
        assert forall|j: int| 0 <= j < before.len() implies self.members@[j].name_view()
            != member_state.name_view() by {
            assert(names_of(before)[j] == before[j].name_view());
        }
        Ok(())
    }

    /// Stops holding the member under a name. No engine is touched: the
    /// member's own and every other member's stay as they are.
    pub fn untrack_member(&mut self, name: &String)
        requires
            old(self).wf(),
        ensures
            final(self).wf(),
            names_of(old(self).entries()).contains(name@) ==> exists|i: int|
                0 <= i < old(self).entries().len() && old(self).entries()[i].name_view() == name@
                    && final(self).entries() == old(self).entries().remove(i),
            !names_of(old(self).entries()).contains(name@) ==> *final(self) == *old(self),
            !names_of(final(self).entries()).contains(name@),
            forall|m: MemberState|
                old(self).entries().contains(m) && m.name_view() != name@ ==> final(self).entries().contains(m),
    {
        let ghost before = self.members@;
        match self.position(name) {
            Some(i) => {
                assert(names_of(before)[i as int] == name@);
                let _ = self.members.remove(i);
                let ghost after = self.members@;
                assert(after == before.remove(i as int));
                assert forall|a: int, b: int|
                    0 <= a < after.len() && 0 <= b < after.len() && a != b implies after[a].name_view()
                        != after[b].name_view() by {
                    let oa = if a < i { a } else { a + 1 };
                    let ob = if b < i { b } else { b + 1 };
                    assert(after[a] == before[oa]);
                    assert(after[b] == before[ob]);
                }
                assert forall|a: int| 0 <= a < after.len() implies #[trigger] after[a].wf() by {
                    let oa = if a < i { a } else { a + 1 };
                    assert(after[a] == before[oa]);
                }
                assert forall|a: int| 0 <= a < after.len() implies names_of(after)[a] != name@ by {
                    let oa = if a < i { a } else { a + 1 };
                    assert(after[a] == before[oa]);
                }
                assert forall|m: MemberState|
                    before.contains(m) && m.name_view() != name@ implies after.contains(m) by {
                    let k = choose|k: int| 0 <= k < before.len() && before[k] == m;
                    if k < i {
                        assert(after[k] == m);
                    } else {
                        assert(k != i);
                        assert(after[k - 1] == m);
                    }
                }
            },
            None => {},
        }
    }

    /// Delivers a message to every member in the registry.
    pub fn deliver_and_apply(&mut self, message: &MlsMessageIn) -> (r: Result<(), TestError>)
        ensures
            final(self).entries().len() == old(self).entries().len(),
            r is Ok ==> forall|i: int|
                0 <= i < old(self).entries().len() ==> deliver_spec(
                    old(self).entries()[i].engine(),
                    *message,
                ) == Ok::<EngineState, TestError>(final(self).entries()[i].engine()),
            r matches Err(e) ==> exists|k: int|
                0 <= k < old(self).entries().len() && (forall|i: int|
                    0 <= i < k ==> deliver_spec(old(self).entries()[i].engine(), *message) == Ok::<
                        EngineState,
                        TestError,
                    >(final(self).entries()[i].engine())) && deliver_spec(
                    old(self).entries()[k].engine(),
                    *message,
                ) == Err::<EngineState, TestError>(e) && (forall|i: int|
                    k <= i < old(self).entries().len() ==> final(self).entries()[i] == old(
                        self,
                    ).entries()[i]),
            old(self).wf() ==> final(self).wf(),
    {
        self.deliver_and_apply_if(message, |m: &MemberState| -> (b: bool)
            ensures
                b,
            { true })
    }
}

} // verus!
