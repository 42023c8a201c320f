//! Scenario-level helpers: the consistency check across a group's members,
//! the choice of a remover and a distinct target, admission batches, and the
//! laws that tie commits, welcomes and the registry together.

use vstd::prelude::*;
use crate::engine::{
    CommitMessageBundle, EngineState, Proposal, TestError, bundle_spec, deliver_spec, merge_spec,
    leaves_of, stage_spec,
};
use crate::group::{GroupState, names_of, registry_wf};
use crate::member::MemberState;

verus! {

/// Every member reports the same epoch and the same roster.
pub open spec fn converged(ms: Seq<MemberState>) -> bool {
    forall|i: int, j: int|
        0 <= i < ms.len() && 0 <= j < ms.len() ==> ms[i].engine().epoch == ms[j].engine().epoch
            && ms[i].engine().roster == ms[j].engine().roster
}

/// Whether two trees hold the same identities at the same leaves.
pub fn rosters_equal(a: &Vec<Option<String>>, b: &Vec<Option<String>>) -> (r: bool)
    ensures
        r == (leaves_of(a@) == leaves_of(b@)),
{
    if a.len() != b.len() {
        assert(leaves_of(a@).len() != leaves_of(b@).len());
        return false;
    }
    let mut i: usize = 0;
    while i < a.len()
        invariant
            i <= a.len(),
            a.len() == b.len(),
            forall|j: int| 0 <= j < i ==> leaves_of(a@)[j] == leaves_of(b@)[j],
        decreases a.len() - i,
    {
        let same = match (&a[i], &b[i]) {
            (Some(x), Some(y)) => *x == *y,
            (None, None) => true,
            _ => false,
        };
        if !same {
            assert(leaves_of(a@)[i as int] != leaves_of(b@)[i as int]);
            return false;
        }
        i += 1;
    }
    assert(leaves_of(a@) =~= leaves_of(b@));
    true
}

/// Checks that every member of the group reports the same epoch and roster.
pub fn check_group_states(group: &GroupState) -> (r: bool)
    ensures
        r == converged(group.entries()),
{
    let n = group.len();
    if n == 0 {
        return true;
    }
    let first = group.member(0);
    let epoch = first.epoch();
    let roster = first.members();
    let mut i: usize = 1;
    while i < n
        invariant
            n == group.entries().len(),
            1 <= i <= n,
            *first == group.entries()[0],
            epoch == first.engine().epoch,
            leaves_of(roster@) == first.engine().roster,
            forall|j: int|
                0 <= j < i ==> group.entries()[j].engine().epoch == epoch
                    && group.entries()[j].engine().roster == leaves_of(roster@),
        decreases n - i,
    {
        let m = group.member(i);
        if m.epoch() != epoch {
            return false;
        }
        let other = m.members();
        if !rosters_equal(&other, &roster) {
            return false;
        }
        i += 1;
    }
    true
}

/// Picks a remover and a different target among `n` members from two random
/// draws: the target is drawn uniformly from the others, so no retry is needed.
pub fn pick_distinct_pair(n: usize, draw_remover: u64, draw_target: u64) -> (r: (usize, usize))
    requires
        n >= 2,
    ensures
        r.0 < n && r.1 < n && r.0 != r.1,
        r.0 == draw_remover % (n as u64),
        r.1 == if draw_target % ((n - 1) as u64) < r.0 {
            (draw_target % ((n - 1) as u64)) as int
        } else {
            draw_target % ((n - 1) as u64) + 1
        },
{
    let remover = (draw_remover % (n as u64)) as usize;
    let t = (draw_target % ((n - 1) as u64)) as usize;
    let target = if t < remover {
        t
    } else {
        t + 1
    };
    (remover, target)
}

/// The size of the next admission batch: all that remain, up to the bound.
pub fn next_batch_size(remaining: usize, max_batch: usize) -> (r: usize)
    ensures
        r == if remaining < max_batch {
            remaining
        } else {
            max_batch
        },
{
    if remaining < max_batch {
        remaining
    } else {
        max_batch
    }
}

/// Convergence: where the members agree on epoch and roster, and one of them
/// stages a commit, merges it, and every other member that the roster holds
/// applies the commit, they all agree again, one epoch later, on the roster
/// that the commit yields.
pub proof fn lemma_commit_converges(
    sender: EngineState,
    ps: Vec<Proposal>,
    staged: EngineState,
    b: CommitMessageBundle,
    others: Seq<EngineState>,
)
    requires
        stage_spec(sender, ps@) == Ok::<EngineState, TestError>(staged),
        bundle_spec(sender, ps, b),
        forall|i: int|
            0 <= i < others.len() ==> #[trigger] others[i].epoch == sender.epoch
                && others[i].roster == sender.roster && others[i].own != sender.own
                && others[i].roster.contains(Some(others[i].own)) && others[i].ciphersuite == sender.ciphersuite,
    ensures
        merge_spec(staged) matches Ok(s) && s.epoch == sender.epoch + 1 && Some(s.roster)
            == crate::engine::apply_all(sender.roster, ps@, sender.ciphersuite) && forall|i: int|
            0 <= i < others.len() ==> (deliver_spec(#[trigger] others[i], b.commit) matches Ok(o)
                && o.epoch == s.epoch && o.roster == s.roster),
{
}

/// Single admission: a welcome admitted for a name not yet held adds exactly
/// one entry under that name, so a second admission under the name finds it
/// held and is refused.
pub proof fn lemma_single_admission(
    before: Seq<MemberState>,
    after: Seq<MemberState>,
    name: Seq<char>,
)
    requires
        registry_wf(before),
        !names_of(before).contains(name),
        after.len() == before.len() + 1,
        after.drop_last() == before,
        after.last().name_view() == name,
    ensures
        forall|i: int| 0 <= i < after.len() ==> (after[i].name_view() == name <==> i == before.len()),
        names_of(after).contains(name),
{
    assert forall|i: int| 0 <= i < after.len() implies (after[i].name_view() == name <==> i
        == before.len()) by {
        if i < before.len() {
            assert(after[i] == before[i]);
            assert(names_of(before)[i] == before[i].name_view());
        }
    }
    assert(names_of(after)[before.len() as int] == name);
}

/// Convergence in the registry: where every member agrees on epoch, roster
/// and ciphersuite and is on that roster, member `s` stages a commit and merges
/// it, and every other member applies the commit, the registry agrees again,
/// one epoch later, on the roster that the commit yields.
pub proof fn lemma_registry_converges(
    before: Seq<MemberState>,
    after: Seq<MemberState>,
    s: int,
    ps: Vec<Proposal>,
    staged: EngineState,
    b: CommitMessageBundle,
)
    requires
        registry_wf(before),
        converged(before),
        0 <= s < before.len(),
        forall|i: int|
            0 <= i < before.len() ==> #[trigger] before[i].engine().roster.contains(
                Some(before[i].engine().own),
            ) && before[i].engine().ciphersuite == before[s].engine().ciphersuite,
        stage_spec(before[s].engine(), ps@) == Ok::<EngineState, TestError>(staged),
        bundle_spec(before[s].engine(), ps, b),
        after.len() == before.len(),
        merge_spec(staged) == Ok::<EngineState, TestError>(after[s].engine()),
        forall|i: int|
            0 <= i < before.len() && i != s ==> deliver_spec(#[trigger] before[i].engine(), b.commit)
                == Ok::<EngineState, TestError>(after[i].engine()),
    ensures
        converged(after),
        forall|i: int|
            0 <= i < after.len() ==> #[trigger] after[i].engine().epoch == before[s].engine().epoch + 1
                && Some(after[i].engine().roster) == crate::engine::apply_all(
                before[s].engine().roster,
                ps@,
                before[s].engine().ciphersuite,
            ),
{
    assert forall|i: int| 0 <= i < after.len() implies #[trigger] after[i].engine().epoch
        == before[s].engine().epoch + 1 && Some(after[i].engine().roster) == crate::engine::apply_all(
        before[s].engine().roster,
        ps@,
        before[s].engine().ciphersuite,
    ) by {
        if i != s {
            assert(before[i].wf());
            assert(before[s].wf());
            assert(before[i].name_view() != before[s].name_view());
            assert(before[i].engine().epoch == before[s].engine().epoch);
            assert(before[i].engine().roster == before[s].engine().roster);
        }
    }
}

} // verus!
