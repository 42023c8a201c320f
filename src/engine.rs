//! The protocol state of one party's view of one group: its epoch and its
//! roster of member identities ordered by leaf index, together with the
//! messages that move it forward.

use vstd::prelude::*;
use openmls_traits::types::Ciphersuite;
use crate::crypto::{code_point, suite_code};

verus! {

/// The error kinds of the harness.
#[derive(Debug, Clone, Copy, PartialEq, Eq, Structural)]
pub enum TestError {
    /// The inbound message is not a protocol message.
    MessageFormat,
    /// A protocol message was rejected: stale epoch, unknown sender, own message,
    /// or a commit that does not apply to the current roster.
    ProcessingError,
    /// A commit under construction holds a proposal that does not apply.
    ProposalError,
    /// A built commit cannot be staged, or there is nothing staged to merge.
    StagingError,
    /// A welcome or a creation setting cannot establish a view of the group.
    JoinError,
    /// Key material could not be produced or kept.
    StorageError,
    /// A scenario asked for something the registry does not hold.
    PreconditionViolation,
    /// A message content whose handling the harness does not define.
    Unsupported,
}

/// What a prospective member publishes so that it can be added.
#[derive(Debug, Clone)]
pub struct KeyPackage {
    pub identity: String,
    pub signature_key: Vec<u8>,
    pub ciphersuite: u16,
    /// The owner's signature over the other fields.
    pub signature: Vec<u8>,
}

/// One requested change to the group.
#[derive(Debug, Clone)]
pub enum Proposal {
    Add(KeyPackage),
    /// Remove the member at this leaf index.
    Remove(u32),
    /// Rotate the sender's own key material; the roster is unchanged.
    Update,
}

/// What a protocol message carries.
#[derive(Debug, Clone)]
pub enum MessageContent {
    ApplicationData(Vec<u8>),
    Proposal(Proposal),
    ExternalJoinProposal(KeyPackage),
    Commit(Vec<Proposal>),
}

/// A message sent within the group, at an epoch, from a leaf index.
#[derive(Debug, Clone)]
pub struct ProtocolMessage {
    pub epoch: u64,
    pub sender: u32,
    pub content: MessageContent,
}

/// The tree data a joiner needs when the welcome does not carry it.
#[derive(Debug, Clone)]
pub struct RatchetTreeIn {
    pub roster: Vec<Option<String>>,
}

/// An invitation for the parties that a commit adds.
#[derive(Debug, Clone)]
pub struct Welcome {
    pub ciphersuite: u16,
    pub epoch: u64,
    /// The roster after the commit, present when the group includes its tree.
    pub tree: Option<RatchetTreeIn>,
    pub recipients: Vec<String>,
}

/// Any message as it comes off the wire.
#[derive(Debug, Clone)]
pub enum MlsMessageIn {
    Protocol(ProtocolMessage),
    Welcome(Welcome),
    KeyPackage(KeyPackage),
}

/// The settings a group is created with.
#[derive(Debug, Clone, Copy)]
pub struct MlsGroupCreateConfig {
    pub ciphersuite: u16,
    pub use_ratchet_tree_extension: bool,
}

/// The settings a party joins a group with.
#[derive(Debug, Clone, Copy)]
pub struct MlsGroupJoinConfig {
    pub ciphersuite: u16,
    pub use_ratchet_tree_extension: bool,
}

impl MlsGroupCreateConfig {
    pub fn new(ciphersuite: Ciphersuite, use_ratchet_tree_extension: bool) -> (r: Self)
        ensures
            r.ciphersuite == code_point(ciphersuite),
            r.use_ratchet_tree_extension == use_ratchet_tree_extension,
    {
        MlsGroupCreateConfig { ciphersuite: suite_code(ciphersuite), use_ratchet_tree_extension }
    }

    /// The join settings that go with these creation settings.
    pub fn join_config(&self) -> (r: MlsGroupJoinConfig)
        ensures
            r.ciphersuite == self.ciphersuite,
            r.use_ratchet_tree_extension == self.use_ratchet_tree_extension,
    {
        MlsGroupJoinConfig {
            ciphersuite: self.ciphersuite,
            use_ratchet_tree_extension: self.use_ratchet_tree_extension,
        }
    }
}

/// A list of identities as the sequence of their characters.
pub open spec fn roster_of(v: Seq<String>) -> Seq<Seq<char>> {
    v.map_values(|s: String| s@)
}

/// The leaves of a tree by leaf index: an identity, or `None` for a blank leaf.
pub open spec fn leaves_of(v: Seq<Option<String>>) -> Seq<Option<Seq<char>>> {
    v.map_values(|l: Option<String>| match l {
        Some(s) => Some(s@),
        None => None,
    })
}

/// The leaf indices that the proposals remove, in order.
pub open spec fn removes(ps: Seq<Proposal>) -> Seq<u32>
    decreases ps.len(),
{
    if ps.len() == 0 {
        Seq::empty()
    } else {
        match ps.last() {
            Proposal::Remove(i) => removes(ps.drop_last()).push(i),
            _ => removes(ps.drop_last()),
        }
    }
}

/// No element occurs twice.
pub open spec fn no_dup<T>(s: Seq<T>) -> bool {
    forall|i: int, j: int| 0 <= i < j < s.len() ==> s[i] != s[j]
}

/// Every added key package is for the group's ciphersuite.
pub open spec fn suites_match(ps: Seq<Proposal>, suite: u16) -> bool {
    forall|i: int| 0 <= i < ps.len() ==> (#[trigger] ps[i] matches Proposal::Add(kp) ==> kp.ciphersuite == suite)
}

/// A batch of proposals applies to roster `r` of a group with ciphersuite
/// `suite`: each removal names a distinct leaf of `r`, and each addition is for
/// the group's ciphersuite and a distinct identity not on `r`.
pub open spec fn commit_valid(r: Seq<Option<Seq<char>>>, ps: Seq<Proposal>, suite: u16) -> bool {
    &&& forall|i: int| 0 <= i < removes(ps).len() ==> #[trigger] removes(ps)[i] < r.len() && r[removes(ps)[i] as int] is Some
    &&& no_dup(removes(ps))
    &&& suites_match(ps, suite)
    &&& no_dup(added(ps))
    &&& forall|i: int| 0 <= i < added(ps).len() ==> !r.contains(Some(#[trigger] added(ps)[i]))
}

/// Whether `rem` names leaf `k`.
pub open spec fn removes_leaf(rem: Seq<u32>, k: int) -> bool {
    exists|j: int| 0 <= j < rem.len() && rem[j] as int == k
}

pub proof fn lemma_removes_leaf_push(s: Seq<u32>, x: u32, k: int)
    ensures
        removes_leaf(s.push(x), k) <==> (removes_leaf(s, k) || x as int == k),
{
    if removes_leaf(s.push(x), k) {
        let j = choose|j: int| 0 <= j < s.push(x).len() && s.push(x)[j] as int == k;
        if j < s.len() {
            assert(s[j] as int == k);
        }
    }
    if removes_leaf(s, k) {
        let j = choose|j: int| 0 <= j < s.len() && s[j] as int == k;
        assert(s.push(x)[j] as int == k);
    }
    if x as int == k {
        assert(s.push(x)[s.len() as int] as int == k);
    }
}

/// The leaves of `r` with those that `rem` names blanked.
pub open spec fn blanked(r: Seq<Option<Seq<char>>>, rem: Seq<u32>) -> Seq<Option<Seq<char>>> {
    Seq::new(r.len(), |k: int| if removes_leaf(rem, k) { None } else { r[k] })
}

/// The first blank leaf of `t` at or after `i`, or `t.len()` where there is none.
pub open spec fn first_blank_from(t: Seq<Option<Seq<char>>>, i: int) -> int
    decreases t.len() - i,
{
    if i < 0 || i >= t.len() {
        t.len() as int
    } else if t[i] is None {
        i
    } else {
        first_blank_from(t, i + 1)
    }
}

/// `t` with `x` in its leftmost blank leaf, or in a new leaf at the end.
pub open spec fn insert_leaf(t: Seq<Option<Seq<char>>>, x: Seq<char>) -> Seq<Option<Seq<char>>> {
    let i = first_blank_from(t, 0);
    if i < t.len() {
        t.update(i, Some(x))
    } else {
        t.push(Some(x))
    }
}

/// `t` with the identities inserted one after another.
pub open spec fn place(t: Seq<Option<Seq<char>>>, xs: Seq<Seq<char>>) -> Seq<Option<Seq<char>>>
    decreases xs.len(),
{
    if xs.len() == 0 {
        t
    } else {
        insert_leaf(place(t, xs.drop_last()), xs.last())
    }
}

/// Where the leaves before `j` are all filled, the first blank is found from `j` on.
pub proof fn lemma_first_blank_skip(t: Seq<Option<Seq<char>>>, j: int)
    requires
        0 <= j <= t.len(),
        forall|q: int| 0 <= q < j ==> #[trigger] t[q] is Some,
    ensures
        first_blank_from(t, 0) == first_blank_from(t, j),
    decreases j,
{
    if j > 0 {
        lemma_first_blank_skip(t, j - 1);
    }
}

/// The tree after a commit of the proposals, applied as one batch: every
/// removal names a leaf of the tree before the commit, which becomes blank;
/// then each added identity, in order, takes the leftmost blank leaf, or a new
/// leaf at the end. `None` where the batch does not apply.
pub open spec fn apply_all(r: Seq<Option<Seq<char>>>, ps: Seq<Proposal>, suite: u16) -> Option<Seq<Option<Seq<char>>>> {
    if commit_valid(r, ps, suite) {
        Some(place(blanked(r, removes(ps)), added(ps)))
    } else {
        None
    }
}

/// The identities that the proposals add, in order.
pub open spec fn added(ps: Seq<Proposal>) -> Seq<Seq<char>>
    decreases ps.len(),
{
    if ps.len() == 0 {
        Seq::empty()
    } else {
        match ps.last() {
            Proposal::Add(kp) => added(ps.drop_last()).push(kp.identity@),
            _ => added(ps.drop_last()),
        }
    }
}

/// The observable state of a group engine.
pub ghost struct EngineState {
    pub epoch: int,
    pub roster: Seq<Option<Seq<char>>>,
    pub own: Seq<char>,
    pub ciphersuite: u16,
    pub tree_ext: bool,
    pub pending: Option<Seq<Option<Seq<char>>>>,
}

/// What processing a protocol message does to an engine.
pub open spec fn process_spec(s: EngineState, m: ProtocolMessage) -> Result<EngineState, TestError> {
    if !s.roster.contains(Some(s.own)) || m.epoch != s.epoch || m.sender >= s.roster.len()
        || s.roster[m.sender as int] is None || s.roster[m.sender as int] == Some(s.own) {
        Err(TestError::ProcessingError)
    } else {
        match m.content {
            MessageContent::Commit(ps) => match apply_all(s.roster, ps@, s.ciphersuite) {
                Some(r) => if s.epoch < u64::MAX {
                    Ok(EngineState { epoch: s.epoch + 1, roster: r, pending: None, ..s })
                } else {
                    Err(TestError::ProcessingError)
                },
                None => Err(TestError::ProcessingError),
            },
            _ => Err(TestError::Unsupported),
        }
    }
}

/// What delivering any inbound message does to an engine.
pub open spec fn deliver_spec(s: EngineState, m: MlsMessageIn) -> Result<EngineState, TestError> {
    match m {
        MlsMessageIn::Protocol(pm) => process_spec(s, pm),
        _ => Err(TestError::MessageFormat),
    }
}

/// What staging a commit of these proposals does to an engine.
pub open spec fn stage_spec(s: EngineState, ps: Seq<Proposal>) -> Result<EngineState, TestError> {
    if !s.roster.contains(Some(s.own)) || s.roster.len() > u32::MAX {
        Err(TestError::StagingError)
    } else {
        match apply_all(s.roster, ps, s.ciphersuite) {
            None => Err(TestError::ProposalError),
            Some(r) => if s.epoch < u64::MAX {
                Ok(EngineState { pending: Some(r), ..s })
            } else {
                Err(TestError::StagingError)
            },
        }
    }
}

/// What merging the staged commit does to an engine.
pub open spec fn merge_spec(s: EngineState) -> Result<EngineState, TestError> {
    match s.pending {
        Some(r) => if s.epoch < u64::MAX {
            Ok(EngineState { epoch: s.epoch + 1, roster: r, pending: None, ..s })
        } else {
            Err(TestError::StagingError)
        },
        None => Err(TestError::StagingError),
    }
}

/// The roster that a welcome and an optional outside tree give a joiner.
pub open spec fn welcome_roster(w: Welcome, tree: Option<RatchetTreeIn>) -> Option<Seq<Option<Seq<char>>>> {
    match w.tree {
        Some(t) => Some(leaves_of(t.roster@)),
        None => match tree {
            Some(t) => Some(leaves_of(t.roster@)),
            None => None,
        },
    }
}

/// Whether a welcome admits `own` under the join settings.
pub open spec fn join_ok(
    c: MlsGroupJoinConfig,
    w: Welcome,
    tree: Option<RatchetTreeIn>,
    own: Seq<char>,
) -> bool {
    &&& c.ciphersuite == w.ciphersuite
    &&& roster_of(w.recipients@).contains(own)
    &&& welcome_roster(w, tree) is Some
    &&& welcome_roster(w, tree).unwrap().contains(Some(own))
}

/// One party's protocol state for one group.
pub struct GroupEngine {
    epoch: u64,
    roster: Vec<Option<String>>,
    own: String,
    ciphersuite: u16,
    tree_ext: bool,
    pending: Option<Vec<Option<String>>>,
}

impl GroupEngine {
    pub closed spec fn state(&self) -> EngineState {
        EngineState {
            epoch: self.epoch as int,
            roster: leaves_of(self.roster@),
            own: self.own@,
            ciphersuite: self.ciphersuite,
            tree_ext: self.tree_ext,
            pending: match self.pending {
                Some(p) => Some(leaves_of(p@)),
                None => None,
            },
        }
    }

    /// A new group of one, at epoch zero.
    pub fn new(config: &MlsGroupCreateConfig, own: String) -> (r: GroupEngine)
        ensures
            r.state() == (EngineState {
                epoch: 0,
                roster: seq![Some(own@)],
                own: own@,
                ciphersuite: config.ciphersuite,
                tree_ext: config.use_ratchet_tree_extension,
                pending: None,
            }),
    {
        let roster: Vec<Option<String>> = vec![Some(own.clone())];
        assert(leaves_of(roster@) =~= seq![Some(own@)]);
        GroupEngine {
            epoch: 0,
            roster,
            own,
            ciphersuite: config.ciphersuite,
            tree_ext: config.use_ratchet_tree_extension,
            pending: None,
        }
    }

    /// Joins the group that a welcome describes.
    pub fn from_welcome(
        config: &MlsGroupJoinConfig,
        welcome: &Welcome,
        tree: Option<RatchetTreeIn>,
        own: String,
    ) -> (r: Result<GroupEngine, TestError>)
        ensures
            join_ok(*config, *welcome, tree, own@) ==> (r matches Ok(g) && g.state() == (
            EngineState {
                epoch: welcome.epoch as int,
                roster: welcome_roster(*welcome, tree).unwrap(),
                own: own@,
                ciphersuite: config.ciphersuite,
                tree_ext: config.use_ratchet_tree_extension,
                pending: None,
            })),
            !join_ok(*config, *welcome, tree, own@) ==> r == Err::<GroupEngine, TestError>(
                TestError::JoinError,
            ),
    {
        if config.ciphersuite != welcome.ciphersuite {
            return Err(TestError::JoinError);
        }
        if index_of(&welcome.recipients, &own).is_none() {
            return Err(TestError::JoinError);
        }
        let roster = match &welcome.tree {
            Some(t) => clone_leaves(&t.roster),
            None => match tree {
                Some(t) => t.roster,
                None => {
                    return Err(TestError::JoinError);
                },
            },
        };
        if index_of_leaf(&roster, &own).is_none() {
            return Err(TestError::JoinError);
        }
        Ok(GroupEngine {
            epoch: welcome.epoch,
            roster,
            own,
            ciphersuite: config.ciphersuite,
            tree_ext: config.use_ratchet_tree_extension,
            pending: None,
        })
    }

    /// The current epoch.
    pub fn epoch(&self) -> (r: u64)
        ensures
            r == self.state().epoch,
    {
        self.epoch
    }

    /// The leaves of the tree, by leaf index.
    pub fn members(&self) -> (r: Vec<Option<String>>)
        ensures
            leaves_of(r@) == self.state().roster,
    {
        clone_leaves(&self.roster)
    }

    /// Whether a commit is staged and not yet merged.
    pub fn has_pending_commit(&self) -> (r: bool)
        ensures
            r == self.state().pending is Some,
    {
        self.pending.is_some()
    }

    /// Validates a protocol message against the current epoch and roster, and
    /// merges it where it is a commit.
    pub fn process_message(&mut self, m: &ProtocolMessage) -> (r: Result<(), TestError>)
        ensures
            match process_spec(old(self).state(), *m) {
                Ok(s) => r is Ok && final(self).state() == s,
                Err(e) => r == Err::<(), TestError>(e) && *final(self) == *old(self),
            },
    {
        if index_of_leaf(&self.roster, &self.own).is_none() || m.epoch != self.epoch || (m.sender as usize)
            >= self.roster.len() {
            return Err(TestError::ProcessingError);
        }
        let occupied = match &self.roster[m.sender as usize] {
            Some(sender) => *sender != self.own,
            None => false,
        };
        if !occupied {
            return Err(TestError::ProcessingError);
        }
        match &m.content {
            MessageContent::Commit(ps) => match apply_proposals(&self.roster, ps, self.ciphersuite) {
                Some(r) => {
                    if self.epoch == u64::MAX {
                        return Err(TestError::ProcessingError);
                    }
                    self.epoch = self.epoch + 1;
                    self.roster = r;
                    self.pending = None;
                    Ok(())
                },
                None => Err(TestError::ProcessingError),
            },
            _ => Err(TestError::Unsupported),
        }
    }

    /// Builds a commit of the proposals and stages it, without merging it.
    pub fn stage_commit(&mut self, ps: Vec<Proposal>) -> (r: Result<CommitMessageBundle, TestError>)
        ensures
            match stage_spec(old(self).state(), ps@) {
                Ok(s) => r matches Ok(b) && final(self).state() == s && bundle_spec(
                    old(self).state(),
                    ps,
                    b,
                ),
                Err(e) => r == Err::<CommitMessageBundle, TestError>(e) && *final(self) == *old(self),
            },
    {
        if self.roster.len() > u32::MAX as usize {
            return Err(TestError::StagingError);
        }
        let own_idx = index_of_leaf(&self.roster, &self.own);
        let sender: u32 = match own_idx {
            Some(i) => i as u32,
            None => {
                return Err(TestError::StagingError);
            },
        };
        let after = match apply_proposals(&self.roster, &ps, self.ciphersuite) {
            Some(a) => a,
            None => {
                return Err(TestError::ProposalError);
            },
        };
        if self.epoch == u64::MAX {
            return Err(TestError::StagingError);
        }
        let recipients = added_identities(&ps);
        let welcome = if recipients.len() > 0 {
            let tree = if self.tree_ext {
                Some(RatchetTreeIn { roster: clone_leaves(&after) })
            } else {
                None
            };
            Some(Welcome { ciphersuite: self.ciphersuite, epoch: self.epoch + 1, tree, recipients })
        } else {
            None
        };
        self.pending = Some(after);
        let commit = MlsMessageIn::Protocol(
            ProtocolMessage { epoch: self.epoch, sender, content: MessageContent::Commit(ps) },
        );
        Ok(CommitMessageBundle { commit, welcome })
    }

    /// Merges the staged commit: the epoch advances and the staged roster takes effect.
    pub fn merge_pending_commit(&mut self) -> (r: Result<(), TestError>)
        ensures
            match merge_spec(old(self).state()) {
                Ok(s) => r is Ok && final(self).state() == s,
                Err(e) => r == Err::<(), TestError>(e) && *final(self) == *old(self),
            },
    {
        if self.epoch == u64::MAX || self.pending.is_none() {
            return Err(TestError::StagingError);
        }
        let p = self.pending.take();
        match p {
            Some(r) => {
                self.roster = r;
            },
            None => {},
        }
        self.epoch = self.epoch + 1;
        Ok(())
    }
}

/// A commit ready to send, and the welcome for the parties it adds.
#[derive(Debug, Clone)]
pub struct CommitMessageBundle {
    pub commit: MlsMessageIn,
    pub welcome: Option<Welcome>,
}

impl CommitMessageBundle {
    pub fn commit(&self) -> (r: &MlsMessageIn)
        ensures
            *r == self.commit,
    {
        &self.commit
    }

    pub fn welcome(&self) -> (r: Option<&Welcome>)
        ensures
            match self.welcome {
                Some(w) => r == Some(&w),
                None => r is None,
            },
    {
        match &self.welcome {
            Some(w) => Some(w),
            None => None,
        }
    }
}

/// What a commit staged from state `s` with proposals `ps` sends: the commit
/// from the sender's own leaf at the current epoch, and a welcome exactly when
/// the commit adds someone.
pub open spec fn bundle_spec(s: EngineState, ps: Vec<Proposal>, b: CommitMessageBundle) -> bool {
    &&& b.commit matches MlsMessageIn::Protocol(pm) && pm.epoch == s.epoch && pm.sender
        < s.roster.len() && s.roster[pm.sender as int] == Some(s.own) && pm.content
        == MessageContent::Commit(ps)
    &&& (added(ps@).len() == 0 ==> b.welcome is None)
    &&& (added(ps@).len() > 0 ==> (b.welcome matches Some(w) && welcome_spec(s, ps, w)))
}

/// The welcome that a commit of `ps` staged from state `s` hands the parties it adds.
pub open spec fn welcome_spec(s: EngineState, ps: Vec<Proposal>, w: Welcome) -> bool {
    &&& w.epoch == s.epoch + 1
    &&& w.ciphersuite == s.ciphersuite
    &&& roster_of(w.recipients@) == added(ps@)
    &&& (s.tree_ext ==> (w.tree matches Some(t) && Some(leaves_of(t.roster@)) == apply_all(
        s.roster,
        ps@,
        s.ciphersuite,
    )))
    &&& (!s.tree_ext ==> w.tree is None)
}


/// A copy of a roster.
pub fn clone_roster(v: &Vec<String>) -> (r: Vec<String>)
    ensures
        roster_of(r@) == roster_of(v@),
{
    let mut out: Vec<String> = Vec::new();
    let mut i: usize = 0;
    while i < v.len()
        invariant
            i <= v.len(),
            out@.len() == i,
            forall|j: int| 0 <= j < i ==> out@[j]@ == v@[j]@,
        decreases v.len() - i,
    {
        out.push(v[i].clone());
        i += 1;
    }
    assert(roster_of(out@) =~= roster_of(v@));
    out
}

/// A copy of a tree's leaves.
pub fn clone_leaves(v: &Vec<Option<String>>) -> (r: Vec<Option<String>>)
    ensures
        leaves_of(r@) == leaves_of(v@),
{
    let mut out: Vec<Option<String>> = Vec::new();
    let mut i: usize = 0;
    while i < v.len()
        invariant
            i <= v.len(),
            out@.len() == i,
            forall|j: int| 0 <= j < i ==> leaves_of(out@)[j] == leaves_of(v@)[j],
        decreases v.len() - i,
    {
        let l = match &v[i] {
            Some(x) => Some(x.clone()),
            None => None,
        };
        let ghost before = out@;
        out.push(l);
        assert forall|j: int| 0 <= j < i + 1 implies leaves_of(out@)[j] == leaves_of(v@)[j] by {
            if j < i {
                assert(out@[j] == before[j]);
            }
        }
        i += 1;
    }
    assert(leaves_of(out@) =~= leaves_of(v@));
    out
}

/// The first leaf that holds the identity, if any.
pub fn index_of_leaf(v: &Vec<Option<String>>, name: &String) -> (r: Option<usize>)
    ensures
        match r {
            Some(i) => i < v@.len() && leaves_of(v@)[i as int] == Some(name@)
                && forall|j: int| 0 <= j < i ==> leaves_of(v@)[j] != Some(name@),
            None => !leaves_of(v@).contains(Some(name@)),
        },
{
    let mut i: usize = 0;
    while i < v.len()
        invariant
            i <= v.len(),
            forall|j: int| 0 <= j < i ==> leaves_of(v@)[j] != Some(name@),
        decreases v.len() - i,
    {
        match &v[i] {
            Some(x) => {
                if *x == *name {
                    return Some(i);
                }
            },
            None => {},
        }
        i += 1;
    }
    None
}

/// The first leaf index that holds the identity, if any.
pub fn index_of(v: &Vec<String>, name: &String) -> (r: Option<usize>)
    ensures
        match r {
            Some(i) => i < v@.len() && roster_of(v@)[i as int] == name@
                && forall|j: int| 0 <= j < i ==> roster_of(v@)[j] != name@,
            None => !roster_of(v@).contains(name@),
        },
{
    let mut i: usize = 0;
    while i < v.len()
        invariant
            i <= v.len(),
            forall|j: int| 0 <= j < i ==> roster_of(v@)[j] != name@,
        decreases v.len() - i,
    {
        if v[i] == *name {
            return Some(i);
        }
        i += 1;
    }
    None
}

/// The leaf indices that the proposals remove, in order.
pub fn removed_leaves(ps: &Vec<Proposal>) -> (r: Vec<u32>)
    ensures
        r@ == removes(ps@),
{
    let mut out: Vec<u32> = Vec::new();
    let mut i: usize = 0;
    assert(out@ =~= removes(ps@.take(0)));
    while i < ps.len()
        invariant
            i <= ps.len(),
            out@ == removes(ps@.take(i as int)),
        decreases ps.len() - i,
    {
        assert(ps@.take(i + 1).drop_last() =~= ps@.take(i as int));
        assert(ps@.take(i + 1).last() == ps@[i as int]);
        match &ps[i] {
            Proposal::Remove(idx) => {
                out.push(*idx);
            },
            _ => {},
        }
        i += 1;
    }
    assert(ps@.take(ps@.len() as int) =~= ps@);
    out
}

/// Applies the proposals to a copy of the roster as one batch.
pub fn apply_proposals(roster: &Vec<Option<String>>, ps: &Vec<Proposal>, suite: u16) -> (r: Option<Vec<Option<String>>>)
    ensures
        match apply_all(leaves_of(roster@), ps@, suite) {
            Some(x) => r matches Some(v) && leaves_of(v@) == x,
            None => r is None,
        },
{
    let ghost r0 = leaves_of(roster@);
    let n = roster.len();
    assert(r0.len() == n);
    // Every added key package is for the group's ciphersuite.
    let mut i: usize = 0;
    while i < ps.len()
        invariant
            i <= ps.len(),
            forall|j: int| 0 <= j < i ==> (#[trigger] ps@[j] matches Proposal::Add(kp) ==> kp.ciphersuite == suite),
        decreases ps.len() - i,
    {
        match &ps[i] {
            Proposal::Add(kp) => {
                if kp.ciphersuite != suite {
                    assert(!suites_match(ps@, suite));
                    return None;
                }
            },
            _ => {},
        }
        i += 1;
    }
    // Each removal names a distinct leaf of the roster before the commit.
    let rem = removed_leaves(ps);
    let mut marked: Vec<bool> = vec![false; n];
    let mut i: usize = 0;
    while i < rem.len()
        invariant
            i <= rem.len(),
            rem@ == removes(ps@),
            marked@.len() == n,
            n == roster@.len(),
            forall|k: int| 0 <= k < n ==> (#[trigger] marked@[k] <==> removes_leaf(rem@.take(i as int), k)),
            r0 == leaves_of(roster@),
            forall|j: int| 0 <= j < i ==> #[trigger] rem@[j] < n && r0[rem@[j] as int] is Some,
            no_dup(rem@.take(i as int)),
        decreases rem.len() - i,
    {
        let idx = rem[i] as usize;
        if idx >= n {
            assert(r0.len() == n);
            assert(!(rem@[i as int] < r0.len()));
            return None;
        }
        if roster[idx].is_none() {
            assert(r0[idx as int] is None);
            return None;
        }
        assert(roster@[idx as int] is Some);
        assert(r0[idx as int] is Some);
        if marked[idx] {
            let ghost j = choose|j: int| 0 <= j < i && rem@.take(i as int)[j] as int == idx as int;
            assert(rem@[j] == rem@[i as int]);
            assert(!no_dup(removes(ps@)));
            return None;
        }
        let ghost pre = marked@;
        marked.set(idx, true);
        let ghost cur = rem@.take(i as int);
        let ghost nxt = rem@.take(i + 1);
        assert(nxt =~= cur.push(rem@[i as int]));
        assert forall|k: int| 0 <= k < n implies (#[trigger] marked@[k] <==> removes_leaf(nxt, k)) by {
            lemma_removes_leaf_push(cur, rem@[i as int], k);
        }
        assert forall|a: int, b: int| 0 <= a < b < i + 1 implies nxt[a] != nxt[b] by {
            if b == i {
                assert(cur[a] == rem@[a]);
                assert(cur.contains(rem@[a]));
                if rem@[a] == rem@[i as int] {
                    assert(cur[a] == rem@[a]);
                    assert(removes_leaf(cur, idx as int));
                    assert(pre[idx as int]);
                }
            } else {
                assert(cur[a] != cur[b]);
            }
        }
        assert forall|j: int| 0 <= j < i + 1 implies #[trigger] rem@[j] < n && r0[rem@[j] as int] is Some by {
            if j == i {
                assert(rem@[i as int] < n && r0[rem@[i as int] as int] is Some);
            }
        }
        i += 1;
    }
    assert(rem@.take(rem@.len() as int) =~= rem@);
    // Each addition is a distinct identity not on the roster.
    let adds = added_identities(ps);
    let mut i: usize = 0;
    while i < adds.len()
        invariant
            i <= adds.len(),
            roster_of(adds@) == added(ps@),
            forall|j: int| 0 <= j < i ==> !r0.contains(Some(#[trigger] added(ps@)[j])),
            r0 == leaves_of(roster@),
            forall|a: int, b: int| 0 <= a < b < i ==> added(ps@)[a] != added(ps@)[b],
        decreases adds.len() - i,
    {
        assert(roster_of(adds@)[i as int] == adds@[i as int]@);
        assert(added(ps@)[i as int] == adds@[i as int]@);
        if index_of_leaf(roster, &adds[i]).is_some() {
            return None;
        }
        match index_of(&adds, &adds[i]) {
            Some(j) => {
                if j < i {
                    assert(added(ps@)[j as int] == added(ps@)[i as int]);
                    return None;
                }
                assert forall|a: int| 0 <= a < i implies added(ps@)[a] != added(ps@)[i as int] by {
                    assert(roster_of(adds@)[a] == adds@[a]@);
                }
            },
            None => {},
        }
        i += 1;
    }
    assert(commit_valid(r0, ps@, suite));
    // The removed leaves blanked, then each addition in the leftmost blank.
    let ghost base = blanked(r0, removes(ps@));
    let mut out: Vec<Option<String>> = Vec::new();
    let mut k: usize = 0;
    while k < n
        invariant
            k <= n,
            n == roster@.len(),
            marked@.len() == n,
            forall|q: int| 0 <= q < n ==> (#[trigger] marked@[q] <==> removes_leaf(rem@, q)),
            rem@ == removes(ps@),
            r0 == leaves_of(roster@),
            base == blanked(r0, removes(ps@)),
            leaves_of(out@) == base.take(k as int),
        decreases n - k,
    {
        let ghost before = out@;
        if marked[k] {
            out.push(None);
        } else {
            let l = match &roster[k] {
                Some(x) => Some(x.clone()),
                None => None,
            };
            out.push(l);
        }
        assert(leaves_of(out@) =~= leaves_of(before).push(base[k as int]));
        assert(base.take(k + 1) =~= base.take(k as int).push(base[k as int]));
        k += 1;
    }
    assert(base.take(n as int) =~= base);
    let mut i: usize = 0;
    assert(added(ps@).take(0) =~= Seq::<Seq<char>>::empty());
    while i < adds.len()
        invariant
            i <= adds.len(),
            roster_of(adds@) == added(ps@),
            leaves_of(out@) == place(base, added(ps@).take(i as int)),
        decreases adds.len() - i,
    {
        let ghost t = leaves_of(out@);
        let ghost x = added(ps@)[i as int];
        assert(roster_of(adds@)[i as int] == adds@[i as int]@);
        assert(added(ps@).take(i + 1).drop_last() =~= added(ps@).take(i as int));
        assert(added(ps@).take(i + 1).last() == x);
        let mut j: usize = 0;
        while j < out.len() && out[j].is_some()
            invariant
                j <= out@.len(),
                t == leaves_of(out@),
                forall|q: int| 0 <= q < j ==> #[trigger] t[q] is Some,
            decreases out@.len() - j,
        {
            j += 1;
        }
        proof {
            lemma_first_blank_skip(t, j as int);
        }
        let ghost before = out@;
        if j < out.len() {
            out.set(j, Some(adds[i].clone()));
            assert(leaves_of(out@) =~= t.update(j as int, Some(x)));
        } else {
            out.push(Some(adds[i].clone()));
            assert(leaves_of(out@) =~= t.push(Some(x)));
        }
        i += 1;
    }
    assert(added(ps@).take(added(ps@).len() as int) =~= added(ps@));
    Some(out)
}

/// The identities that the proposals add, in order.
pub fn added_identities(ps: &Vec<Proposal>) -> (r: Vec<String>)
    ensures
        roster_of(r@) == added(ps@),
{
    let mut out: Vec<String> = Vec::new();
    let mut i: usize = 0;
    assert(roster_of(out@) =~= added(ps@.take(0)));
    while i < ps.len()
        invariant
            i <= ps.len(),
            roster_of(out@) == added(ps@.take(i as int)),
        decreases ps.len() - i,
    {
        assert(ps@.take(i + 1).drop_last() =~= ps@.take(i as int));
        assert(ps@.take(i + 1).last() == ps@[i as int]);
        match &ps[i] {
            Proposal::Add(kp) => {
                let ghost before = out@;
                out.push(kp.identity.clone());
                assert(roster_of(out@) =~= roster_of(before).push(kp.identity@));
            },
            _ => {},
        }
        i += 1;
    }
    assert(ps@.take(ps@.len() as int) =~= ps@);
    out
}

} // verus!
