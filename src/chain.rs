use std::collections::HashMap;
use vstd::prelude::*;

verus! {

broadcast use vstd::std_specs::hash::group_hash_axioms;

/// Identifier of a joint: the index of a node in the host's scene graph.
pub type Joint = u64;

/// Length constraint of a bone, the relation between two adjacent joints.
#[derive(Clone, Copy, Debug)]
pub struct Bone<S> {
    pub length: S,
}

impl<S> Bone<S> {
    pub fn new(length: S) -> (r: Self)
        ensures
            r.length == length,
    {
        Bone { length }
    }
}

/// Absolute direction angle of a joint's bone in the rest pose.
#[derive(Clone, Copy, Debug)]
pub struct JointRest<S> {
    pub angle: S,
}

impl<S> JointRest<S> {
    pub fn new(angle: S) -> (r: Self)
        ensures
            r.angle == angle,
    {
        JointRest { angle }
    }
}

/// Angle limits of a joint, measured from its rest direction.
#[derive(Clone, Copy, Debug)]
pub struct JointConstraint<S> {
    /// Largest counter-clockwise turn.
    pub ccw: S,
    /// Largest clockwise turn.
    pub cw: S,
}

impl<S> JointConstraint<S> {
    pub fn new(ccw: S, cw: S) -> (r: Self)
        ensures
            r.ccw == ccw,
            r.cw == cw,
    {
        JointConstraint { ccw, cw }
    }
}

/// What the effector of a chain reaches for.
#[derive(Clone, Copy, Debug)]
pub enum IKTarget<P> {
    /// Nothing: the chain is left alone.
    Unset,
    /// A fixed point of the world.
    Pos(P),
    /// Whatever position the given node has when the chain is solved.
    Entity(Joint),
}

/// World position and rotation of a joint, as the host reads them.
#[derive(Clone, Copy, Debug)]
pub struct Pose<P, Q> {
    pub position: P,
    pub rotation: Q,
}

/// Where a chain stands with respect to its rest pose.
#[derive(Clone, Copy, Debug, PartialEq, Eq, Structural)]
pub enum RestState {
    /// The rest pose has not been captured yet.
    Pending,
    /// The rest pose is known: the chain can be solved.
    Ready,
    /// Capturing the rest pose failed: the chain is never solved.
    Inert,
}

/// Why the rest pose of a chain could not be captured.
#[derive(Clone, Copy, Debug, PartialEq, Eq, Structural)]
pub enum RestPoseError {
    /// The chain has fewer than two joints.
    TooShort,
    /// The joint at this position of the chain could not be resolved.
    MissingJoint(usize),
}

/// An inverse kinematics chain, from its anchor (first joint) to its effector
/// (last joint).
///
/// `P` is the type of a world position, `S` that of a length or an angle, and
/// `Q` that of a world rotation: all the arithmetic on them is the host's.
/// Bone `k` joins `chain[k]` and `chain[k + 1]`; the rest data are indexed by
/// the position of the joint in the chain.
#[derive(Debug)]
pub struct IKConstraint<P, S, Q> {
    pub target: IKTarget<P>,
    pub chain: Vec<Joint>,
    pub bone_data: Vec<Bone<S>>,
    pub joint_data: Vec<JointRest<S>>,
    pub rest_data: Vec<Q>,
    pub joint_constraints: HashMap<Joint, JointConstraint<S>>,
    pub iterations: usize,
    pub epsilon: S,
    pub rest: RestState,
}

/// Whether bone `k` of `chain` joins `a` and `b`, in either order.
pub open spec fn joins(chain: Seq<Joint>, k: int, a: Joint, b: Joint) -> bool {
    (chain[k] == a && chain[k + 1] == b) || (chain[k] == b && chain[k + 1] == a)
}

/// The joint whose position gives the start of joint `i`'s rest direction:
/// the anchor looks at its child, every other joint along its incoming bone.
pub open spec fn rest_from(i: int) -> int {
    if i == 0 {
        0
    } else {
        i - 1
    }
}

/// The joint whose position gives the end of joint `i`'s rest direction.
pub open spec fn rest_to(i: int) -> int {
    if i == 0 {
        1
    } else {
        i
    }
}

/// The map of joint limits after `entries` were inserted into `m` in order.
pub open spec fn extended<S>(
    m: Map<Joint, JointConstraint<S>>,
    entries: Seq<(Joint, JointConstraint<S>)>,
) -> Map<Joint, JointConstraint<S>>
    decreases entries.len(),
{
    if entries.len() == 0 {
        m
    } else {
        let last = entries.last();
        extended(m, entries.drop_last()).insert(last.0, last.1)
    }
}

/// The position of the joint at index `i`, in poses that are all resolved.
pub open spec fn position_at<P, Q>(poses: Seq<Option<Pose<P, Q>>>, i: int) -> P {
    poses[i]->Some_0.position
}

impl<P, S, Q> IKConstraint<P, S, Q> {
    /// The stored data agree with the chain: none before the rest pose is
    /// captured, one bone per adjacent pair and one rest entry per joint after.
    pub open spec fn wf(&self) -> bool {
        if self.rest == RestState::Ready {
            &&& self.chain.len() >= 2
            &&& self.bone_data.len() == self.chain.len() - 1
            &&& self.joint_data.len() == self.chain.len()
            &&& self.rest_data.len() == self.chain.len()
        } else {
            &&& self.bone_data.len() == 0
            &&& self.joint_data.len() == 0
            &&& self.rest_data.len() == 0
        }
    }

    /// The first bone, from index `k` on, that joins `a` and `b`.
    pub open spec fn bone_from(&self, a: Joint, b: Joint, k: int) -> Option<Bone<S>>
        decreases self.bone_data.len() - k,
    {
        if k < 0 || k >= self.bone_data.len() {
            None
        } else if joins(self.chain@, k, a, b) {
            Some(self.bone_data[k])
        } else {
            self.bone_from(a, b, k + 1)
        }
    }

    /// The bone between joints `a` and `b`, if they are adjacent in the chain.
    pub open spec fn bone_between(&self, a: Joint, b: Joint) -> Option<Bone<S>> {
        self.bone_from(a, b, 0)
    }

    /// The limits of joint `j`, if it has any.
    pub open spec fn limits_of(&self, j: Joint) -> Option<JointConstraint<S>> {
        if self.joint_constraints@.contains_key(j) {
            Some(self.joint_constraints@[j])
        } else {
            None
        }
    }

    /// The position the effector reaches for in this step, given the position
    /// of the followed node when there is one to follow and it was found.
    pub open spec fn spec_target_position(&self, followed: Option<P>) -> Option<P> {
        if self.rest != RestState::Ready {
            None
        } else {
            match self.target {
                IKTarget::Unset => None,
                IKTarget::Pos(p) => Some(p),
                IKTarget::Entity(_) => followed,
            }
        }
    }

    /// A chain over `chain`, with no target, no joint limits, ten iterations
    /// and the given convergence distance; its rest pose is not captured yet.
    pub fn new(chain: Vec<Joint>, epsilon: S) -> (r: Self)
        ensures
            r.wf(),
            r.chain == chain,
            r.target is Unset,
            r.joint_constraints@ == Map::<Joint, JointConstraint<S>>::empty(),
            r.iterations == 10,
            r.epsilon == epsilon,
            r.rest == RestState::Pending,
    {
        IKConstraint {
            target: IKTarget::Unset,
            chain,
            bone_data: Vec::new(),
            joint_data: Vec::new(),
            rest_data: Vec::new(),
            joint_constraints: HashMap::new(),
            iterations: 10,
            epsilon,
            rest: RestState::Pending,
        }
    }

    /// Sets the number of solver passes per step.
    pub fn with_iterations(self, iterations: usize) -> (r: Self)
        ensures
            r == (IKConstraint { iterations, ..self }),
    {
        IKConstraint { iterations, ..self }
    }

    /// Sets the distance under which the effector counts as on target.
    pub fn with_epsilon(self, epsilon: S) -> (r: Self)
        ensures
            r == (IKConstraint { epsilon, ..self }),
    {
        IKConstraint { epsilon, ..self }
    }

    /// Sets what the effector reaches for.
    pub fn with_target(self, target: IKTarget<P>) -> (r: Self)
        ensures
            r == (IKConstraint { target, ..self }),
    {
        IKConstraint { target, ..self }
    }

    /// Changes what the effector reaches for, from the next step on.
    pub fn set_target(&mut self, target: IKTarget<P>)
        ensures
            *final(self) == (IKConstraint { target, ..*old(self) }),
    {
        self.target = target;
    }

    /// Leaves the chain without a target: it is not solved until it gets one.
    pub fn remove_target(&mut self)
        ensures
            *final(self) == (IKConstraint { target: IKTarget::Unset, ..*old(self) }),
    {
        self.target = IKTarget::Unset;
    }
}

impl<P: Copy, S: Copy, Q: Copy> IKConstraint<P, S, Q> {
    /// Adds joint limits; a later entry for a joint replaces an earlier one.
    pub fn with_joint_constraints(
        self,
        constraints: Vec<(Joint, JointConstraint<S>)>,
    ) -> (r: Self)
        ensures
            r == (IKConstraint { joint_constraints: r.joint_constraints, ..self }),
            r.joint_constraints@ == extended(self.joint_constraints@, constraints@),
    {
        let mut r = self;
        let ghost start = r.joint_constraints@;
        let mut i: usize = 0;
        while i < constraints.len()
            invariant
                i <= constraints.len(),
                r == (IKConstraint { joint_constraints: r.joint_constraints, ..self }),
                r.joint_constraints@ == extended(start, constraints@.take(i as int)),
            decreases constraints.len() - i,
        {
            let (joint, limits) = constraints[i];
            r.joint_constraints.insert(joint, limits);
            proof {
                assert(constraints@.take(i + 1).drop_last() == constraints@.take(i as int));
            }
            i = i + 1;
        }
        proof {
            assert(constraints@.take(i as int) == constraints@);
        }
        r
    }

    /// Captures the rest pose from the joints' current world poses, one per
    /// joint of the chain, `None` where a joint could not be resolved.
    /// `distance` measures a bone and `heading` gives the absolute angle of
    /// the direction from its first argument to its second.
    ///
    /// On success bone `k` has the length between joints `k + 1` and `k`,
    /// each joint's rest angle is the heading of its rest direction, and its
    /// rest rotation is its current one; the chain can then be solved. On
    /// failure nothing is recorded and the chain is never solved.
    pub fn capture_rest_pose<D, H>(
        &mut self,
        poses: &Vec<Option<Pose<P, Q>>>,
        distance: D,
        heading: H,
    ) -> (r: Result<(), RestPoseError>) where D: Fn(P, P) -> S, H: Fn(P, P) -> S
        requires
            old(self).wf(),
            old(self).rest == RestState::Pending,
            poses.len() == old(self).chain.len(),
            forall|a: P, b: P| #[trigger] distance.requires((a, b)),
            forall|a: P, b: P| #[trigger] heading.requires((a, b)),
        ensures
            final(self).wf(),
            final(self).target == old(self).target,
            final(self).chain == old(self).chain,
            final(self).joint_constraints == old(self).joint_constraints,
            final(self).iterations == old(self).iterations,
            final(self).epsilon == old(self).epsilon,
            r is Ok <==> final(self).rest == RestState::Ready,
            r == Err::<(), RestPoseError>(RestPoseError::TooShort) <==> poses.len() < 2,
            forall|k: usize|
                r == Err::<(), RestPoseError>(RestPoseError::MissingJoint(k)) <==> {
                    &&& poses.len() >= 2
                    &&& k < poses.len()
                    &&& poses[k as int] is None
                    &&& forall|j: int| 0 <= j < k ==> poses[j] is Some
                },
            r is Err ==> final(self).rest == RestState::Inert,
            r is Ok ==> {
                &&& forall|k: int|
                    0 <= k < poses.len() - 1 ==> distance.ensures(
                        (position_at(poses@, k + 1), position_at(poses@, k)),
                        #[trigger] final(self).bone_data[k].length,
                    )
                &&& forall|i: int|
                    0 <= i < poses.len() ==> heading.ensures(
                        (position_at(poses@, rest_from(i)), position_at(poses@, rest_to(i))),
                        #[trigger] final(self).joint_data[i].angle,
                    )
                &&& forall|i: int|
                    0 <= i < poses.len() ==> #[trigger] final(self).rest_data[i]
                        == poses[i]->Some_0.rotation
            },
    {
        let n = poses.len();
        if n < 2 {
            self.rest = RestState::Inert;
            return Err(RestPoseError::TooShort);
        }
        let mut resolved: Vec<Pose<P, Q>> = Vec::new();
        let mut k: usize = 0;
        while k < n
            invariant
                *self == *old(self),
                self.wf(),
                self.rest == RestState::Pending,
                n == poses.len(),
                n >= 2,
                k <= n,
                resolved.len() == k,
                forall|j: int| 0 <= j < k ==> poses[j] == Some(#[trigger] resolved[j]),
            decreases n - k,
        {
            match poses[k] {
                Some(pose) => resolved.push(pose),
                None => {
                    proof {
                        assert forall|m: usize|
                            m < n && poses[m as int] is None && (forall|j: int|
                                0 <= j < m ==> poses[j] is Some) implies m == k by {
                            if m < k {
                                assert(poses[m as int] == Some(resolved[m as int]));
                            }
                            if m > k {
                                assert(poses[k as int] is None);
                            }
                        }
                        assert forall|j: int| 0 <= j < k implies poses[j] is Some by {
                            assert(poses[j] == Some(resolved[j]));
                        }
                    }
                    self.rest = RestState::Inert;
                    return Err(RestPoseError::MissingJoint(k));
                },
            }
            k = k + 1;
        }
        assert forall|j: int| 0 <= j < n implies poses[j] is Some by {
            assert(poses[j] == Some(resolved[j]));
        }
        let mut bones: Vec<Bone<S>> = Vec::new();
        let mut rests: Vec<JointRest<S>> = Vec::new();
        let mut rotations: Vec<Q> = Vec::new();
        let mut i: usize = 0;
        while i < n
            invariant
                *self == *old(self),
                n == poses.len(),
                n >= 2,
                resolved.len() == n,
                forall|j: int| 0 <= j < n ==> poses[j] == Some(#[trigger] resolved[j]),
                forall|a: P, b: P| #[trigger] distance.requires((a, b)),
                forall|a: P, b: P| #[trigger] heading.requires((a, b)),
                i <= n,
                rotations.len() == i,
                rests.len() == i,
                bones.len() == if i == 0 {
                    0
                } else {
                    i - 1
                },
                forall|k: int|
                    0 <= k < bones.len() ==> distance.ensures(
                        (position_at(poses@, k + 1), position_at(poses@, k)),
                        #[trigger] bones[k].length,
                    ),
                forall|j: int|
                    0 <= j < i ==> heading.ensures(
                        (position_at(poses@, rest_from(j)), position_at(poses@, rest_to(j))),
                        #[trigger] rests[j].angle,
                    ),
                forall|j: int| 0 <= j < i ==> #[trigger] rotations[j] == poses[j]->Some_0.rotation,
            decreases n - i,
        {
            let here = resolved[i];
            rotations.push(here.rotation);
            let angle = if i == 0 {
                heading(here.position, resolved[1].position)
            } else {
                let prev = resolved[i - 1];
                bones.push(Bone::new(distance(here.position, prev.position)));
                heading(prev.position, here.position)
            };
            rests.push(JointRest::new(angle));
            i = i + 1;
        }
        self.bone_data = bones;
        self.joint_data = rests;
        self.rest_data = rotations;
        self.rest = RestState::Ready;
        Ok(())
    }

    /// The bone between joints `a` and `b`, in either order.
    pub fn bone(&self, a: Joint, b: Joint) -> (r: Option<Bone<S>>)
        requires
            self.wf(),
        ensures
            r == self.bone_between(a, b),
    {
        let n = self.bone_data.len();
        let mut k: usize = 0;
        while k < n
            invariant
                self.wf(),
                n == self.bone_data.len(),
                k <= n,
                self.bone_from(a, b, k as int) == self.bone_between(a, b),
            decreases n - k,
        {
            let first = self.chain[k];
            let second = self.chain[k + 1];
            if (first == a && second == b) || (first == b && second == a) {
                return Some(self.bone_data[k]);
            }
            k = k + 1;
        }
        None
    }

    /// The limits of joint `j`, if it has any.
    pub fn joint_constraint(&self, j: Joint) -> (r: Option<JointConstraint<S>>)
        ensures
            r == self.limits_of(j),
    {
        match self.joint_constraints.get(&j) {
            Some(limits) => Some(*limits),
            None => None,
        }
    }

    /// The position the effector reaches for in this step. `followed` is the
    /// position of the node named by an `Entity` target, where it was found.
    /// There is none for a chain without a target, or whose rest pose is not
    /// known: such a chain is not solved.
    pub fn target_position(&self, followed: Option<P>) -> (r: Option<P>)
        ensures
            r == self.spec_target_position(followed),
    {
        if self.rest != RestState::Ready {
            return None;
        }
        match self.target {
            IKTarget::Unset => None,
            IKTarget::Pos(p) => Some(p),
            IKTarget::Entity(_) => followed,
        }
    }

    /// Whether the solver runs another pass, after `done` passes, given
    /// whether the effector already lies within `epsilon` of the target.
    pub fn should_iterate(&self, done: usize, converged: bool) -> (r: bool)
        ensures
            r == (done < self.iterations && !converged),
    {
        done < self.iterations && !converged
    }
}

/// The bone between two joints does not depend on the order they are named in.
pub proof fn lemma_bone_symmetric<P, S, Q>(c: &IKConstraint<P, S, Q>, a: Joint, b: Joint)
    requires
        c.wf(),
    ensures
        c.bone_between(a, b) == c.bone_between(b, a),
{
    lemma_bone_from_symmetric(c, a, b, 0);
}

proof fn lemma_bone_from_symmetric<P, S, Q>(c: &IKConstraint<P, S, Q>, a: Joint, b: Joint, k: int)
    requires
        c.wf(),
        0 <= k,
    ensures
        c.bone_from(a, b, k) == c.bone_from(b, a, k),
    decreases c.bone_data.len() - k,
{
    if k < c.bone_data.len() {
        lemma_bone_from_symmetric(c, a, b, k + 1);
    }
}

proof fn lemma_bone_from_found<P, S, Q>(c: &IKConstraint<P, S, Q>, a: Joint, b: Joint, k: int, m: int)
    requires
        c.wf(),
        0 <= k <= m < c.bone_data.len(),
        joins(c.chain@, m, a, b),
    ensures
        c.bone_from(a, b, k) is Some,
    decreases m - k,
{
    if k < m && !joins(c.chain@, k, a, b) {
        lemma_bone_from_found(c, a, b, k + 1, m);
    }
}

/// Once the rest pose is captured, every two adjacent joints of the chain
/// have a bone between them.
pub proof fn lemma_adjacent_joints_have_bones<P, S, Q>(c: &IKConstraint<P, S, Q>, k: int)
    requires
        c.wf(),
        c.rest == RestState::Ready,
        0 <= k < c.chain.len() - 1,
    ensures
        c.bone_between(c.chain[k], c.chain[k + 1]) is Some,
{
    lemma_bone_from_found(c, c.chain[k], c.chain[k + 1], 0, k);
}

/// A chain without a target is not solved: there is no position to reach
/// for, whatever the host found.
pub proof fn lemma_no_target_left_alone<P, S, Q>(c: &IKConstraint<P, S, Q>, followed: Option<P>)
    requires
        c.target is Unset,
    ensures
        c.spec_target_position(followed) is None,
{
}

} // verus!
