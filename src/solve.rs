use vstd::prelude::*;

verus! {

/// One step of a solver pass over a chain of joints, by their index in the
/// chain. The host carries out each step with its own arithmetic.
#[derive(Clone, Copy, Debug, PartialEq, Eq, Structural)]
pub enum Step {
    /// Move the effector onto the target, ignoring every constraint.
    Seek { effector: usize },
    /// Put joint `moved` on the line towards joint `toward`, at the length of
    /// the bone between them. No angle limit applies.
    Pull { moved: usize, toward: usize },
    /// Turn the effector to face the target, or away from joint `prev` where
    /// it already stands on the target.
    FaceTarget { effector: usize, prev: usize },
    /// Put the anchor back where it stood when the pass began.
    Repin { anchor: usize },
    /// Clamp the turn from the previous direction to the limits of joint
    /// `from`, turn `from` that way and place joint `to` along it, at the
    /// bone's length.
    Reach { from: usize, to: usize },
    /// Clamp the effector's facing to its limits, against the last direction
    /// of the forward pass.
    ClampEffector { effector: usize },
}

/// The step at index `j` of a pass over a chain of `n` joints: the seek, the
/// backward pass from the effector to the anchor, the effector's turn, the
/// anchor's return, the forward pass from the anchor to the effector, and
/// the effector's clamp.
pub open spec fn step_at(n: int, j: int) -> Step {
    if j == 0 {
        Step::Seek { effector: (n - 1) as usize }
    } else if j < n {
        Step::Pull { moved: (n - 1 - j) as usize, toward: (n - j) as usize }
    } else if j == n {
        Step::FaceTarget { effector: (n - 1) as usize, prev: (n - 2) as usize }
    } else if j == n + 1 {
        Step::Repin { anchor: 0 }
    } else if j <= 2 * n {
        Step::Reach { from: (j - n - 2) as usize, to: (j - n - 1) as usize }
    } else {
        Step::ClampEffector { effector: (n - 1) as usize }
    }
}

/// The steps of one pass over a chain of `n` joints.
pub open spec fn pass_plan(n: int) -> Seq<Step> {
    Seq::new((2 * n + 2) as nat, |j: int| step_at(n, j))
}

/// The joint whose position a step writes, if any.
pub open spec fn places(s: Step) -> Option<int> {
    match s {
        Step::Seek { effector } => Some(effector as int),
        Step::Pull { moved, .. } => Some(moved as int),
        Step::Repin { anchor } => Some(anchor as int),
        Step::Reach { to, .. } => Some(to as int),
        _ => None,
    }
}

/// The joint whose rotation a step writes, if any.
pub open spec fn turns(s: Step) -> Option<int> {
    match s {
        Step::FaceTarget { effector, .. } => Some(effector as int),
        Step::Reach { from, .. } => Some(from as int),
        Step::ClampEffector { effector } => Some(effector as int),
        _ => None,
    }
}

/// The steps of one solver pass over a chain of `n` joints, in the order the
/// host carries them out.
pub fn iteration_plan(n: usize) -> (r: Vec<Step>)
    requires
        2 <= n,
        2 * n + 2 <= usize::MAX,
    ensures
        r@ == pass_plan(n as int),
{
    let mut r: Vec<Step> = Vec::new();
    r.push(Step::Seek { effector: n - 1 });
    let mut k: usize = 1;
    while k < n
        invariant
            2 <= n,
            2 * n + 2 <= usize::MAX,
            1 <= k <= n,
            r.len() == k,
            forall|j: int| 0 <= j < k ==> r[j] == step_at(n as int, j),
        decreases n - k,
    {
        r.push(Step::Pull { moved: n - 1 - k, toward: n - k });
        k = k + 1;
    }
    r.push(Step::FaceTarget { effector: n - 1, prev: n - 2 });
    r.push(Step::Repin { anchor: 0 });
    let mut i: usize = 0;
    while i + 1 < n
        invariant
            2 <= n,
            2 * n + 2 <= usize::MAX,
            i + 1 <= n,
            r.len() == n + 2 + i,
            forall|j: int| 0 <= j < n + 2 + i ==> r[j] == step_at(n as int, j),
        decreases n - i,
    {
        r.push(Step::Reach { from: i, to: i + 1 });
        i = i + 1;
    }
    r.push(Step::ClampEffector { effector: n - 1 });
    assert(r@ =~= pass_plan(n as int));
    r
}

/// Every step of a pass names joints of the chain, and the joints that a
/// bone step names are adjacent.
pub proof fn lemma_steps_stay_in_chain(n: usize)
    requires
        2 <= n,
    ensures
        forall|j: int|
            0 <= j < pass_plan(n as int).len() ==> match #[trigger] pass_plan(n as int)[j] {
                Step::Seek { effector } => effector == n - 1,
                Step::Pull { moved, toward } => toward == moved + 1 && toward < n,
                Step::FaceTarget { effector, prev } => effector == n - 1 && prev == n - 2,
                Step::Repin { anchor } => anchor == 0,
                Step::Reach { from, to } => to == from + 1 && to < n,
                Step::ClampEffector { effector } => effector == n - 1,
            },
{
    assert forall|j: int| 0 <= j < pass_plan(n as int).len() implies match #[trigger] pass_plan(
        n as int,
    )[j] {
        Step::Seek { effector } => effector == n - 1,
        Step::Pull { moved, toward } => toward == moved + 1 && toward < n,
        Step::FaceTarget { effector, prev } => effector == n - 1 && prev == n - 2,
        Step::Repin { anchor } => anchor == 0,
        Step::Reach { from, to } => to == from + 1 && to < n,
        Step::ClampEffector { effector } => effector == n - 1,
    } by {
        assert(pass_plan(n as int)[j] == step_at(n as int, j));
    }
}

/// The anchor's return is the last step of a pass that places the anchor:
/// whatever the backward pass did to it, the forward pass starts from where
/// the anchor stood and never moves it.
pub proof fn lemma_anchor_pinned(n: usize)
    requires
        2 <= n,
    ensures
        pass_plan(n as int)[n + 1] == (Step::Repin { anchor: 0 }),
        forall|j: int|
            n + 1 < j < pass_plan(n as int).len() ==> places(#[trigger] pass_plan(n as int)[j])
                != Some(0int),
{
    assert forall|j: int| n + 1 < j < pass_plan(n as int).len() implies places(
        #[trigger] pass_plan(n as int)[j],
    ) != Some(0int) by {
        assert(pass_plan(n as int)[j] == step_at(n as int, j));
    }
}

/// Each bone is laid last by the forward pass: step `n + 2 + k` places joint
/// `k + 1` from joint `k`, and every later step places a joint further along
/// the chain, or none, so neither end of bone `k` moves again in the pass.
pub proof fn lemma_bones_laid_by_forward_pass(n: usize)
    requires
        2 <= n,
    ensures
        forall|k: usize|
            k < n - 1 ==> #[trigger] pass_plan(n as int)[n + 2 + k] == (Step::Reach {
                from: k,
                to: (k + 1) as usize,
            }),
        forall|j: int|
            n + 1 < j < pass_plan(n as int).len() ==> places(#[trigger] pass_plan(n as int)[j])
                == if j <= 2 * n {
                Some(j - n - 1)
            } else {
                None
            },
{
    assert forall|k: usize| k < n - 1 implies #[trigger] pass_plan(n as int)[n + 2 + k]
        == (Step::Reach { from: k, to: (k + 1) as usize }) by {
        assert(pass_plan(n as int)[n + 2 + k] == step_at(n as int, n + 2 + k));
    }
    assert forall|j: int| n + 1 < j < pass_plan(n as int).len() implies places(
        #[trigger] pass_plan(n as int)[j],
    ) == if j <= 2 * n {
        Some(j - n - 1)
    } else {
        None
    } by {
        assert(pass_plan(n as int)[j] == step_at(n as int, j));
    }
}

/// Each joint's rotation is written last by a clamped step: in the forward
/// pass, step `n + 2 + i` turns joint `i`, once, and the closing clamp turns
/// the effector. No step before the forward pass is a clamped one.
pub proof fn lemma_turns_end_clamped(n: usize)
    requires
        2 <= n,
    ensures
        forall|j: int|
            n + 1 < j < pass_plan(n as int).len() ==> turns(#[trigger] pass_plan(n as int)[j])
                == Some(j - n - 2),
        pass_plan(n as int).last() == (Step::ClampEffector { effector: (n - 1) as usize }),
        forall|j: int|
            0 <= j < n + 2 ==> !(#[trigger] pass_plan(n as int)[j] is Reach)
                && !(pass_plan(n as int)[j] is ClampEffector),
{
    assert forall|j: int| n + 1 < j < pass_plan(n as int).len() implies turns(
        #[trigger] pass_plan(n as int)[j],
    ) == Some(j - n - 2) by {
        assert(pass_plan(n as int)[j] == step_at(n as int, j));
    }
    assert forall|j: int| 0 <= j < n + 2 implies !(#[trigger] pass_plan(n as int)[j] is Reach)
        && !(pass_plan(n as int)[j] is ClampEffector) by {
        assert(pass_plan(n as int)[j] == step_at(n as int, j));
    }
}

} // verus!
