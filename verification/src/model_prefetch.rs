//! Which harnesses' model lists a render asks the device for.
use vstd::prelude::*;
use crate::proto::HarnessId;

verus! {

/// How much a view is about to show.
#[derive(Debug, Clone, Copy, PartialEq, Eq, Structural)]
pub enum ModelPrefetch {
    /// A chat is loading: only the harness it runs on.
    Effective,
    /// The picker is opening: every offered harness.
    AllOffered,
}

/// The harnesses to ask for: the offered ones when the picker opens, none
/// otherwise, and the chat's own harness in any case, once.
pub open spec fn prefetch_spec(scope: ModelPrefetch, offered: Seq<HarnessId>, effective: Option<HarnessId>) -> Seq<HarnessId> {
    let base = match scope {
        ModelPrefetch::Effective => Seq::<HarnessId>::empty(),
        ModelPrefetch::AllOffered => offered,
    };
    match effective {
        Some(e) => if base.contains(e) {
            base
        } else {
            base.push(e)
        },
        None => base,
    }
}

fn contains_harness(v: &Vec<HarnessId>, h: HarnessId) -> (r: bool)
    ensures
        r == v@.contains(h),
{
    let mut i: usize = 0;
    while i < v.len()
        invariant
            i <= v@.len(),
            forall|j: int| 0 <= j < i ==> v@[j] != h,
        decreases v@.len() - i,
    {
        if v[i] == h {
            assert(v@[i as int] == h);
            return true;
        }
        i += 1;
    }
    false
}

/// The model lists a render asks for.
pub fn prefetch_targets(scope: ModelPrefetch, offered: &[HarnessId], effective: Option<HarnessId>) -> (r: Vec<HarnessId>)
    ensures
        r@ == prefetch_spec(scope, offered@, effective),
{
    let mut targets: Vec<HarnessId> = match scope {
        ModelPrefetch::Effective => Vec::new(),
        ModelPrefetch::AllOffered => {
            let mut t: Vec<HarnessId> = Vec::new();
            let mut i: usize = 0;
            while i < offered.len()
                invariant
                    i <= offered@.len(),
                    t@ == offered@.take(i as int),
                decreases offered@.len() - i,
            {
                t.push(offered[i]);
                i += 1;
                assert(offered@.take(i as int) == offered@.take(i - 1).push(offered@[i - 1]));
            }
            assert(offered@.take(offered@.len() as int) == offered@);
            t
        },
    };
    if let Some(e) = effective {
        if !contains_harness(&targets, e) {
            targets.push(e);
        }
    }
    targets
}

/// The chat's own harness is always asked for, and nothing is asked twice
/// that was offered once.
pub proof fn law_effective_is_asked_once(scope: ModelPrefetch, offered: Seq<HarnessId>, e: HarnessId)
    requires
        forall|i: int, j: int| 0 <= i < j < offered.len() ==> offered[i] != offered[j],
    ensures
        prefetch_spec(scope, offered, Some(e)).contains(e),
        forall|i: int, j: int|
            0 <= i < j < prefetch_spec(scope, offered, Some(e)).len() ==> prefetch_spec(
                scope,
                offered,
                Some(e),
            )[i] != prefetch_spec(scope, offered, Some(e))[j],
{
    let r = prefetch_spec(scope, offered, Some(e));
    match scope {
        ModelPrefetch::Effective => {
            assert(r =~= seq![e]);
            assert(r[0] == e);
        },
        ModelPrefetch::AllOffered => {
            if offered.contains(e) {
            } else {
                assert(r[offered.len() as int] == e);
            }
        },
    }
}

} // verus!
