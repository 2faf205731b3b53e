//! Which ONNX Runtime execution provider this machine gets.
//!
//! The hardware is not chosen, so the provider is discovered rather than
//! assumed, and CPU is a supported answer rather than a failure. The startup
//! self-check reports the result at every launch, so a machine that quietly
//! fell back to CPU says so instead of being mysteriously slow.

use vstd::prelude::*;

verus! {

/// An execution provider this build can ask ONNX Runtime for.
///
/// Only the providers compiled into this build appear here. CUDA and TensorRT
/// join the list when there is a Linux GPU machine to test them on.
#[derive(Debug, Clone, Copy, PartialEq, Eq, Structural)]
pub enum ExecutionProviderKind {
    /// Apple's CoreML, on macOS builds.
    CoreMl,
    /// The always-available fallback. Correct on CPU is the baseline;
    /// accelerators are an optimization.
    Cpu,
}

/// Whether a runtime offers `provider`, given whether its CoreML provider
/// reports itself available. CPU is always offered.
pub open spec fn available(provider: ExecutionProviderKind, coreml_available: bool) -> bool {
    match provider {
        ExecutionProviderKind::CoreMl => coreml_available,
        ExecutionProviderKind::Cpu => true,
    }
}

impl ExecutionProviderKind {
    /// Whether the runtime offers the provider, given what its CoreML
    /// provider reported: whether it is available is a property of the
    /// runtime binary, which the application asks.
    ///
    /// Availability is a property of the runtime binary, not of a Session: a
    /// model whose operators the provider cannot handle still falls back
    /// per-node at inference time.
    pub fn is_available(self, coreml_available: bool) -> (r: bool)
        ensures
            r == available(self, coreml_available),
    {
        match self {
            ExecutionProviderKind::CoreMl => coreml_available,
            ExecutionProviderKind::Cpu => true,
        }
    }
}

/// The order providers are tried in.
pub open spec fn preference_order() -> Seq<ExecutionProviderKind> {
    seq![ExecutionProviderKind::CoreMl, ExecutionProviderKind::Cpu]
}

/// Preference order: the first available provider wins, and CPU always ends
/// it.
pub fn preference() -> (r: Vec<ExecutionProviderKind>)
    ensures
        r@ == preference_order(),
{
    let r = vec![ExecutionProviderKind::CoreMl, ExecutionProviderKind::Cpu];
    assert(r@ =~= preference_order());
    r
}

/// The provider a machine runs inference on: the first available one in
/// preference order, CPU when none is.
pub open spec fn first_available(
    order: Seq<ExecutionProviderKind>,
    coreml_available: bool,
) -> ExecutionProviderKind
    decreases order.len(),
{
    if order.len() == 0 {
        ExecutionProviderKind::Cpu
    } else if available(order[0], coreml_available) {
        order[0]
    } else {
        first_available(order.drop_first(), coreml_available)
    }
}

/// Picks the execution provider this machine will run inference on, given
/// whether the runtime's CoreML provider reports itself available.
///
/// Never fails: an unaccelerated machine gets
/// [`ExecutionProviderKind::Cpu`], which is a supported configuration, not a
/// degraded one; a runtime with CoreML gets CoreML.
pub fn select_execution_provider(coreml_available: bool) -> (r: ExecutionProviderKind)
    ensures
        r == first_available(preference_order(), coreml_available),
        r == (if coreml_available {
            ExecutionProviderKind::CoreMl
        } else {
            ExecutionProviderKind::Cpu
        }),
        available(r, coreml_available),
{
    let order = preference();
    let mut i: usize = 0;
    assert(order@.skip(0) =~= order@);
    while i < order.len()
        invariant
            i <= order@.len(),
            order@ == preference_order(),
            first_available(order@, coreml_available) == first_available(
                order@.skip(i as int),
                coreml_available,
            ),
        decreases order@.len() - i,
    {
        assert(order@.skip(i as int).drop_first() =~= order@.skip(i + 1));
        if order[i].is_available(coreml_available) {
            return order[i];
        }
        i = i + 1;
    }
    assert(order@.skip(i as int) =~= Seq::<ExecutionProviderKind>::empty());
    ExecutionProviderKind::Cpu
}

/// Whatever the preference order and whatever the runtime offers, the
/// provider it selects is one the runtime offers.
pub proof fn lemma_selection_is_available(order: Seq<ExecutionProviderKind>, coreml_available: bool)
    ensures
        available(first_available(order, coreml_available), coreml_available),
    decreases order.len(),
{
    if order.len() > 0 && !available(order[0], coreml_available) {
        lemma_selection_is_available(order.drop_first(), coreml_available);
    }
}

} // verus!
