//! Identifiers of layout nodes.

use vstd::prelude::*;

verus! {

/// A unique identifier for a layout node, generated when requesting a layout
/// from the layout engine (the engine's node id).
#[derive(Copy, Clone, Eq, PartialEq, Debug, Hash, Structural)]
pub struct LayoutId(u64);

impl LayoutId {
    /// The engine node id this identifier stands for.
    pub closed spec fn spec_node_id(&self) -> u64 {
        self.0
    }
}

impl From<u64> for LayoutId {
    fn from(node_id: u64) -> (id: Self) {
        LayoutId(node_id)
    }
}

impl vstd::std_specs::convert::FromSpecImpl<u64> for LayoutId {
    open spec fn obeys_from_spec() -> bool {
        true
    }

    closed spec fn from_spec(node_id: u64) -> Self {
        LayoutId(node_id)
    }
}

impl From<LayoutId> for u64 {
    fn from(layout_id: LayoutId) -> (node_id: u64) {
        layout_id.0
    }
}

impl vstd::std_specs::convert::FromSpecImpl<LayoutId> for u64 {
    open spec fn obeys_from_spec() -> bool {
        true
    }

    closed spec fn from_spec(layout_id: LayoutId) -> u64 {
        layout_id.0
    }
}

/// Converting a node id to a layout id and back gives the node id again,
/// and the other way round.
pub proof fn lemma_layout_id_round_trip(node_id: u64, layout_id: LayoutId)
    ensures
        <u64 as vstd::std_specs::convert::FromSpec<LayoutId>>::from_spec(
            <LayoutId as vstd::std_specs::convert::FromSpec<u64>>::from_spec(node_id),
        ) == node_id,
        <LayoutId as vstd::std_specs::convert::FromSpec<u64>>::from_spec(
            <u64 as vstd::std_specs::convert::FromSpec<LayoutId>>::from_spec(layout_id),
        ) == layout_id,
{
}

} // verus!
