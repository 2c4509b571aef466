use vstd::prelude::*;

verus! {

/// The kind of a server-sent event produced while a diagram is generated.
#[derive(Clone, Copy, Debug, PartialEq, Eq, Structural)]
pub enum GenerateEventType {
    NodeAdded,
    EdgeAdded,
    NodeRemoved,
    NodeUpdated,
    EdgeRemoved,
    LayoutUpdated,
    Complete,
    Error,
}

/// The event name used on the wire for each event kind.
pub open spec fn event_name(t: GenerateEventType) -> Seq<char> {
    match t {
        GenerateEventType::NodeAdded => "node_added"@,
        GenerateEventType::EdgeAdded => "edge_added"@,
        GenerateEventType::NodeRemoved => "node_removed"@,
        GenerateEventType::NodeUpdated => "node_updated"@,
        GenerateEventType::EdgeRemoved => "edge_removed"@,
        GenerateEventType::LayoutUpdated => "layout_updated"@,
        GenerateEventType::Complete => "complete"@,
        GenerateEventType::Error => "error"@,
    }
}

impl GenerateEventType {
    pub fn as_str(&self) -> (s: &'static str)
        ensures
            s@ == event_name(*self),
    {
        match self {
            GenerateEventType::NodeAdded => "node_added",
            GenerateEventType::EdgeAdded => "edge_added",
            GenerateEventType::NodeRemoved => "node_removed",
            GenerateEventType::NodeUpdated => "node_updated",
            GenerateEventType::EdgeRemoved => "edge_removed",
            GenerateEventType::LayoutUpdated => "layout_updated",
            GenerateEventType::Complete => "complete",
            GenerateEventType::Error => "error",
        }
    }
}

} // verus!
