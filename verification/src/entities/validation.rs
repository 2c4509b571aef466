use vstd::prelude::*;

verus! {

/// The outcome of validating a diagram: valid unless some warning is an error.
pub struct ValidationResult {
    pub valid: bool,
    pub warnings: Vec<ValidationWarning>,
}

/// One finding of the validator. `id` is a fresh random identifier.
pub struct ValidationWarning {
    pub id: u128,
    pub severity: Severity,
    pub message: String,
    pub node_ids: Vec<u128>,
    pub edge_ids: Vec<u128>,
    pub rule: ValidationRule,
}

#[derive(Clone, Copy, Debug, PartialEq, Eq, Structural)]
pub enum Severity {
    Error,
    Warning,
    Info,
}

#[derive(Clone, Copy, Debug, PartialEq, Eq, Structural)]
pub enum ValidationRule {
    OrphanNode,
    SingleTargetLb,
    InvalidContainment,
    CircularSyncDependency,
    SinglePointOfFailure,
    MissingObservability,
    MissingSecurity,
    DatabaseWithoutBackup,
    SyncChainTooDeep,
    MessageQueueWithoutDlq,
}

/// Everything a finding states, apart from its random identifier.
pub struct FindingView {
    pub severity: Severity,
    pub message: Seq<char>,
    pub node_ids: Seq<u128>,
    pub edge_ids: Seq<u128>,
    pub rule: ValidationRule,
}

impl View for ValidationWarning {
    type V = FindingView;

    open spec fn view(&self) -> FindingView {
        FindingView {
            severity: self.severity,
            message: self.message@,
            node_ids: self.node_ids@,
            edge_ids: self.edge_ids@,
            rule: self.rule,
        }
    }
}

pub open spec fn findings_view(s: Seq<ValidationWarning>) -> Seq<FindingView> {
    s.map_values(|w: ValidationWarning| w@)
}

} // verus!
