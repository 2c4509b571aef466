//! Terraform export. The name counts are found by scanning the nodes rather
//! than through a hash map, so that each suffix follows the node order the
//! spec states.
use vstd::prelude::*;
use vstd::string::*;
use crate::entities::diagram::{CloudProvider, Diagram, DiagramView};
use crate::entities::errors::{DomainError, DomainErrorView};
use crate::entities::node::{is_group, is_group_type, non_group_positions, Node, NodeView};
use crate::entities::cloud_catalog::cloud_mapping_for;
use crate::services::translation::{law_translation_uses_catalog, mapping_on, translated};
use crate::text::{
    ascii_lower, chars_within, joined_texts, is_ascii_char, is_ascii_lower, is_ascii_text, is_ascii_upper,
    lemma_collapse_runs, lemma_no_double_subrange, lemma_strip_trailing, no_double,
    spec_is_alphanumeric, chars_of, collapse_runs, collapse_runs_exec, decimal, is_ascii_digit, is_ascii_digit_char,
    lowercase, push_decimal, replace_non_alnum, replace_non_alnum_exec, spec_lowercase,
    strip_trailing, strip_trailing_exec, string_from_chars, suffix_from,
};

verus! {

/// The four files of a Terraform export.
pub struct TerraformFiles {
    pub providers_tf: String,
    pub main_tf: String,
    pub variables_tf: String,
    pub outputs_tf: String,
}

pub struct TerraformFilesView {
    pub providers_tf: Seq<char>,
    pub main_tf: Seq<char>,
    pub variables_tf: Seq<char>,
    pub outputs_tf: Seq<char>,
}

impl View for TerraformFiles {
    type V = TerraformFilesView;

    open spec fn view(&self) -> TerraformFilesView {
        TerraformFilesView {
            providers_tf: self.providers_tf@,
            main_tf: self.main_tf@,
            variables_tf: self.variables_tf@,
            outputs_tf: self.outputs_tf@,
        }
    }
}

/// A character that may not start a Terraform identifier here: an ASCII
/// digit or an underscore.
pub open spec fn is_leading_junk(c: char) -> bool {
    is_ascii_digit_char(c) || c == '_'
}

pub open spec fn strip_leading_junk(s: Seq<char>) -> Seq<char>
    decreases s.len(),
{
    if s.len() > 0 && is_leading_junk(s[0]) {
        strip_leading_junk(s.drop_first())
    } else {
        s
    }
}

/// A Terraform identifier for a label: lowercased, every non-alphanumeric
/// character turned into `_`, leading digits and underscores removed, runs of
/// `_` shortened to one, trailing `_` removed; `resource` when nothing is left.
pub open spec fn resource_name_of(label: Seq<char>) -> Seq<char> {
    let r = strip_trailing(
        collapse_runs(strip_leading_junk(replace_non_alnum(spec_lowercase(label), '_')), '_'),
        '_',
    );
    if r.len() == 0 {
        "resource"@
    } else {
        r
    }
}

fn strip_leading_junk_exec(s: &Vec<char>) -> (r: Vec<char>)
    ensures
        r@ == strip_leading_junk(s@),
{
    let mut i: usize = 0;
    assert(s@.subrange(0, s@.len() as int) =~= s@);
    while i < s.len() && (is_ascii_digit(s[i]) || s[i] == '_')
        invariant
            i <= s.len(),
            strip_leading_junk(s@) == strip_leading_junk(s@.subrange(i as int, s@.len() as int)),
        decreases s.len() - i,
    {
        assert(s@.subrange(i as int, s@.len() as int).drop_first() =~= s@.subrange(
            i + 1,
            s@.len() as int,
        ));
        i = i + 1;
    }
    suffix_from(s, i)
}

pub fn sanitize_resource_name(label: &str) -> (r: String)
    ensures
        r@ == resource_name_of(label@),
{
    let lower = lowercase(label);
    let chars = chars_of(lower.as_str());
    let mapped = replace_non_alnum_exec(&chars, '_');
    let stripped = strip_leading_junk_exec(&mapped);
    let collapsed = collapse_runs_exec(&stripped, '_');
    let trimmed = strip_trailing_exec(&collapsed, '_');
    if trimmed.len() == 0 {
        String::from_str("resource")
    } else {
        string_from_chars(&trimmed)
    }
}

/// `providers.tf`: the required provider and its configuration block.
pub open spec fn providers_tf(p: CloudProvider) -> Seq<char> {
    let required = match p {
        CloudProvider::Aws => "    aws = {\n      source  = \"hashicorp/aws\"\n      version = \"~> 5.0\"\n    }\n"@,
        CloudProvider::Gcp => "    google = {\n      source  = \"hashicorp/google\"\n      version = \"~> 5.0\"\n    }\n"@,
        CloudProvider::Azure => "    azurerm = {\n      source  = \"hashicorp/azurerm\"\n      version = \"~> 3.0\"\n    }\n"@,
    };
    let block = match p {
        CloudProvider::Aws => "provider \"aws\" {\n  region = var.region\n}\n"@,
        CloudProvider::Gcp => "provider \"google\" {\n  project = var.project_name\n  region  = var.region\n}\n"@,
        CloudProvider::Azure => "provider \"azurerm\" {\n  features {}\n}\n"@,
    };
    "terraform {\n  required_providers {\n"@ + required + "  }\n}\n\n"@ + block
}

/// The region a provider's variables default to.
pub open spec fn default_region(p: CloudProvider) -> Seq<char> {
    match p {
        CloudProvider::Aws => "us-east-1"@,
        CloudProvider::Gcp => "us-central1"@,
        CloudProvider::Azure => "eastus"@,
    }
}

/// `variables.tf`: the region and project name variables with their defaults.
pub open spec fn variables_tf(p: CloudProvider, diagram_name: Seq<char>) -> Seq<char> {
    "variable \"region\" {\n  description = \"Cloud region\"\n  type        = string\n  default     = \""@
        + default_region(p)
        + "\"\n}\n\nvariable \"project_name\" {\n  description = \"Project name\"\n  type        = string\n  default     = \""@
        + resource_name_of(diagram_name)
        + "\"\n}\n"@
}

/// The Terraform resource type recorded for a node on a provider;
/// `null_resource` when none is recorded.
pub open spec fn terraform_type_of(n: NodeView, p: CloudProvider) -> Seq<char> {
    let mapping = match n.provider_mappings {
        Some(pm) => match p {
            CloudProvider::Aws => pm.aws,
            CloudProvider::Gcp => pm.gcp,
            CloudProvider::Azure => pm.azure,
        },
        None => None,
    };
    match mapping {
        Some(m) => match m.terraform_resource_type {
            Some(t) => t,
            None => "null_resource"@,
        },
        None => "null_resource"@,
    }
}

/// How many non-group nodes of `nodes` have the identifier `base`.
pub open spec fn same_name_count(nodes: Seq<NodeView>, base: Seq<char>) -> nat
    decreases nodes.len(),
{
    if nodes.len() == 0 {
        0
    } else {
        let rest = same_name_count(nodes.drop_last(), base);
        if !is_group(nodes.last().node_type) && resource_name_of(nodes.last().label) == base {
            rest + 1
        } else {
            rest
        }
    }
}

/// The identifier of node `i`: its sanitized label, suffixed with `_k` when
/// `k > 0` earlier non-group nodes have the same sanitized label.
pub open spec fn resource_name_at(nodes: Seq<NodeView>, i: int) -> Seq<char> {
    let base = resource_name_of(nodes[i].label);
    let k = same_name_count(nodes.take(i), base);
    if k > 0 {
        base + "_"@ + decimal(k)
    } else {
        base
    }
}

pub open spec fn resource_block(tf_type: Seq<char>, name: Seq<char>, label: Seq<char>) -> Seq<char> {
    "resource \""@ + tf_type + "\" \""@ + name + "\" {\n  # "@ + label
        + "\n  tags = {\n    Name    = \""@ + label
        + "\"\n    Project = var.project_name\n  }\n}\n\n"@
}

fn resource_block_text(tf_type: &str, name: &str, label: &str) -> (r: String)
    ensures
        r@ == resource_block(tf_type@, name@, label@),
{
    let mut out = String::from_str("resource \"");
    out.append(tf_type);
    out.append("\" \"");
    out.append(name);
    out.append("\" {\n  # ");
    out.append(label);
    out.append("\n  tags = {\n    Name    = \"");
    out.append(label);
    out.append("\"\n    Project = var.project_name\n  }\n}\n\n");
    out
}

fn output_block_text(tf_type: &str, name: &str, label: &str) -> (r: String)
    ensures
        r@ == output_block(tf_type@, name@, label@),
{
    let mut out = String::from_str("output \"");
    out.append(name);
    out.append("_id\" {\n  description = \"ID of ");
    out.append(label);
    out.append("\"\n  value       = ");
    out.append(tf_type);
    out.append(".");
    out.append(name);
    out.append(".id\n}\n\n");
    out
}

pub open spec fn output_block(tf_type: Seq<char>, name: Seq<char>, label: Seq<char>) -> Seq<char> {
    "output \""@ + name + "_id\" {\n  description = \"ID of "@ + label + "\"\n  value       = "@
        + tf_type + "."@ + name + ".id\n}\n\n"@
}

/// `main.tf` for the first `n` nodes: one resource block per non-group node.
pub open spec fn main_tf(nodes: Seq<NodeView>, p: CloudProvider, n: int) -> Seq<char>
    decreases n,
{
    if n <= 0 {
        Seq::empty()
    } else {
        let rest = main_tf(nodes, p, n - 1);
        let node = nodes[n - 1];
        if is_group(node.node_type) {
            rest
        } else {
            rest + resource_block(terraform_type_of(node, p), resource_name_at(nodes, n - 1), node.label)
        }
    }
}

/// `outputs.tf` for the first `n` nodes: one output block per non-group node.
pub open spec fn outputs_tf(nodes: Seq<NodeView>, p: CloudProvider, n: int) -> Seq<char>
    decreases n,
{
    if n <= 0 {
        Seq::empty()
    } else {
        let rest = outputs_tf(nodes, p, n - 1);
        let node = nodes[n - 1];
        if is_group(node.node_type) {
            rest
        } else {
            rest + output_block(terraform_type_of(node, p), resource_name_at(nodes, n - 1), node.label)
        }
    }
}

/// The message of the error returned for a diagram without an active provider.
pub open spec fn no_provider_message() -> Seq<char> {
    "Diagram must have an active cloud provider to export Terraform"@
}

pub struct TerraformService;

impl TerraformService {
    /// The Terraform export of a diagram for its active provider; a validation
    /// error when no provider is active.
    pub fn generate(diagram: &Diagram) -> (r: Result<TerraformFiles, DomainError>)
        ensures
            match diagram@.active_provider {
                None => r matches Err(e) && e@ == DomainErrorView::Validation(no_provider_message()),
                Some(p) => r matches Ok(files) && files@ == (TerraformFilesView {
                    providers_tf: providers_tf(p),
                    main_tf: main_tf(diagram@.nodes, p, diagram@.nodes.len() as int),
                    variables_tf: variables_tf(p, diagram@.name),
                    outputs_tf: outputs_tf(diagram@.nodes, p, diagram@.nodes.len() as int),
                }),
            },
    {
        let provider = match diagram.active_provider {
            Some(p) => p,
            None => {
                return Err(DomainError::Validation(String::from_str(
                    "Diagram must have an active cloud provider to export Terraform",
                )));
            }
        };
        let providers_tf = Self::generate_providers(&provider);
        let variables_tf = Self::generate_variables(&provider, diagram.name.as_str());
        let (main_tf, outputs_tf) = Self::generate_resources(diagram, &provider);
        Ok(TerraformFiles { providers_tf, main_tf, variables_tf, outputs_tf })
    }

    pub fn generate_providers(provider: &CloudProvider) -> (r: String)
        ensures
            r@ == providers_tf(*provider),
    {
        let mut out = String::from_str("terraform {\n  required_providers {\n");
        match provider {
            CloudProvider::Aws => {
                out.append("    aws = {\n      source  = \"hashicorp/aws\"\n      version = \"~> 5.0\"\n    }\n");
            }
            CloudProvider::Gcp => {
                out.append("    google = {\n      source  = \"hashicorp/google\"\n      version = \"~> 5.0\"\n    }\n");
            }
            CloudProvider::Azure => {
                out.append("    azurerm = {\n      source  = \"hashicorp/azurerm\"\n      version = \"~> 3.0\"\n    }\n");
            }
        }
        out.append("  }\n}\n\n");
        match provider {
            CloudProvider::Aws => {
                out.append("provider \"aws\" {\n  region = var.region\n}\n");
            }
            CloudProvider::Gcp => {
                out.append("provider \"google\" {\n  project = var.project_name\n  region  = var.region\n}\n");
            }
            CloudProvider::Azure => {
                out.append("provider \"azurerm\" {\n  features {}\n}\n");
            }
        }
        out
    }

    pub fn generate_variables(provider: &CloudProvider, diagram_name: &str) -> (r: String)
        ensures
            r@ == variables_tf(*provider, diagram_name@),
    {
        let default_region = match provider {
            CloudProvider::Aws => "us-east-1",
            CloudProvider::Gcp => "us-central1",
            CloudProvider::Azure => "eastus",
        };
        let sanitized_name = sanitize_resource_name(diagram_name);
        let mut out = String::from_str(
            "variable \"region\" {\n  description = \"Cloud region\"\n  type        = string\n  default     = \"",
        );
        out.append(default_region);
        out.append(
            "\"\n}\n\nvariable \"project_name\" {\n  description = \"Project name\"\n  type        = string\n  default     = \"",
        );
        out.append(sanitized_name.as_str());
        out.append("\"\n}\n");
        out
    }

    fn terraform_type(node: &Node, provider: &CloudProvider) -> (r: String)
        ensures
            r@ == terraform_type_of(node@, *provider),
    {
        match &node.provider_mappings {
            Some(pm) => {
                let mapping = match provider {
                    CloudProvider::Aws => &pm.aws,
                    CloudProvider::Gcp => &pm.gcp,
                    CloudProvider::Azure => &pm.azure,
                };
                match mapping {
                    Some(m) => match &m.terraform_resource_type {
                        Some(t) => t.clone(),
                        None => String::from_str("null_resource"),
                    },
                    None => String::from_str("null_resource"),
                }
            }
            None => String::from_str("null_resource"),
        }
    }

    /// `main.tf` and `outputs.tf` for all nodes of the diagram.
    pub fn generate_resources(diagram: &Diagram, provider: &CloudProvider) -> (r: (String, String))
        ensures
            r.0@ == main_tf(diagram@.nodes, *provider, diagram@.nodes.len() as int),
            r.1@ == outputs_tf(diagram@.nodes, *provider, diagram@.nodes.len() as int),
    {
        let ghost nodes = diagram@.nodes;
        let n = diagram.nodes.len();
        // the sanitized label of every node, computed once
        let mut bases: Vec<String> = Vec::new();
        let mut i: usize = 0;
        while i < n
            invariant
                n == diagram.nodes@.len(),
                nodes == diagram@.nodes,
                i <= n,
                bases@.len() == i,
                forall|j: int| 0 <= j < i ==> bases@[j]@ == resource_name_of(nodes[j].label),
            decreases n - i,
        {
            bases.push(sanitize_resource_name(diagram.nodes[i].label.as_str()));
            i = i + 1;
        }
        let mut main = String::new();
        let mut outputs = String::new();
        let mut i: usize = 0;
        while i < n
            invariant
                n == diagram.nodes@.len(),
                nodes == diagram@.nodes,
                nodes.len() == n,
                i <= n,
                bases@.len() == n,
                forall|j: int| 0 <= j < n ==> bases@[j]@ == resource_name_of(nodes[j].label),
                main@ == main_tf(nodes, *provider, i as int),
                outputs@ == outputs_tf(nodes, *provider, i as int),
            decreases n - i,
        {
            let node = &diagram.nodes[i];
            if !is_group_type(&node.node_type) {
                let name = Self::resource_identifier(diagram, &bases, i);
                let tf_type = Self::terraform_type(node, provider);
                let block = resource_block_text(tf_type.as_str(), name.as_str(), node.label.as_str());
                let out = output_block_text(tf_type.as_str(), name.as_str(), node.label.as_str());
                main.append(block.as_str());
                outputs.append(out.as_str());
            }
            i = i + 1;
        }
        (main, outputs)
    }

    /// The identifier of node `i` (see `resource_name_at`).
    fn resource_identifier(diagram: &Diagram, bases: &Vec<String>, i: usize) -> (r: String)
        requires
            i < diagram.nodes@.len(),
            bases@.len() == diagram.nodes@.len(),
            forall|j: int|
                0 <= j < bases@.len() ==> bases@[j]@ == resource_name_of(diagram@.nodes[j].label),
        ensures
            r@ == resource_name_at(diagram@.nodes, i as int),
    {
        let count = Self::count_same_name(diagram, bases, i);
        let mut name = bases[i].clone();
        if count > 0 {
            name.append("_");
            push_decimal(&mut name, count as u64);
        }
        name
    }

    /// The number of non-group nodes before position `i` whose identifier
    /// base equals that of node `i`.
    fn count_same_name(diagram: &Diagram, bases: &Vec<String>, i: usize) -> (k: usize)
        requires
            i < diagram.nodes@.len(),
            bases@.len() == diagram.nodes@.len(),
            forall|j: int|
                0 <= j < bases@.len() ==> bases@[j]@ == resource_name_of(diagram@.nodes[j].label),
        ensures
            k == same_name_count(diagram@.nodes.take(i as int), resource_name_of(diagram@.nodes[i as int].label)),
    {
        let ghost nodes = diagram@.nodes;
        let ghost base = resource_name_of(nodes[i as int].label);
        let mut k: usize = 0;
        let mut j: usize = 0;
        while j < i
            invariant
                i < diagram.nodes@.len(),
                nodes == diagram@.nodes,
                bases@.len() == diagram.nodes@.len(),
                forall|m: int| 0 <= m < bases@.len() ==> bases@[m]@ == resource_name_of(nodes[m].label),
                base == bases@[i as int]@,
                j <= i,
                k <= j,
                k == same_name_count(nodes.take(j as int), base),
            decreases i - j,
        {
            assert(nodes.take(j + 1).drop_last() =~= nodes.take(j as int));
            if !is_group_type(&diagram.nodes[j].node_type) && bases[j] == bases[i] {
                k = k + 1;
            }
            j = j + 1;
        }
        k
    }
}

proof fn lemma_strip_leading_junk(s: Seq<char>) -> (k: int)
    ensures
        0 <= k <= s.len(),
        strip_leading_junk(s) == s.subrange(k, s.len() as int),
        k < s.len() ==> !is_leading_junk(s[k]),
        forall|i: int| 0 <= i < k ==> is_leading_junk(#[trigger] s[i]),
    decreases s.len(),
{
    if s.len() > 0 && is_leading_junk(s[0]) {
        let k1 = lemma_strip_leading_junk(s.drop_first());
        assert(s.drop_first().subrange(k1, s.len() - 1) =~= s.subrange(k1 + 1, s.len() as int));
        assert forall|i: int| 0 <= i < k1 + 1 implies is_leading_junk(#[trigger] s[i]) by {
            if i > 0 {
                assert(s[i] == s.drop_first()[i - 1]);
            }
        }
        k1 + 1
    } else {
        assert(s.subrange(0, s.len() as int) =~= s);
        0
    }
}

/// A character a resource name may hold: alphanumeric or `_`.
pub open spec fn resource_name_char(c: char) -> bool {
    spec_is_alphanumeric(c) || c == '_'
}

/// A character of a resource name made from an ASCII label: an ASCII
/// lowercase letter, an ASCII digit or `_`.
pub open spec fn ascii_resource_char(c: char) -> bool {
    is_ascii_lower(c) || is_ascii_digit_char(c) || c == '_'
}

/// A resource name is never empty, holds only alphanumeric characters and
/// `_`, starts with neither a digit nor `_`, has no `__` and does not end
/// with `_`. For an ASCII label it holds only `a`..`z`, `0`..`9` and `_`,
/// starts with a letter, is `resource` when the label has no letter, and
/// sanitising it again leaves it unchanged.
pub proof fn law_resource_name_shape(label: Seq<char>)
    ensures
        resource_name_of(label).len() > 0,
        forall|i: int|
            0 <= i < resource_name_of(label).len() ==> resource_name_char(#[trigger] resource_name_of(label)[i]),
        !is_leading_junk(resource_name_of(label)[0]),
        no_double(resource_name_of(label), '_'),
        resource_name_of(label).last() != '_',
        is_ascii_text(label) ==> {
            &&& forall|i: int|
                0 <= i < resource_name_of(label).len() ==> ascii_resource_char(
                    #[trigger] resource_name_of(label)[i],
                )
            &&& is_ascii_lower(resource_name_of(label)[0])
            &&& (forall|i: int|
                0 <= i < label.len() ==> !is_ascii_lower(#[trigger] label[i]) && !is_ascii_upper(label[i]))
                ==> resource_name_of(label) == "resource"@
            &&& resource_name_of(resource_name_of(label)) == resource_name_of(label)
        },
{
    let lower = spec_lowercase(label);
    let m = replace_non_alnum(lower, '_');
    let k1 = lemma_strip_leading_junk(m);
    let sj = m.subrange(k1, m.len() as int);
    let c = collapse_runs(sj, '_');
    lemma_collapse_runs(sj, '_');
    let k2 = lemma_strip_trailing(c, '_');
    let t = c.subrange(0, k2);
    lemma_no_double_subrange(c, '_', 0, k2);
    reveal_strlit("resource");
    assert forall|j: int| 0 <= j < m.len() implies resource_name_char(#[trigger] m[j]) by {}
    assert forall|i: int| 0 <= i < c.len() implies resource_name_char(#[trigger] c[i]) by {
        let j = choose|j: int| 0 <= j < sj.len() && sj[j] == c[i];
        assert(sj[j] == m[k1 + j]);
    }
    let r = resource_name_of(label);
    if t.len() > 0 {
        assert forall|i: int| 0 <= i < t.len() implies resource_name_char(#[trigger] t[i]) by {
            assert(t[i] == c[i]);
        }
        assert(t[0] == c[0] && c[0] == sj[0] && sj[0] == m[k1]);
        assert(t.last() == c[k2 - 1]);
    } else {
        let q = "resource"@;
        assert forall|i: int| 0 <= i < q.len() implies resource_name_char(#[trigger] q[i]) by {}
        assert forall|i: int, j: int| #![trigger q[i], q[j]] 0 <= i && j == i + 1 && j < q.len() implies !(q[i] == '_' && q[j] == '_') by {}
    }
    if is_ascii_text(label) {
        assert(lower == label.map_values(|ch: char| ascii_lower(ch)));
        assert forall|j: int| 0 <= j < m.len() implies ascii_resource_char(#[trigger] m[j]) by {
            assert(lower[j] == ascii_lower(label[j]));
            assert(is_ascii_char(label[j]));
        }
        assert forall|i: int| 0 <= i < c.len() implies ascii_resource_char(#[trigger] c[i]) by {
            let j = choose|j: int| 0 <= j < sj.len() && sj[j] == c[i];
            assert(sj[j] == m[k1 + j]);
        }
        if t.len() > 0 {
            assert forall|i: int| 0 <= i < t.len() implies ascii_resource_char(#[trigger] t[i]) by {
                assert(t[i] == c[i]);
            }
        }
        if (forall|i: int|
            0 <= i < label.len() ==> !is_ascii_lower(#[trigger] label[i]) && !is_ascii_upper(label[i])) {
            assert forall|j: int| 0 <= j < m.len() implies is_leading_junk(#[trigger] m[j]) by {
                assert(lower[j] == ascii_lower(label[j]));
                assert(!is_ascii_lower(label[j]) && !is_ascii_upper(label[j]));
            }
            if k1 < m.len() {
                assert(is_leading_junk(m[k1]));
            }
            assert(sj.len() == 0);
        }
        // `r` is its own resource name.
        assert forall|i: int| 0 <= i < r.len() implies is_ascii_char(#[trigger] r[i]) by {
            assert(ascii_resource_char(r[i]));
        }
        let lr = spec_lowercase(r);
        assert(lr =~= r) by {
            assert forall|i: int| 0 <= i < r.len() implies #[trigger] lr[i] == r[i] by {
                assert(ascii_resource_char(r[i]));
            }
        }
        let mr = replace_non_alnum(lr, '_');
        assert(mr =~= r) by {
            assert forall|i: int| 0 <= i < r.len() implies #[trigger] mr[i] == r[i] by {
                assert(ascii_resource_char(r[i]));
            }
        }
        assert(strip_leading_junk(r) == r);
        lemma_collapse_runs(r, '_');
        assert(strip_trailing(r, '_') == r);
    }
}

/// The resource block of node `i`.
pub open spec fn resource_block_at(nodes: Seq<NodeView>, p: CloudProvider, i: int) -> Seq<char> {
    resource_block(terraform_type_of(nodes[i], p), resource_name_at(nodes, i), nodes[i].label)
}

/// The output block of node `i`.
pub open spec fn output_block_at(nodes: Seq<NodeView>, p: CloudProvider, i: int) -> Seq<char> {
    output_block(terraform_type_of(nodes[i], p), resource_name_at(nodes, i), nodes[i].label)
}

/// `main.tf` and `outputs.tf` hold one block per non-group node, in node
/// order: block `i` has the node's recorded resource type (else
/// `null_resource`) and the name `resource_name_at`, the sanitized label
/// suffixed with `_k` when `k > 0` earlier non-group nodes share it. Group
/// nodes get no block, and every non-group node gets one.
pub proof fn law_terraform_blocks(nodes: Seq<NodeView>, p: CloudProvider, n: int)
    requires
        0 <= n <= nodes.len(),
    ensures
        main_tf(nodes, p, n) == joined_texts(
            non_group_positions(nodes, n).map_values(|i: int| resource_block_at(nodes, p, i)),
        ),
        outputs_tf(nodes, p, n) == joined_texts(
            non_group_positions(nodes, n).map_values(|i: int| output_block_at(nodes, p, i)),
        ),
        forall|a: int, b: int|
            0 <= a < b < non_group_positions(nodes, n).len() ==> #[trigger] non_group_positions(nodes, n)[a]
                < #[trigger] non_group_positions(nodes, n)[b],
        forall|a: int|
            0 <= a < non_group_positions(nodes, n).len() ==> 0 <= #[trigger] non_group_positions(nodes, n)[a] < n
                && !is_group(nodes[non_group_positions(nodes, n)[a]].node_type),
        forall|i: int| 0 <= i < n && !is_group(nodes[i].node_type) ==> #[trigger] non_group_positions(nodes, n).contains(i),
    decreases n,
{
    if n > 0 {
        law_terraform_blocks(nodes, p, n - 1);
        let r0 = non_group_positions(nodes, n - 1);
        let r = non_group_positions(nodes, n);
        if !is_group(nodes[n - 1].node_type) {
            let f = |i: int| resource_block_at(nodes, p, i);
            let g = |i: int| output_block_at(nodes, p, i);
            assert(r.map_values(f).drop_last() =~= r0.map_values(f));
            assert(r.map_values(g).drop_last() =~= r0.map_values(g));
            assert forall|i: int| 0 <= i < n && !is_group(nodes[i].node_type) implies #[trigger] r.contains(i) by {
                if i < n - 1 {
                    assert(r0.contains(i));
                    let a = choose|a: int| 0 <= a < r0.len() && r0[a] == i;
                    assert(r[a] == r0[a]);
                } else {
                    assert(r[r.len() - 1] == i);
                }
            }
            assert forall|a: int, b: int| 0 <= a < b < r.len() implies #[trigger] r[a] < #[trigger] r[b] by {
                if b < r0.len() {
                    assert(r[a] == r0[a] && r[b] == r0[b]);
                } else {
                    assert(r[a] == r0[a]);
                }
            }
            assert forall|a: int| 0 <= a < r.len() implies 0 <= #[trigger] r[a] < n && !is_group(nodes[r[a]].node_type) by {
                if a < r0.len() {
                    assert(r[a] == r0[a]);
                }
            }
        }
    }
}

/// The resource type written for a node on provider `p` is the Terraform
/// resource type of the node's mapping for `p` (its GCP mapping on GCP, and
/// so on), or `null_resource` when it has no such mapping or type.
pub proof fn law_terraform_type_reads_provider(n: NodeView, p: CloudProvider)
    ensures
        terraform_type_of(n, p) == match n.provider_mappings {
            Some(pm) => match mapping_on(pm, p) {
                Some(m) => match m.terraform_resource_type {
                    Some(t) => t,
                    None => "null_resource"@,
                },
                None => "null_resource"@,
            },
            None => "null_resource"@,
        },
{
}

/// Exporting a diagram translated to `p` gives every non-group node the
/// catalog's Terraform resource type for its type on `p`.
pub proof fn law_terraform_after_translation(d: DiagramView, p: CloudProvider, i: int)
    requires
        0 <= i < d.nodes.len(),
        !is_group(d.nodes[i].node_type),
    ensures
        terraform_type_of(translated(d, p).nodes[i], p) == cloud_mapping_for(d.nodes[i].node_type, p).unwrap().terraform_resource_type,
{
    law_translation_uses_catalog(d.nodes[i], p);
    law_terraform_type_reads_provider(translated(d, p).nodes[i], p);
}

} // verus!
