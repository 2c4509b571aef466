//! The user messages sent to the model when a diagram is changed or fixed.
//! The diagram itself goes in as JSON text.
use vstd::prelude::*;
use vstd::string::*;
use crate::entities::node::{first_with_id, nodes_view, Node, NodeView};
use crate::ids::{uuid_string, uuid_text};

verus! {

/// The lines naming the selected nodes that exist, `  - label (id)`, in
/// the order of the selection.
pub open spec fn selected_lines(nodes: Seq<NodeView>, selected: Seq<u128>, k: nat) -> Seq<Seq<char>>
    decreases k,
{
    if k == 0 {
        Seq::empty()
    } else {
        let rest = selected_lines(nodes, selected, (k - 1) as nat);
        match first_with_id(nodes, selected[k - 1], nodes.len() as int) {
            Some(j) => rest.push("  - "@ + nodes[j].label + " ("@ + uuid_text(selected[k - 1]) + ")"@),
            None => rest,
        }
    }
}

/// Lines joined by line breaks.
pub open spec fn joined(lines: Seq<Seq<char>>) -> Seq<char>
    decreases lines.len(),
{
    if lines.len() == 0 {
        Seq::empty()
    } else if lines.len() == 1 {
        lines[0]
    } else {
        joined(lines.drop_last()) + "\n"@ + lines.last()
    }
}

/// The note on the selection: nothing when no node is selected, else a
/// heading and one line per selected node.
pub open spec fn selection_note(nodes: Seq<NodeView>, selected: Seq<u128>) -> Seq<char> {
    if selected.len() == 0 {
        Seq::empty()
    } else {
        "\n\nSelected nodes (focus modifications on these):\n"@ + joined(
            selected_lines(nodes, selected, selected.len()),
        )
    }
}

/// The message asking for a change of a diagram.
pub open spec fn modify_message(diagram_json: Seq<char>, note: Seq<char>, prompt: Seq<char>) -> Seq<char> {
    "Current diagram:\n```json\n"@ + diagram_json + "\n```"@ + note + "\n\nUser request: "@ + prompt
}

/// The message asking for the fix of one validation warning.
pub open spec fn fix_message(diagram_json: Seq<char>, rule: Seq<char>, message: Seq<char>) -> Seq<char> {
    "Current diagram:\n```json\n"@ + diagram_json + "\n```\n\nValidation warning to fix:\n- Rule: "@ + rule
        + "\n- Message: "@ + message + "\n\nPlease make the minimal change to resolve this warning."@
}

/// The note on the selected nodes of a diagram.
pub fn selected_nodes_note(nodes: &Vec<Node>, selected: &Vec<u128>) -> (s: String)
    ensures
        s@ == selection_note(nodes_view(nodes@), selected@),
{
    if selected.len() == 0 {
        return String::new();
    }
    let ghost nv = nodes_view(nodes@);
    let mut body = String::new();
    let mut count: usize = 0;
    let mut k: usize = 0;
    while k < selected.len()
        invariant
            k <= selected.len(),
            nv == nodes_view(nodes@),
            count == selected_lines(nv, selected@, k as nat).len(),
            body@ == joined(selected_lines(nv, selected@, k as nat)),
            count <= k,
        decreases selected.len() - k,
    {
        match crate::entities::node::find_node_index(nodes, selected[k]) {
            Some(j) => {
                assert(nv[j as int] == nodes@[j as int]@);
                let line = String::from_str("  - ").concat(nodes[j].label.as_str()).concat(" (").concat(
                    uuid_string(selected[k]).as_str(),
                ).concat(")");
                if count > 0 {
                    body = body.concat("\n");
                }
                body = body.concat(line.as_str());
                count = count + 1;
                proof {
                    let lines = selected_lines(nv, selected@, (k + 1) as nat);
                    assert(lines.drop_last() =~= selected_lines(nv, selected@, k as nat));
                }
            },
            None => {},
        }
        k = k + 1;
    }
    String::from_str("\n\nSelected nodes (focus modifications on these):\n").concat(body.as_str())
}

/// The message asking for a change, the diagram given as JSON text.
pub fn modify_request(diagram_json: &str, note: &str, prompt: &str) -> (s: String)
    ensures
        s@ == modify_message(diagram_json@, note@, prompt@),
{
    String::from_str("Current diagram:\n```json\n").concat(diagram_json).concat("\n```").concat(
        note,
    ).concat("\n\nUser request: ").concat(prompt)
}

/// The message asking for a fix, the diagram given as JSON text.
pub fn fix_request(diagram_json: &str, rule: &str, message: &str) -> (s: String)
    ensures
        s@ == fix_message(diagram_json@, rule@, message@),
{
    String::from_str("Current diagram:\n```json\n").concat(diagram_json).concat(
        "\n```\n\nValidation warning to fix:\n- Rule: ",
    ).concat(rule).concat("\n- Message: ").concat(message).concat(
        "\n\nPlease make the minimal change to resolve this warning.",
    )
}

} // verus!
