//! Docker Compose export. Service names, dependencies and networks are found
//! by scanning the node and edge vectors rather than through hash maps, so
//! that the text follows the node order the spec states.
use vstd::prelude::*;
use vstd::string::*;
use crate::entities::diagram::Diagram;
use crate::entities::docker_catalog::{
    docker_mapping_for, lookup_docker_mapping, pairs_view, strings_view, DockerMappingView,
};
use crate::entities::edge::EdgeView;
use crate::entities::errors::DomainError;
use crate::entities::node::{is_group, is_group_type, non_group_positions, NodeType, NodeView};
use crate::text::{
    ascii_lower, is_ascii_char, is_ascii_text, chars_within, joined_texts, lemma_collapse_runs, lemma_no_double_subrange, lemma_strip_leading_char,
    lemma_strip_trailing, no_double, spec_is_alphanumeric, chars_of, collapse_runs, collapse_runs_exec, decimal, lowercase, push_decimal,
    replace_non_alnum, replace_non_alnum_exec, spec_lowercase, strip_leading_char,
    strip_leading_char_exec, strip_trailing, strip_trailing_exec, string_from_chars,
};

verus! {

/// A Compose service or network name for a label: lowercased, every
/// non-alphanumeric character turned into `-`, runs of `-` shortened to one,
/// leading and trailing `-` removed; `service` when nothing is left.
pub struct DockerComposeService;

pub open spec fn service_name_of(label: Seq<char>) -> Seq<char> {
    let r = strip_trailing(
        strip_leading_char(collapse_runs(replace_non_alnum(spec_lowercase(label), '-'), '-'), '-'),
        '-',
    );
    if r.len() == 0 {
        "service"@
    } else {
        r
    }
}

pub fn sanitize_service_name(label: &str) -> (r: String)
    ensures
        r@ == service_name_of(label@),
{
    let lower = lowercase(label);
    let chars = chars_of(lower.as_str());
    let mapped = replace_non_alnum_exec(&chars, '-');
    let collapsed = collapse_runs_exec(&mapped, '-');
    let lead = strip_leading_char_exec(&collapsed, '-');
    let trimmed = strip_trailing_exec(&lead, '-');
    if trimmed.len() == 0 {
        String::from_str("service")
    } else {
        string_from_chars(&trimmed)
    }
}

/// How many non-group nodes of `nodes` have the service name base `base`.
pub open spec fn same_service_count(nodes: Seq<NodeView>, base: Seq<char>) -> nat
    decreases nodes.len(),
{
    if nodes.len() == 0 {
        0
    } else {
        let rest = same_service_count(nodes.drop_last(), base);
        if !is_group(nodes.last().node_type) && service_name_of(nodes.last().label) == base {
            rest + 1
        } else {
            rest
        }
    }
}

/// The service name of node `i`: its sanitized label, suffixed with `-k` when
/// `k > 0` earlier non-group nodes have the same sanitized label.
pub open spec fn service_name_at(nodes: Seq<NodeView>, i: int) -> Seq<char> {
    let base = service_name_of(nodes[i].label);
    let k = same_service_count(nodes.take(i), base);
    if k > 0 {
        base + "-"@ + decimal(k)
    } else {
        base
    }
}

/// The index of the last non-group node among the first `n` with the given id.
pub open spec fn last_service_index(nodes: Seq<NodeView>, id: u128, n: int) -> Option<int>
    decreases n,
{
    if n <= 0 {
        None
    } else if !is_group(nodes[n - 1].node_type) && nodes[n - 1].id == id {
        Some(n - 1)
    } else {
        last_service_index(nodes, id, n - 1)
    }
}

/// The service name recorded for an id: that of the last non-group node with
/// the id.
pub open spec fn name_for_id(nodes: Seq<NodeView>, id: u128) -> Option<Seq<char>> {
    match last_service_index(nodes, id, nodes.len() as int) {
        Some(j) => Some(service_name_at(nodes, j)),
        None => None,
    }
}

/// The services the node with id `id` depends on, from the first `m` edges:
/// the source of every edge into `id` whose two ends are services.
pub open spec fn depends_on(nodes: Seq<NodeView>, edges: Seq<EdgeView>, id: u128, m: int) -> Seq<Seq<char>>
    decreases m,
{
    if m <= 0 {
        Seq::empty()
    } else {
        let rest = depends_on(nodes, edges, id, m - 1);
        let e = edges[m - 1];
        if e.target_id == id && name_for_id(nodes, e.source_id) is Some && name_for_id(
            nodes,
            e.target_id,
        ) is Some {
            rest.push(name_for_id(nodes, e.source_id).unwrap())
        } else {
            rest
        }
    }
}

/// Some node with id `id` has the node `g` as parent.
pub open spec fn has_child_with_id(nodes: Seq<NodeView>, g: NodeView, id: u128) -> bool {
    exists|c: int| 0 <= c < nodes.len() && nodes[c].id == id && nodes[c].parent_id == Some(g.id)
}

/// The network of the node with id `id`, from the first `k` nodes: that of the
/// last group node that has a node with this id as child.
pub open spec fn network_for(nodes: Seq<NodeView>, id: u128, k: int) -> Option<Seq<char>>
    decreases k,
{
    if k <= 0 {
        None
    } else if is_group(nodes[k - 1].node_type) && has_child_with_id(nodes, nodes[k - 1], id) {
        Some(service_name_of(nodes[k - 1].label))
    } else {
        network_for(nodes, id, k - 1)
    }
}

/// `pre + item + suf` for every item, in order.
pub open spec fn lines(items: Seq<Seq<char>>, pre: Seq<char>, suf: Seq<char>) -> Seq<char>
    decreases items.len(),
{
    if items.len() == 0 {
        Seq::empty()
    } else {
        lines(items.drop_last(), pre, suf) + pre + items.last() + suf
    }
}

/// `      - key=value` lines of an environment.
pub open spec fn env_lines(items: Seq<(Seq<char>, Seq<char>)>) -> Seq<char>
    decreases items.len(),
{
    if items.len() == 0 {
        Seq::empty()
    } else {
        env_lines(items.drop_last()) + "      - "@ + items.last().0 + "="@ + items.last().1 + "\n"@
    }
}

/// The image, ports, environment and volumes of a service.
pub open spec fn image_part(m: Option<DockerMappingView>) -> Seq<char> {
    match m {
        Some(m) => "    image: "@ + m.image + "\n"@
            + (if m.default_ports.len() == 0 { Seq::empty() } else {
                "    ports:\n"@ + lines(m.default_ports, "      - \""@, "\"\n"@)
            })
            + (if m.environment.len() == 0 { Seq::empty() } else {
                "    environment:\n"@ + env_lines(m.environment)
            })
            + (if m.volumes.len() == 0 { Seq::empty() } else {
                "    volumes:\n"@ + lines(m.volumes, "      - "@, "\n"@)
            }),
        None => "    image: alpine:latest\n"@,
    }
}

/// The entry of non-group node `i` in the `services` section.
pub open spec fn service_block(nodes: Seq<NodeView>, edges: Seq<EdgeView>, i: int) -> Seq<char> {
    let n = nodes[i];
    let deps = depends_on(nodes, edges, n.id, edges.len() as int);
    "  "@ + name_for_id(nodes, n.id).unwrap() + ":\n"@ + image_part(docker_mapping_for(n.node_type))
        + (if deps.len() == 0 { Seq::empty() } else {
            "    depends_on:\n"@ + lines(deps, "      - "@, "\n"@)
        })
        + match network_for(nodes, n.id, nodes.len() as int) {
            Some(nw) => "    networks:\n"@ + "      - "@ + nw + "\n"@,
            None => Seq::empty(),
        }
        + "\n"@
}

/// The `services` section for the first `k` nodes.
pub open spec fn services_part(nodes: Seq<NodeView>, edges: Seq<EdgeView>, k: int) -> Seq<char>
    decreases k,
{
    if k <= 0 {
        Seq::empty()
    } else if is_group(nodes[k - 1].node_type) {
        services_part(nodes, edges, k - 1)
    } else {
        services_part(nodes, edges, k - 1) + service_block(nodes, edges, k - 1)
    }
}

/// The network entries of the group nodes among the first `k` nodes.
pub open spec fn network_entries(nodes: Seq<NodeView>, k: int) -> Seq<char>
    decreases k,
{
    if k <= 0 {
        Seq::empty()
    } else if is_group(nodes[k - 1].node_type) {
        network_entries(nodes, k - 1) + "  "@ + service_name_of(nodes[k - 1].label)
            + ":\n    driver: bridge\n"@
    } else {
        network_entries(nodes, k - 1)
    }
}

pub open spec fn has_group(nodes: Seq<NodeView>) -> bool {
    exists|i: int| 0 <= i < nodes.len() && is_group(nodes[i].node_type)
}

/// The part of a volume specification before its first `:`.
pub open spec fn volume_name(v: Seq<char>) -> Seq<char>
    decreases v.len(),
{
    if v.len() == 0 {
        v
    } else if v[0] == ':' {
        Seq::empty()
    } else {
        seq![v[0]] + volume_name(v.drop_first())
    }
}

/// A named volume (not a path starting with `/` or `.`).
pub open spec fn is_named_volume(name: Seq<char>) -> bool {
    !(name.len() > 0 && (name[0] == '/' || name[0] == '.'))
}

/// The named volumes among `vols`, added to `acc` when not already present.
pub open spec fn add_named(acc: Seq<Seq<char>>, vols: Seq<Seq<char>>) -> Seq<Seq<char>>
    decreases vols.len(),
{
    if vols.len() == 0 {
        acc
    } else {
        let r = add_named(acc, vols.drop_last());
        let name = volume_name(vols.last());
        if is_named_volume(name) && !r.contains(name) {
            r.push(name)
        } else {
            r
        }
    }
}

/// The distinct named volumes of the services among the first `k` nodes, in
/// order of first use.
pub open spec fn named_volumes(nodes: Seq<NodeView>, k: int) -> Seq<Seq<char>>
    decreases k,
{
    if k <= 0 {
        Seq::empty()
    } else {
        let acc = named_volumes(nodes, k - 1);
        if is_group(nodes[k - 1].node_type) {
            acc
        } else {
            match docker_mapping_for(nodes[k - 1].node_type) {
                Some(m) => add_named(acc, m.volumes),
                None => acc,
            }
        }
    }
}

/// The Docker Compose file of a diagram.
pub open spec fn compose_yaml(nodes: Seq<NodeView>, edges: Seq<EdgeView>) -> Seq<char> {
    let vols = named_volumes(nodes, nodes.len() as int);
    "version: \"3.8\"\n\nservices:\n"@ + services_part(nodes, edges, nodes.len() as int)
        + (if has_group(nodes) { "networks:\n"@ + network_entries(nodes, nodes.len() as int) } else { Seq::empty() })
        + (if vols.len() == 0 { Seq::empty() } else { "\nvolumes:\n"@ + lines(vols, "  "@, ":\n"@) })
}

pub fn append_lines(out: &mut String, items: &Vec<String>, pre: &str, suf: &str)
    ensures
        final(out)@ == old(out)@ + lines(strings_view(items@), pre@, suf@),
{
    let ghost start = out@;
    let mut i: usize = 0;
    while i < items.len()
        invariant
            i <= items.len(),
            out@ == start + lines(strings_view(items@.take(i as int)), pre@, suf@),
        decreases items.len() - i,
    {
        assert(strings_view(items@.take(i + 1)).drop_last() =~= strings_view(items@.take(i as int)));
        assert(strings_view(items@.take(i + 1)).last() == items@[i as int]@);
        out.append(pre);
        out.append(items[i].as_str());
        out.append(suf);
        i = i + 1;
    }
    assert(items@.take(items@.len() as int) =~= items@);
}

fn append_env_lines(out: &mut String, items: &Vec<(String, String)>)
    ensures
        final(out)@ == old(out)@ + env_lines(pairs_view(items@)),
{
    let ghost start = out@;
    let mut i: usize = 0;
    while i < items.len()
        invariant
            i <= items.len(),
            out@ == start + env_lines(pairs_view(items@.take(i as int))),
        decreases items.len() - i,
    {
        assert(pairs_view(items@.take(i + 1)).drop_last() =~= pairs_view(items@.take(i as int)));
        assert(pairs_view(items@.take(i + 1)).last() == (items@[i as int].0@, items@[i as int].1@));
        out.append("      - ");
        out.append(items[i].0.as_str());
        out.append("=");
        out.append(items[i].1.as_str());
        out.append("\n");
        i = i + 1;
    }
    assert(items@.take(items@.len() as int) =~= items@);
}

fn image_text(t: &NodeType) -> (r: String)
    ensures
        r@ == image_part(docker_mapping_for(*t)),
{
    match lookup_docker_mapping(t) {
        Some(m) => {
            let mut y = String::from_str("    image: ");
            y.append(m.image.as_str());
            y.append("\n");
            let ghost a = y@;
            if m.default_ports.len() != 0 {
                y.append("    ports:\n");
                append_lines(&mut y, &m.default_ports, "      - \"", "\"\n");
            }
            let ghost b = y@;
            if m.environment.len() != 0 {
                y.append("    environment:\n");
                append_env_lines(&mut y, &m.environment);
            }
            let ghost c = y@;
            if m.volumes.len() != 0 {
                y.append("    volumes:\n");
                append_lines(&mut y, &m.volumes, "      - ", "\n");
            }
            y
        }
        None => String::from_str("    image: alpine:latest\n"),
    }
}

/// Node `i` has a recorded service name when it is not a group node.
proof fn lemma_service_index_exists(nodes: Seq<NodeView>, i: int, n: int)
    requires
        0 <= i < n <= nodes.len(),
        !is_group(nodes[i].node_type),
    ensures
        last_service_index(nodes, nodes[i].id, n) is Some,
    decreases n,
{
    if n - 1 != i && !(!is_group(nodes[n - 1].node_type) && nodes[n - 1].id == nodes[i].id) {
        lemma_service_index_exists(nodes, i, n - 1);
    }
}

/// The service name of every non-group node.
fn service_names(diagram: &Diagram) -> (names: Vec<String>)
    ensures
        names@.len() == diagram@.nodes.len(),
        forall|i: int|
            0 <= i < names@.len() && !is_group(diagram@.nodes[i].node_type) ==> names@[i]@
                == service_name_at(diagram@.nodes, i),
{
    let ghost nodes = diagram@.nodes;
    let n = diagram.nodes.len();
    let mut bases: Vec<String> = Vec::new();
    let mut i: usize = 0;
    while i < n
        invariant
            n == diagram.nodes@.len(),
            nodes == diagram@.nodes,
            i <= n,
            bases@.len() == i,
            forall|j: int| 0 <= j < i ==> bases@[j]@ == service_name_of(nodes[j].label),
        decreases n - i,
    {
        bases.push(sanitize_service_name(diagram.nodes[i].label.as_str()));
        i = i + 1;
    }
    let mut names: Vec<String> = Vec::new();
    let mut i: usize = 0;
    while i < n
        invariant
            n == diagram.nodes@.len(),
            nodes == diagram@.nodes,
            i <= n,
            bases@.len() == n,
            forall|j: int| 0 <= j < n ==> bases@[j]@ == service_name_of(nodes[j].label),
            names@.len() == i,
            forall|j: int|
                0 <= j < i && !is_group(nodes[j].node_type) ==> names@[j]@ == service_name_at(nodes, j),
        decreases n - i,
    {
        let k = count_same_service(diagram, &bases, i);
        let mut name = bases[i].clone();
        if k > 0 {
            name.append("-");
            push_decimal(&mut name, k as u64);
        }
        names.push(name);
        i = i + 1;
    }
    names
}

fn count_same_service(diagram: &Diagram, bases: &Vec<String>, i: usize) -> (k: usize)
    requires
        i < diagram.nodes@.len(),
        bases@.len() == diagram.nodes@.len(),
        forall|j: int|
            0 <= j < bases@.len() ==> bases@[j]@ == service_name_of(diagram@.nodes[j].label),
    ensures
        k == same_service_count(diagram@.nodes.take(i as int), service_name_of(diagram@.nodes[i as int].label)),
{
    let ghost nodes = diagram@.nodes;
    let ghost base = service_name_of(nodes[i as int].label);
    let mut k: usize = 0;
    let mut j: usize = 0;
    while j < i
        invariant
            i < diagram.nodes@.len(),
            nodes == diagram@.nodes,
            bases@.len() == diagram.nodes@.len(),
            forall|m: int| 0 <= m < bases@.len() ==> bases@[m]@ == service_name_of(nodes[m].label),
            base == bases@[i as int]@,
            j <= i,
            k <= j,
            k == same_service_count(nodes.take(j as int), base),
        decreases i - j,
    {
        assert(nodes.take(j + 1).drop_last() =~= nodes.take(j as int));
        if !is_group_type(&diagram.nodes[j].node_type) && bases[j] == bases[i] {
            k = k + 1;
        }
        j = j + 1;
    }
    k
}

/// The service name recorded for an id (see `name_for_id`).
fn name_for_id_exec(diagram: &Diagram, names: &Vec<String>, id: u128) -> (r: Option<String>)
    requires
        names@.len() == diagram@.nodes.len(),
        forall|i: int|
            0 <= i < names@.len() && !is_group(diagram@.nodes[i].node_type) ==> names@[i]@
                == service_name_at(diagram@.nodes, i),
    ensures
        match r {
            Some(s) => name_for_id(diagram@.nodes, id) == Some(s@),
            None => name_for_id(diagram@.nodes, id) is None,
        },
{
    let ghost nodes = diagram@.nodes;
    let mut k: usize = diagram.nodes.len();
    while k > 0
        invariant
            k <= diagram.nodes@.len(),
            nodes == diagram@.nodes,
            names@.len() == diagram@.nodes.len(),
            forall|i: int|
                0 <= i < names@.len() && !is_group(nodes[i].node_type) ==> names@[i]@
                    == service_name_at(nodes, i),
            last_service_index(nodes, id, nodes.len() as int) == last_service_index(nodes, id, k as int),
        decreases k,
    {
        let node = &diagram.nodes[k - 1];
        if !is_group_type(&node.node_type) && node.id == id {
            return Some(names[k - 1].clone());
        }
        k = k - 1;
    }
    None
}

/// Whether some node with id `id` has node `g` as parent.
fn has_child_with_id_exec(diagram: &Diagram, g: usize, id: u128) -> (b: bool)
    requires
        g < diagram@.nodes.len(),
    ensures
        b == has_child_with_id(diagram@.nodes, diagram@.nodes[g as int], id),
{
    let gid = diagram.nodes[g].id;
    let mut c: usize = 0;
    while c < diagram.nodes.len()
        invariant
            c <= diagram.nodes@.len(),
            gid == diagram@.nodes[g as int].id,
            forall|j: int| 0 <= j < c ==> !(diagram@.nodes[j].id == id && diagram@.nodes[j].parent_id == Some(gid)),
        decreases diagram.nodes.len() - c,
    {
        if diagram.nodes[c].id == id && diagram.nodes[c].parent_id == Some(gid) {
            assert(diagram@.nodes[c as int].id == id && diagram@.nodes[c as int].parent_id == Some(diagram@.nodes[g as int].id));
            return true;
        }
        c = c + 1;
    }
    false
}

fn network_for_exec(diagram: &Diagram, id: u128) -> (r: Option<String>)
    ensures
        match r {
            Some(s) => network_for(diagram@.nodes, id, diagram@.nodes.len() as int) == Some(s@),
            None => network_for(diagram@.nodes, id, diagram@.nodes.len() as int) is None,
        },
{
    let ghost nodes = diagram@.nodes;
    let mut k: usize = diagram.nodes.len();
    while k > 0
        invariant
            k <= diagram.nodes@.len(),
            nodes == diagram@.nodes,
            network_for(nodes, id, nodes.len() as int) == network_for(nodes, id, k as int),
        decreases k,
    {
        if is_group_type(&diagram.nodes[k - 1].node_type) && has_child_with_id_exec(diagram, k - 1, id) {
            return Some(sanitize_service_name(diagram.nodes[k - 1].label.as_str()));
        }
        k = k - 1;
    }
    None
}

/// The services the node with id `id` depends on (see `depends_on`).
fn depends_on_exec(diagram: &Diagram, names: &Vec<String>, id: u128) -> (r: Vec<String>)
    requires
        names@.len() == diagram@.nodes.len(),
        forall|i: int|
            0 <= i < names@.len() && !is_group(diagram@.nodes[i].node_type) ==> names@[i]@
                == service_name_at(diagram@.nodes, i),
    ensures
        strings_view(r@) == depends_on(diagram@.nodes, diagram@.edges, id, diagram@.edges.len() as int),
{
    let ghost nodes = diagram@.nodes;
    let ghost edges = diagram@.edges;
    let mut r: Vec<String> = Vec::new();
    let mut m: usize = 0;
    while m < diagram.edges.len()
        invariant
            m <= diagram.edges@.len(),
            nodes == diagram@.nodes,
            edges == diagram@.edges,
            names@.len() == diagram@.nodes.len(),
            forall|i: int|
                0 <= i < names@.len() && !is_group(nodes[i].node_type) ==> names@[i]@
                    == service_name_at(nodes, i),
            strings_view(r@) == depends_on(nodes, edges, id, m as int),
        decreases diagram.edges.len() - m,
    {
        let e = &diagram.edges[m];
        if e.target_id == id {
            let src = name_for_id_exec(diagram, names, e.source_id);
            let tgt = name_for_id_exec(diagram, names, e.target_id);
            match (src, tgt) {
                (Some(s), Some(_)) => {
                    r.push(s);
                    assert(strings_view(r@) =~= depends_on(nodes, edges, id, m + 1));
                }
                _ => {}
            }
        }
        m = m + 1;
    }
    r
}

/// The entry of non-group node `i` in the `services` section.
fn service_block_text(diagram: &Diagram, names: &Vec<String>, i: usize) -> (r: String)
    requires
        i < diagram@.nodes.len(),
        !is_group(diagram@.nodes[i as int].node_type),
        names@.len() == diagram@.nodes.len(),
        forall|j: int|
            0 <= j < names@.len() && !is_group(diagram@.nodes[j].node_type) ==> names@[j]@
                == service_name_at(diagram@.nodes, j),
    ensures
        r@ == service_block(diagram@.nodes, diagram@.edges, i as int),
{
    let ghost nodes = diagram@.nodes;
    let node = &diagram.nodes[i];
    proof { lemma_service_index_exists(nodes, i as int, nodes.len() as int); }
    let name = match name_for_id_exec(diagram, names, node.id) {
        Some(s) => s,
        None => { assert(false); String::new() }
    };
    let mut y = String::from_str("  ");
    y.append(name.as_str());
    y.append(":\n");
    let img = image_text(&node.node_type);
    y.append(img.as_str());
    let deps = depends_on_exec(diagram, names, node.id);
    if deps.len() != 0 {
        y.append("    depends_on:\n");
        append_lines(&mut y, &deps, "      - ", "\n");
    }
    match network_for_exec(diagram, node.id) {
        Some(nw) => {
            y.append("    networks:\n");
            y.append("      - ");
            y.append(nw.as_str());
            y.append("\n");
        }
        None => {}
    }
    y.append("\n");
    y
}

/// The part of a volume specification before its first `:`.
fn volume_name_exec(v: &str) -> (r: String)
    ensures
        r@ == volume_name(v@),
{
    let cs = chars_of(v);
    let mut i: usize = 0;
    assert(cs@.subrange(0, cs@.len() as int) =~= cs@);
    assert(cs@.subrange(0, 0) + volume_name(cs@.subrange(0, cs@.len() as int)) =~= volume_name(cs@));
    while i < cs.len() && cs[i] != ':'
        invariant
            cs@ == v@,
            i <= cs@.len(),
            volume_name(cs@) == cs@.subrange(0, i as int) + volume_name(cs@.subrange(i as int, cs@.len() as int)),
        decreases cs.len() - i,
    {
        let ghost rest = cs@.subrange(i as int, cs@.len() as int);
        assert(rest.drop_first() =~= cs@.subrange(i + 1, cs@.len() as int));
        assert(cs@.subrange(0, i + 1) =~= cs@.subrange(0, i as int) + seq![cs@[i as int]]);
        i = i + 1;
    }
    let ghost rest = cs@.subrange(i as int, cs@.len() as int);
    assert(volume_name(rest) =~= Seq::<char>::empty());
    assert(volume_name(cs@) =~= cs@.subrange(0, i as int));
    let p = crate::text::prefix_to(&cs, i);
    string_from_chars(&p)
}

fn contains_string(v: &Vec<String>, s: &String) -> (b: bool)
    ensures
        b == strings_view(v@).contains(s@),
{
    let mut i: usize = 0;
    while i < v.len()
        invariant
            i <= v.len(),
            forall|j: int| 0 <= j < i ==> v@[j]@ != s@,
        decreases v.len() - i,
    {
        if v[i] == *s {
            assert(strings_view(v@)[i as int] == s@);
            return true;
        }
        i = i + 1;
    }
    assert(!strings_view(v@).contains(s@)) by {
        if strings_view(v@).contains(s@) {
            let j = choose|j: int| 0 <= j < strings_view(v@).len() && strings_view(v@)[j] == s@;
            assert(v@[j]@ == s@);
        }
    }
    false
}

fn add_named_exec(acc: &mut Vec<String>, vols: &Vec<String>)
    ensures
        strings_view(final(acc)@) == add_named(strings_view(old(acc)@), strings_view(vols@)),
{
    let ghost start = strings_view(acc@);
    let mut i: usize = 0;
    while i < vols.len()
        invariant
            i <= vols.len(),
            strings_view(acc@) == add_named(start, strings_view(vols@.take(i as int))),
        decreases vols.len() - i,
    {
        assert(strings_view(vols@.take(i + 1)).drop_last() =~= strings_view(vols@.take(i as int)));
        assert(strings_view(vols@.take(i + 1)).last() == vols@[i as int]@);
        let name = volume_name_exec(vols[i].as_str());
        let named = !(name.as_str().unicode_len() > 0 && (name.as_str().get_char(0) == '/' || name.as_str().get_char(0) == '.'));
        if named && !contains_string(acc, &name) {
            acc.push(name);
            assert(strings_view(acc@) =~= add_named(start, strings_view(vols@.take(i + 1))));
        }
        i = i + 1;
    }
    assert(vols@.take(vols@.len() as int) =~= vols@);
}

impl DockerComposeService {
    /// The Docker Compose file of a diagram: one service per non-group node
    /// (named after its label), its catalog image, ports, environment and
    /// volumes, `depends_on` from incoming edges, a network per group node,
    /// and the named volumes in use. Generation always succeeds.
    pub fn generate(diagram: &Diagram) -> (r: Result<String, DomainError>)
        ensures
            r matches Ok(y) && y@ == compose_yaml(diagram@.nodes, diagram@.edges),
    {
        let ghost nodes = diagram@.nodes;
        let ghost edges = diagram@.edges;
        let names = service_names(diagram);
        let n = diagram.nodes.len();
        let mut services = String::new();
        let mut i: usize = 0;
        while i < n
            invariant
                n == diagram.nodes@.len(),
                nodes == diagram@.nodes,
                edges == diagram@.edges,
                i <= n,
                names@.len() == nodes.len(),
                forall|j: int|
                    0 <= j < names@.len() && !is_group(nodes[j].node_type) ==> names@[j]@
                        == service_name_at(nodes, j),
                services@ == services_part(nodes, edges, i as int),
            decreases n - i,
        {
            if !is_group_type(&diagram.nodes[i].node_type) {
                let block = service_block_text(diagram, &names, i);
                services.append(block.as_str());
            }
            i = i + 1;
        }
        let mut networks = String::new();
        let mut any_group = false;
        let mut i: usize = 0;
        while i < n
            invariant
                n == diagram.nodes@.len(),
                nodes == diagram@.nodes,
                i <= n,
                networks@ == network_entries(nodes, i as int),
                any_group == exists|j: int| 0 <= j < i && is_group(nodes[j].node_type),
            decreases n - i,
        {
            if is_group_type(&diagram.nodes[i].node_type) {
                any_group = true;
                networks.append("  ");
                let nw = sanitize_service_name(diagram.nodes[i].label.as_str());
                networks.append(nw.as_str());
                networks.append(":\n    driver: bridge\n");
            }
            i = i + 1;
        }
        let mut vols: Vec<String> = Vec::new();
        let mut i: usize = 0;
        while i < n
            invariant
                n == diagram.nodes@.len(),
                nodes == diagram@.nodes,
                i <= n,
                strings_view(vols@) == named_volumes(nodes, i as int),
            decreases n - i,
        {
            if !is_group_type(&diagram.nodes[i].node_type) {
                match lookup_docker_mapping(&diagram.nodes[i].node_type) {
                    Some(m) => add_named_exec(&mut vols, &m.volumes),
                    None => {}
                }
            }
            i = i + 1;
        }
        let mut yaml = String::from_str("version: \"3.8\"\n\nservices:\n");
        yaml.append(services.as_str());
        if any_group {
            yaml.append("networks:\n");
            yaml.append(networks.as_str());
        }
        if vols.len() != 0 {
            yaml.append("\nvolumes:\n");
            append_lines(&mut yaml, &vols, "  ", ":\n");
        }
        Ok(yaml)
    }
}

/// A character a service name may hold: alphanumeric or `-`.
pub open spec fn service_name_char(c: char) -> bool {
    spec_is_alphanumeric(c) || c == '-'
}

/// A service name is never empty, holds only alphanumeric characters and
/// `-`, has no `--`, and neither starts nor ends with `-`; a label whose
/// lowercase has no alphanumeric character gives `service`, and so does an
/// ASCII label with no letter or digit.
pub proof fn law_service_name_shape(label: Seq<char>)
    ensures
        service_name_of(label).len() > 0,
        forall|i: int|
            0 <= i < service_name_of(label).len() ==> service_name_char(#[trigger] service_name_of(label)[i]),
        no_double(service_name_of(label), '-'),
        service_name_of(label)[0] != '-',
        service_name_of(label).last() != '-',
        (forall|i: int|
            0 <= i < spec_lowercase(label).len() ==> !spec_is_alphanumeric(#[trigger] spec_lowercase(label)[i]))
            ==> service_name_of(label) == "service"@,
        is_ascii_text(label) && (forall|i: int|
            0 <= i < label.len() ==> !spec_is_alphanumeric(#[trigger] label[i])) ==> service_name_of(label)
            == "service"@,
{
    let lower = spec_lowercase(label);
    if is_ascii_text(label) && (forall|i: int| 0 <= i < label.len() ==> !spec_is_alphanumeric(#[trigger] label[i])) {
        assert forall|i: int| 0 <= i < lower.len() implies !spec_is_alphanumeric(#[trigger] lower[i]) by {
            assert(lower[i] == ascii_lower(label[i]));
            assert(!spec_is_alphanumeric(label[i]));
            assert(is_ascii_char(label[i]));
        }
    }
    let m = replace_non_alnum(lower, '-');
    let c = collapse_runs(m, '-');
    lemma_collapse_runs(m, '-');
    let k1 = lemma_strip_leading_char(c, '-');
    let a = c.subrange(k1, c.len() as int);
    lemma_no_double_subrange(c, '-', k1, c.len() as int);
    let k2 = lemma_strip_trailing(a, '-');
    let t = a.subrange(0, k2);
    lemma_no_double_subrange(a, '-', 0, k2);
    assert forall|j: int| 0 <= j < m.len() implies service_name_char(#[trigger] m[j]) by {}
    assert forall|i: int| 0 <= i < c.len() implies service_name_char(#[trigger] c[i]) by {
        let j = choose|j: int| 0 <= j < m.len() && m[j] == c[i];
        assert(service_name_char(m[j]));
    }
    reveal_strlit("service");
    if (forall|i: int| 0 <= i < lower.len() ==> !spec_is_alphanumeric(#[trigger] lower[i])) {
        assert forall|j: int| 0 <= j < m.len() implies #[trigger] m[j] == '-' by {
            assert(!spec_is_alphanumeric(lower[j]));
        }
        if k1 < c.len() {
            let j = choose|j: int| 0 <= j < m.len() && m[j] == c[k1];
            assert(m[j] == '-');
        }
        assert(t.len() == 0);
    }
    if t.len() > 0 {
        assert forall|i: int| 0 <= i < t.len() implies service_name_char(#[trigger] t[i]) by {
            assert(t[i] == c[k1 + i]);
        }
        assert(t[0] == c[k1]);
        assert(t.last() == a[k2 - 1]);
    } else {
        let r = "service"@;
        assert forall|i: int| 0 <= i < r.len() implies service_name_char(#[trigger] r[i]) by {}
        assert forall|i: int, j: int| #![trigger r[i], r[j]] 0 <= i && j == i + 1 && j < r.len() implies !(r[i] == '-' && r[j] == '-') by {}
    }
}

/// No name occurs twice.
pub open spec fn distinct_names(s: Seq<Seq<char>>) -> bool {
    forall|i: int, j: int| 0 <= i < j < s.len() ==> #[trigger] s[i] != #[trigger] s[j]
}

/// A named volume of the given volume specifications.
pub open spec fn names_volume_of(vols: Seq<Seq<char>>, x: Seq<char>) -> bool {
    exists|k: int| 0 <= k < vols.len() && is_named_volume(x) && x == volume_name(#[trigger] vols[k])
}

proof fn lemma_add_named(acc: Seq<Seq<char>>, vols: Seq<Seq<char>>)
    requires
        distinct_names(acc),
        forall|i: int| 0 <= i < acc.len() ==> is_named_volume(#[trigger] acc[i]),
    ensures
        distinct_names(add_named(acc, vols)),
        forall|i: int| 0 <= i < add_named(acc, vols).len() ==> is_named_volume(#[trigger] add_named(acc, vols)[i]),
        forall|x: Seq<char>| acc.contains(x) ==> #[trigger] add_named(acc, vols).contains(x),
        forall|k: int|
            0 <= k < vols.len() && is_named_volume(volume_name(#[trigger] vols[k])) ==> add_named(acc, vols).contains(
                volume_name(vols[k]),
            ),
        forall|x: Seq<char>| #[trigger] add_named(acc, vols).contains(x) ==> acc.contains(x) || names_volume_of(vols, x),
    decreases vols.len(),
{
    if vols.len() > 0 {
        let v0 = vols.drop_last();
        lemma_add_named(acc, v0);
        let r = add_named(acc, v0);
        let name = volume_name(vols.last());
        let out = add_named(acc, vols);
        assert forall|k: int|
            0 <= k < vols.len() && is_named_volume(volume_name(#[trigger] vols[k])) implies out.contains(
                volume_name(vols[k]),
            ) by {
            if k < vols.len() - 1 {
                assert(vols[k] == v0[k]);
                assert(r.contains(volume_name(v0[k])));
                if out != r {
                    assert(out == r.push(name));
                    let i = choose|i: int| 0 <= i < r.len() && r[i] == volume_name(v0[k]);
                    assert(out[i] == r[i]);
                }
            } else if !r.contains(name) {
                assert(out[out.len() - 1] == name);
            }
        }
        assert forall|x: Seq<char>| #[trigger] out.contains(x) implies acc.contains(x) || names_volume_of(vols, x) by {
            let i = choose|i: int| 0 <= i < out.len() && out[i] == x;
            if i < r.len() {
                if out != r {
                    assert(out[i] == r[i]);
                }
                assert(r.contains(x));
                if names_volume_of(v0, x) {
                    let k = choose|k: int| 0 <= k < v0.len() && is_named_volume(x) && x == volume_name(#[trigger] v0[k]);
                    assert(vols[k] == v0[k]);
                }
            } else {
                assert(x == name && vols[vols.len() - 1] == vols.last());
            }
        }
        assert forall|x: Seq<char>| acc.contains(x) implies #[trigger] out.contains(x) by {
            assert(r.contains(x));
            if out != r {
                let i = choose|i: int| 0 <= i < r.len() && r[i] == x;
                assert(out[i] == r[i]);
            }
        }
        if out != r {
            assert forall|i: int, j: int| 0 <= i < j < out.len() implies #[trigger] out[i] != #[trigger] out[j] by {
                if j == out.len() - 1 {
                    assert(out[i] == r[i]);
                    assert(r.contains(r[i]));
                } else {
                    assert(out[i] == r[i] && out[j] == r[j]);
                }
            }
            assert forall|i: int| 0 <= i < out.len() implies is_named_volume(#[trigger] out[i]) by {
                if i < r.len() {
                    assert(out[i] == r[i]);
                }
            }
        }
    }
}

/// A volume specification of the service of node `j`.
pub open spec fn service_uses_volume(nodes: Seq<NodeView>, j: int, x: Seq<char>) -> bool {
    &&& !is_group(nodes[j].node_type)
    &&& docker_mapping_for(nodes[j].node_type) matches Some(m)
    &&& names_volume_of(m.volumes, x)
}

/// The `volumes` section lists each named volume of the services among the
/// first `k` nodes exactly once, and nothing else.
pub proof fn law_named_volumes(nodes: Seq<NodeView>, k: int)
    requires
        0 <= k <= nodes.len(),
    ensures
        distinct_names(named_volumes(nodes, k)),
        forall|x: Seq<char>|
            #[trigger] named_volumes(nodes, k).contains(x) <==> exists|j: int|
                0 <= j < k && #[trigger] service_uses_volume(nodes, j, x),
    decreases k,
{
    if k > 0 {
        law_named_volumes(nodes, k - 1);
        let acc = named_volumes(nodes, k - 1);
        let out = named_volumes(nodes, k);
        assert forall|i: int| 0 <= i < acc.len() implies is_named_volume(#[trigger] acc[i]) by {
            assert(acc.contains(acc[i]));
            let j = choose|j: int| 0 <= j < k - 1 && #[trigger] service_uses_volume(nodes, j, acc[i]);
        }
        if !is_group(nodes[k - 1].node_type) && docker_mapping_for(nodes[k - 1].node_type) is Some {
            let m = docker_mapping_for(nodes[k - 1].node_type).unwrap();
            lemma_add_named(acc, m.volumes);
            assert forall|x: Seq<char>| #[trigger] out.contains(x) <==> exists|j: int|
                0 <= j < k && #[trigger] service_uses_volume(nodes, j, x) by {
                if out.contains(x) {
                    if acc.contains(x) {
                        let j = choose|j: int| 0 <= j < k - 1 && #[trigger] service_uses_volume(nodes, j, x);
                    } else {
                        assert(service_uses_volume(nodes, k - 1, x));
                    }
                }
                if exists|j: int| 0 <= j < k && #[trigger] service_uses_volume(nodes, j, x) {
                    let j = choose|j: int| 0 <= j < k && #[trigger] service_uses_volume(nodes, j, x);
                    if j < k - 1 {
                        assert(acc.contains(x));
                    } else {
                        let q = choose|q: int| 0 <= q < m.volumes.len() && is_named_volume(x) && x == volume_name(#[trigger] m.volumes[q]);
                        assert(out.contains(volume_name(m.volumes[q])));
                    }
                }
            }
        } else {
            assert forall|x: Seq<char>| #[trigger] out.contains(x) <==> exists|j: int|
                0 <= j < k && #[trigger] service_uses_volume(nodes, j, x) by {
                if exists|j: int| 0 <= j < k && #[trigger] service_uses_volume(nodes, j, x) {
                    let j = choose|j: int| 0 <= j < k && #[trigger] service_uses_volume(nodes, j, x);
                    assert(j < k - 1);
                }
            }
        }
    }
}

/// The Compose file starts with its version line and the `services` key.
pub proof fn law_compose_header(nodes: Seq<NodeView>, edges: Seq<EdgeView>)
    ensures
        compose_yaml(nodes, edges).len() >= "version: \"3.8\"\n\nservices:\n"@.len(),
        compose_yaml(nodes, edges).subrange(0, "version: \"3.8\"\n\nservices:\n"@.len() as int)
            == "version: \"3.8\"\n\nservices:\n"@,
{
    let h = "version: \"3.8\"\n\nservices:\n"@;
    let vols = named_volumes(nodes, nodes.len() as int);
    let t = services_part(nodes, edges, nodes.len() as int)
        + (if has_group(nodes) { "networks:\n"@ + network_entries(nodes, nodes.len() as int) } else { Seq::empty() })
        + (if vols.len() == 0 { Seq::empty() } else { "\nvolumes:\n"@ + lines(vols, "  "@, ":\n"@) });
    assert(compose_yaml(nodes, edges) =~= h + t);
    assert((h + t).subrange(0, h.len() as int) =~= h);
}

/// The `services` section holds one block per non-group node, in node order;
/// group nodes get none (they become networks).
pub proof fn law_compose_services(nodes: Seq<NodeView>, edges: Seq<EdgeView>, n: int)
    requires
        0 <= n <= nodes.len(),
    ensures
        services_part(nodes, edges, n) == joined_texts(
            non_group_positions(nodes, n).map_values(|i: int| service_block(nodes, edges, i)),
        ),
    decreases n,
{
    if n > 0 {
        law_compose_services(nodes, edges, n - 1);
        if !is_group(nodes[n - 1].node_type) {
            let f = |i: int| service_block(nodes, edges, i);
            assert(non_group_positions(nodes, n).map_values(f).drop_last() =~= non_group_positions(
                nodes,
                n - 1,
            ).map_values(f));
        }
    }
}

/// Every name a service lists under `depends_on` is the service name of the
/// source of an edge into that service (among the first `m` edges), and the
/// source of every such edge between two services is listed.
pub proof fn law_depends_on_sources(nodes: Seq<NodeView>, edges: Seq<EdgeView>, id: u128, m: int)
    requires
        0 <= m <= edges.len(),
    ensures
        forall|x: Seq<char>|
            #[trigger] depends_on(nodes, edges, id, m).contains(x) ==> exists|k: int|
                0 <= k < m && (#[trigger] edges[k]).target_id == id && name_for_id(nodes, edges[k].source_id)
                    == Some(x),
        forall|k: int|
            0 <= k < m && (#[trigger] edges[k]).target_id == id && name_for_id(nodes, edges[k].source_id) is Some
                && name_for_id(nodes, id) is Some ==> depends_on(nodes, edges, id, m).contains(
                name_for_id(nodes, edges[k].source_id).unwrap(),
            ),
    decreases m,
{
    if m > 0 {
        law_depends_on_sources(nodes, edges, id, m - 1);
        let rest = depends_on(nodes, edges, id, m - 1);
        let d = depends_on(nodes, edges, id, m);
        assert forall|x: Seq<char>| #[trigger] d.contains(x) implies exists|k: int|
            0 <= k < m && (#[trigger] edges[k]).target_id == id && name_for_id(nodes, edges[k].source_id)
                == Some(x) by {
            let i = choose|i: int| 0 <= i < d.len() && d[i] == x;
            if i < rest.len() {
                assert(rest[i] == d[i]);
                assert(rest.contains(x));
            } else {
                assert(edges[m - 1].target_id == id);
            }
        }
        assert forall|k: int|
            0 <= k < m && (#[trigger] edges[k]).target_id == id && name_for_id(nodes, edges[k].source_id) is Some
                && name_for_id(nodes, id) is Some implies d.contains(name_for_id(nodes, edges[k].source_id).unwrap()) by {
            let x = name_for_id(nodes, edges[k].source_id).unwrap();
            if k < m - 1 {
                let i = choose|i: int| 0 <= i < rest.len() && rest[i] == x;
                assert(d[i] == rest[i]);
            } else {
                assert(d[d.len() - 1] == x);
            }
        }
    }
}

} // verus!
