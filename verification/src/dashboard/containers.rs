//! Which running containers belong to the services of a compose file.
use vstd::prelude::*;
use crate::text::{str_eq, chars_of, contains_str, has_substring, string_from_chars, strip_leading_char, strip_leading_char_exec};

verus! {

/// A running container as the daemon lists it: its id and its names.
pub struct ContainerSummary {
    pub id: String,
    pub names: Vec<String>,
}

pub struct ContainerSummaryView {
    pub id: Seq<char>,
    pub names: Seq<Seq<char>>,
}

impl View for ContainerSummary {
    type V = ContainerSummaryView;

    open spec fn view(&self) -> ContainerSummaryView {
        ContainerSummaryView {
            id: self.id@,
            names: self.names@.map_values(|s: String| s@),
        }
    }
}

/// A container name shown without its leading slashes.
pub open spec fn display_name(raw: Seq<char>) -> Seq<char> {
    strip_leading_char(raw, '/')
}

/// A name belongs to the services when no services are given, or when it
/// contains one of their names.
pub open spec fn belongs(name: Seq<char>, services: Seq<Seq<char>>) -> bool {
    services.len() == 0 || exists|i: int| 0 <= i < services.len() && has_substring(name, #[trigger] services[i])
}

/// The first of the first `k` names that belongs to the services, shown
/// without leading slashes.
pub open spec fn first_belonging(names: Seq<Seq<char>>, services: Seq<Seq<char>>, k: nat) -> Option<Seq<char>>
    decreases k,
{
    if k == 0 {
        None
    } else {
        match first_belonging(names, services, (k - 1) as nat) {
            Some(n) => Some(n),
            None => if belongs(display_name(names[k - 1]), services) {
                Some(display_name(names[k - 1]))
            } else {
                None
            },
        }
    }
}

/// `(id, name)` of each of the first `k` containers that has a name
/// belonging to the services, with the first such name.
pub open spec fn matching_containers(cs: Seq<ContainerSummaryView>, services: Seq<Seq<char>>, k: nat) -> Seq<(Seq<char>, Seq<char>)>
    decreases k,
{
    if k == 0 {
        Seq::empty()
    } else {
        let rest = matching_containers(cs, services, (k - 1) as nat);
        let c = cs[k - 1];
        match first_belonging(c.names, services, c.names.len()) {
            Some(n) => rest.push((c.id, n)),
            None => rest,
        }
    }
}

pub open spec fn pairs_of(v: Seq<(String, String)>) -> Seq<(Seq<char>, Seq<char>)> {
    v.map_values(|p: (String, String)| (p.0@, p.1@))
}

fn belongs_exec(name: &str, services: &Vec<String>) -> (b: bool)
    ensures
        b == belongs(name@, services@.map_values(|s: String| s@)),
{
    let ghost sv = services@.map_values(|s: String| s@);
    if services.len() == 0 {
        return true;
    }
    let mut i: usize = 0;
    while i < services.len()
        invariant
            i <= services.len(),
            sv == services@.map_values(|s: String| s@),
            forall|j: int| 0 <= j < i ==> !has_substring(name@, #[trigger] sv[j]),
        decreases services.len() - i,
    {
        assert(sv[i as int] == services@[i as int]@);
        if contains_str(name, services[i].as_str()) {
            return true;
        }
        i = i + 1;
    }
    false
}

/// The id and display name of each container with a name belonging to the
/// services (every container when no services are given), in listing order.
pub fn containers_for_services(containers: &Vec<ContainerSummary>, services: &Vec<String>) -> (r: Vec<(String, String)>)
    ensures
        pairs_of(r@) == matching_containers(
            containers@.map_values(|c: ContainerSummary| c@),
            services@.map_values(|s: String| s@),
            containers@.len(),
        ),
{
    let ghost cv = containers@.map_values(|c: ContainerSummary| c@);
    let ghost sv = services@.map_values(|s: String| s@);
    let mut result: Vec<(String, String)> = Vec::new();
    let mut k: usize = 0;
    assert(pairs_of(result@) =~= Seq::<(Seq<char>, Seq<char>)>::empty());
    while k < containers.len()
        invariant
            k <= containers.len(),
            cv == containers@.map_values(|c: ContainerSummary| c@),
            sv == services@.map_values(|s: String| s@),
            pairs_of(result@) == matching_containers(cv, sv, k as nat),
        decreases containers.len() - k,
    {
        let c = &containers[k];
        let ghost names = cv[k as int].names;
        assert(names == c.names@.map_values(|s: String| s@));
        let mut found: Option<String> = None;
        let mut i: usize = 0;
        while i < c.names.len()
            invariant_except_break
                first_belonging(names, sv, i as nat) is None,
                found is None,
            invariant
                i <= c.names.len(),
                names == c.names@.map_values(|s: String| s@),
                sv == services@.map_values(|s: String| s@),
            ensures
                match found {
                    Some(n) => first_belonging(names, sv, names.len()) == Some(n@),
                    None => first_belonging(names, sv, names.len()) is None,
                },
            decreases c.names.len() - i,
        {
            let raw = chars_of(c.names[i].as_str());
            let stripped = strip_leading_char_exec(&raw, '/');
            let name = string_from_chars(&stripped);
            assert(names[i as int] == c.names@[i as int]@);
            if belongs_exec(name.as_str(), services) {
                found = Some(name);
                proof {
                    lemma_first_belonging_stays(names, sv, (i + 1) as nat, names.len());
                }
                break;
            }
            i = i + 1;
        }
        match found {
            Some(n) => {
                let ghost before = result@;
                result.push((c.id.clone(), n));
                assert(pairs_of(result@) =~= pairs_of(before).push((result@.last().0@, result@.last().1@)));
            },
            None => {},
        }
        k = k + 1;
    }
    result
}

proof fn lemma_first_belonging_stays(names: Seq<Seq<char>>, services: Seq<Seq<char>>, k: nat, k2: nat)
    requires
        k <= k2,
        first_belonging(names, services, k) is Some,
    ensures
        first_belonging(names, services, k2) == first_belonging(names, services, k),
    decreases k2,
{
    if k2 > k {
        lemma_first_belonging_stays(names, services, k, (k2 - 1) as nat);
    }
}

/// The view of a list of (id, name) pairs.
pub open spec fn pairs_of_view(cs: Seq<(String, String)>) -> Seq<(Seq<char>, Seq<char>)> {
    cs.map_values(|c: (String, String)| (c.0@, c.1@))
}

/// Some of the first `k` pairs has the given id.
pub open spec fn has_id_before(cs: Seq<(Seq<char>, Seq<char>)>, id: Seq<char>, k: int) -> bool {
    exists|i: int| 0 <= i < k && #[trigger] cs[i].0 == id
}

/// The ids among the first `k` running streams whose container is gone.
pub open spec fn stale_streams(running: Seq<Seq<char>>, cs: Seq<(Seq<char>, Seq<char>)>, k: int) -> Seq<Seq<char>>
    decreases k,
{
    if k <= 0 {
        Seq::empty()
    } else if has_id_before(cs, running[k - 1], cs.len() as int) {
        stale_streams(running, cs, k - 1)
    } else {
        stale_streams(running, cs, k - 1).push(running[k - 1])
    }
}

/// Among the first `k` containers, those that need a new stream: their id
/// has no running stream and no earlier container has it.
pub open spec fn streams_to_start(
    running: Seq<Seq<char>>,
    cs: Seq<(Seq<char>, Seq<char>)>,
    k: int,
) -> Seq<(Seq<char>, Seq<char>)>
    decreases k,
{
    if k <= 0 {
        Seq::empty()
    } else if running.contains(cs[k - 1].0) || has_id_before(cs, cs[k - 1].0, k - 1) {
        streams_to_start(running, cs, k - 1)
    } else {
        streams_to_start(running, cs, k - 1).push(cs[k - 1])
    }
}

fn has_id_in(cs: &Vec<(String, String)>, id: &str, k: usize) -> (b: bool)
    requires
        k <= cs.len(),
    ensures
        b == has_id_before(pairs_of_view(cs@), id@, k as int),
{
    let ghost v = pairs_of_view(cs@);
    let mut i: usize = 0;
    while i < k
        invariant
            i <= k <= cs.len(),
            v == pairs_of_view(cs@),
            forall|j: int| 0 <= j < i ==> v[j].0 != id@,
        decreases k - i,
    {
        if str_eq(cs[i].0.as_str(), id) {
            assert(v[i as int].0 == id@);
            return true;
        }
        i = i + 1;
    }
    false
}

fn running_has(running: &Vec<String>, id: &str) -> (b: bool)
    ensures
        b == running@.map_values(|s: String| s@).contains(id@),
{
    let ghost rv = running@.map_values(|s: String| s@);
    let mut i: usize = 0;
    while i < running.len()
        invariant
            i <= running.len(),
            rv == running@.map_values(|s: String| s@),
            forall|j: int| 0 <= j < i ==> rv[j] != id@,
        decreases running.len() - i,
    {
        if str_eq(running[i].as_str(), id) {
            assert(rv[i as int] == id@);
            return true;
        }
        i = i + 1;
    }
    false
}

/// Plans the stream tasks for the listed containers: the running streams to
/// stop (their container is gone) and the containers to start a stream for.
pub fn plan_streams(running: &Vec<String>, containers: &Vec<(String, String)>) -> (r: (Vec<String>, Vec<(String, String)>))
    ensures
        r.0@.map_values(|s: String| s@) == stale_streams(
            running@.map_values(|s: String| s@),
            pairs_of_view(containers@),
            running@.len() as int,
        ),
        pairs_of_view(r.1@) == streams_to_start(
            running@.map_values(|s: String| s@),
            pairs_of_view(containers@),
            containers@.len() as int,
        ),
{
    let ghost rv = running@.map_values(|s: String| s@);
    let ghost cv = pairs_of_view(containers@);
    let mut stop: Vec<String> = Vec::new();
    let mut i: usize = 0;
    while i < running.len()
        invariant
            i <= running.len(),
            rv == running@.map_values(|s: String| s@),
            cv == pairs_of_view(containers@),
            stop@.map_values(|s: String| s@) == stale_streams(rv, cv, i as int),
        decreases running.len() - i,
    {
        let ghost before = stop@;
        if !has_id_in(containers, running[i].as_str(), containers.len()) {
            stop.push(running[i].clone());
            assert(stop@.map_values(|s: String| s@) =~= before.map_values(|s: String| s@).push(rv[i as int]));
        }
        i = i + 1;
    }
    let mut start: Vec<(String, String)> = Vec::new();
    let mut k: usize = 0;
    while k < containers.len()
        invariant
            k <= containers.len(),
            rv == running@.map_values(|s: String| s@),
            cv == pairs_of_view(containers@),
            pairs_of_view(start@) == streams_to_start(rv, cv, k as int),
        decreases containers.len() - k,
    {
        let ghost before = start@;
        if !running_has(running, containers[k].0.as_str()) && !has_id_in(containers, containers[k].0.as_str(), k) {
            start.push((containers[k].0.clone(), containers[k].1.clone()));
            assert(pairs_of_view(start@) =~= pairs_of_view(before).push(cv[k as int]));
        }
        k = k + 1;
    }
    (stop, start)
}

} // verus!
