//! The recent CPU and memory readings of each container, behind the charts.
//! The table is a vector of names beside a vector of histories, with distinct
//! names as its invariant, in place of a hash map keyed by `String`.
use vstd::prelude::*;
use std::collections::VecDeque;
use crate::text::str_eq;

verus! {

/// How many readings a chart keeps (two minutes at one reading every two
/// seconds).
pub const HISTORY_LEN: usize = 60;

/// `s` with `v` appended, the oldest reading dropped when `s` is full.
pub open spec fn capped_push<T>(s: Seq<T>, v: T) -> Seq<T> {
    if s.len() >= HISTORY_LEN {
        s.drop_first().push(v)
    } else {
        s.push(v)
    }
}

/// The newest reading, or `zero` when there is none.
pub open spec fn last_or<T>(s: Seq<T>, zero: T) -> T {
    if s.len() > 0 {
        s.last()
    } else {
        zero
    }
}

/// The CPU and memory readings of one container, oldest first.
pub struct ContainerHistory<T> {
    pub cpu: VecDeque<T>,
    pub mem: VecDeque<T>,
}

impl<T> ContainerHistory<T> {
    pub fn new() -> (h: Self)
        ensures
            h.cpu@ == Seq::<T>::empty(),
            h.mem@ == Seq::<T>::empty(),
    {
        ContainerHistory { cpu: VecDeque::new(), mem: VecDeque::new() }
    }

    fn push_capped(q: &mut VecDeque<T>, v: T)
        ensures
            final(q)@ == capped_push(old(q)@, v),
    {
        if q.len() >= HISTORY_LEN {
            q.pop_front();
        }
        q.push_back(v);
    }

    /// Adds a CPU reading, forgetting the oldest when full.
    pub fn push_cpu(&mut self, v: T)
        ensures
            final(self).cpu@ == capped_push(old(self).cpu@, v),
            final(self).mem@ == old(self).mem@,
    {
        Self::push_capped(&mut self.cpu, v);
    }

    /// Adds a memory reading, forgetting the oldest when full.
    pub fn push_mem(&mut self, v: T)
        ensures
            final(self).mem@ == capped_push(old(self).mem@, v),
            final(self).cpu@ == old(self).cpu@,
    {
        Self::push_capped(&mut self.mem, v);
    }
}

/// The newest reading of a queue, or `zero`.
fn last_reading<T: Copy>(q: &VecDeque<T>, zero: T) -> (r: T)
    ensures
        r == last_or(q@, zero),
{
    let n = q.len();
    if n > 0 {
        q[n - 1]
    } else {
        zero
    }
}

/// The readings of a container as plain sequences.
pub open spec fn readings<T>(h: ContainerHistory<T>) -> (Seq<T>, Seq<T>) {
    (h.cpu@, h.mem@)
}

/// The map from container names to readings that the first `k` entries
/// describe.
pub open spec fn table_map<T>(names: Seq<Seq<char>>, hs: Seq<(Seq<T>, Seq<T>)>, k: nat) -> Map<Seq<char>, (Seq<T>, Seq<T>)>
    decreases k,
{
    if k == 0 {
        Map::empty()
    } else {
        table_map(names, hs, (k - 1) as nat).insert(names[k - 1], hs[k - 1])
    }
}

/// The readings of every container seen so far, by container name.
pub struct HistoryTable<T> {
    names: Vec<String>,
    entries: Vec<ContainerHistory<T>>,
}

impl<T> HistoryTable<T> {
    pub closed spec fn names_view(&self) -> Seq<Seq<char>> {
        self.names@.map_values(|s: String| s@)
    }

    pub closed spec fn entries_view(&self) -> Seq<(Seq<T>, Seq<T>)> {
        self.entries@.map_values(|h: ContainerHistory<T>| readings(h))
    }

    /// One entry per name, each name once.
    pub closed spec fn wf(&self) -> bool {
        &&& self.names@.len() == self.entries@.len()
        &&& forall|i: int, j: int|
            0 <= i < j < self.names@.len() ==> self.names@[i]@ != self.names@[j]@
    }

    /// The readings by container name.
    pub closed spec fn map(&self) -> Map<Seq<char>, (Seq<T>, Seq<T>)> {
        table_map(self.names_view(), self.entries_view(), self.names@.len())
    }

    /// An empty table.
    pub fn new() -> (t: Self)
        ensures
            t.wf(),
            t.map() == Map::<Seq<char>, (Seq<T>, Seq<T>)>::empty(),
    {
        HistoryTable { names: Vec::new(), entries: Vec::new() }
    }

    proof fn lemma_map_entry(&self, i: int)
        requires
            self.wf(),
            0 <= i < self.names@.len(),
        ensures
            self.map().contains_key(self.names@[i]@),
            self.map()[self.names@[i]@] == readings(self.entries@[i]),
    {
        lemma_table_entry(self.names_view(), self.entries_view(), self.names@.len(), i);
    }

    proof fn lemma_map_absent(&self, name: Seq<char>)
        requires
            self.wf(),
            forall|i: int| 0 <= i < self.names@.len() ==> self.names@[i]@ != name,
        ensures
            !self.map().contains_key(name),
    {
        lemma_table_absent(self.names_view(), self.entries_view(), self.names@.len(), name);
    }

    fn find(&self, name: &str) -> (r: Option<usize>)
        requires
            self.wf(),
        ensures
            match r {
                Some(i) => i < self.names@.len() && self.names@[i as int]@ == name@,
                None => forall|i: int| 0 <= i < self.names@.len() ==> self.names@[i]@ != name@,
            },
    {
        let mut i: usize = 0;
        while i < self.names.len()
            invariant
                i <= self.names@.len(),
                forall|j: int| 0 <= j < i ==> self.names@[j]@ != name@,
            decreases self.names.len() - i,
        {
            if str_eq(self.names[i].as_str(), name) {
                return Some(i);
            }
            i = i + 1;
        }
        None
    }

    /// The readings of a container, if any were recorded.
    pub fn get(&self, name: &str) -> (r: Option<&ContainerHistory<T>>)
        requires
            self.wf(),
        ensures
            match r {
                Some(h) => self.map().contains_key(name@) && self.map()[name@] == readings(*h),
                None => !self.map().contains_key(name@),
            },
    {
        match self.find(name) {
            Some(i) => {
                proof {
                    self.lemma_map_entry(i as int);
                }
                Some(&self.entries[i])
            },
            None => {
                proof {
                    self.lemma_map_absent(name@);
                }
                None
            },
        }
    }
}

proof fn lemma_table_entry<T>(names: Seq<Seq<char>>, hs: Seq<(Seq<T>, Seq<T>)>, k: nat, i: int)
    requires
        0 <= i < k <= names.len(),
        k <= hs.len(),
        forall|a: int, b: int| 0 <= a < b < names.len() ==> names[a] != names[b],
    ensures
        table_map(names, hs, k).contains_key(names[i]),
        table_map(names, hs, k)[names[i]] == hs[i],
    decreases k,
{
    if i < k - 1 {
        lemma_table_entry(names, hs, (k - 1) as nat, i);
    }
}

proof fn lemma_table_absent<T>(names: Seq<Seq<char>>, hs: Seq<(Seq<T>, Seq<T>)>, k: nat, name: Seq<char>)
    requires
        k <= names.len(),
        forall|i: int| 0 <= i < k ==> names[i] != name,
    ensures
        !table_map(names, hs, k).contains_key(name),
    decreases k,
{
    if k > 0 {
        lemma_table_absent(names, hs, (k - 1) as nat, name);
    }
}

proof fn lemma_table_same_prefix<T>(n1: Seq<Seq<char>>, h1: Seq<(Seq<T>, Seq<T>)>, n2: Seq<Seq<char>>, h2: Seq<(Seq<T>, Seq<T>)>, k: nat)
    requires
        k <= n1.len(),
        k <= n2.len(),
        k <= h1.len(),
        k <= h2.len(),
        forall|i: int| 0 <= i < k ==> n1[i] == n2[i] && h1[i] == h2[i],
    ensures
        table_map(n1, h1, k) == table_map(n2, h2, k),
    decreases k,
{
    if k > 0 {
        lemma_table_same_prefix(n1, h1, n2, h2, (k - 1) as nat);
    }
}

proof fn lemma_table_update<T>(names: Seq<Seq<char>>, hs: Seq<(Seq<T>, Seq<T>)>, k: nat, i: int, x: (Seq<T>, Seq<T>))
    requires
        0 <= i < k <= names.len(),
        k <= hs.len(),
        forall|a: int, b: int| 0 <= a < b < names.len() ==> names[a] != names[b],
    ensures
        table_map(names, hs.update(i, x), k) == table_map(names, hs, k).insert(names[i], x),
    decreases k,
{
    let hs2 = hs.update(i, x);
    if i == k - 1 {
        lemma_table_same_prefix(names, hs2, names, hs, (k - 1) as nat);
        assert(table_map(names, hs2, k) =~= table_map(names, hs, k).insert(names[i], x));
    } else {
        lemma_table_update(names, hs, (k - 1) as nat, i, x);
        assert(names[i] != names[k - 1]);
        assert(table_map(names, hs2, k) =~= table_map(names, hs, k).insert(names[i], x));
    }
}

/// The table after one sample: the container's readings, empty if it is
/// new, with the sample's CPU and memory readings added.
pub open spec fn with_sample<T>(m: Map<Seq<char>, (Seq<T>, Seq<T>)>, name: Seq<char>, cpu: T, mem: T) -> Map<Seq<char>, (Seq<T>, Seq<T>)> {
    let h = if m.contains_key(name) {
        m[name]
    } else {
        (Seq::empty(), Seq::empty())
    };
    m.insert(name, (capped_push(h.0, cpu), capped_push(h.1, mem)))
}

/// The table after the first `k` samples.
pub open spec fn with_samples<T>(m: Map<Seq<char>, (Seq<T>, Seq<T>)>, samples: Seq<(Seq<char>, T, T)>, k: nat) -> Map<Seq<char>, (Seq<T>, Seq<T>)>
    decreases k,
{
    if k == 0 {
        m
    } else {
        let s = samples[k - 1];
        with_sample(with_samples(m, samples, (k - 1) as nat), s.0, s.1, s.2)
    }
}

/// The table after the first `k` known containers were looked at: each one
/// with a history but no sample this time repeats its newest readings (or
/// `zero`), so that its chart has no gap.
pub open spec fn with_repeats<T>(m: Map<Seq<char>, (Seq<T>, Seq<T>)>, sampled: Seq<Seq<char>>, known: Seq<Seq<char>>, zero: T, k: nat) -> Map<Seq<char>, (Seq<T>, Seq<T>)>
    decreases k,
{
    if k == 0 {
        m
    } else {
        let acc = with_repeats(m, sampled, known, zero, (k - 1) as nat);
        let name = known[k - 1];
        if !sampled.contains(name) && acc.contains_key(name) {
            let h = acc[name];
            acc.insert(name, (capped_push(h.0, last_or(h.0, zero)), capped_push(h.1, last_or(h.1, zero))))
        } else {
            acc
        }
    }
}

pub open spec fn samples_view<T>(s: Seq<(String, T, T)>) -> Seq<(Seq<char>, T, T)> {
    s.map_values(|x: (String, T, T)| (x.0@, x.1, x.2))
}

/// The names of the known containers, from their `(id, name)` pairs.
pub open spec fn known_names(k: Seq<(String, String)>) -> Seq<Seq<char>> {
    k.map_values(|x: (String, String)| x.1@)
}

/// The table after a refresh: the samples recorded in order, then the gaps
/// of the known containers without a sample filled.
pub open spec fn recorded<T>(m: Map<Seq<char>, (Seq<T>, Seq<T>)>, samples: Seq<(Seq<char>, T, T)>, known: Seq<Seq<char>>, zero: T) -> Map<Seq<char>, (Seq<T>, Seq<T>)> {
    let sampled = samples.map_values(|s: (Seq<char>, T, T)| s.0);
    with_repeats(with_samples(m, samples, samples.len()), sampled, known, zero, known.len())
}

impl<T: Copy> HistoryTable<T> {
    fn push_readings(&mut self, i: usize, cpu: T, mem: T)
        requires
            old(self).wf(),
            i < old(self).names@.len(),
        ensures
            final(self).wf(),
            final(self).names@ == old(self).names@,
            final(self).map() == old(self).map().insert(
                old(self).names@[i as int]@,
                (capped_push(old(self).entries@[i as int].cpu@, cpu), capped_push(old(self).entries@[i as int].mem@, mem)),
            ),
    {
        let ghost before = self.entries_view();
        self.entries[i].push_cpu(cpu);
        self.entries[i].push_mem(mem);
        proof {
            let x = readings(self.entries@[i as int]);
            assert(self.entries_view() =~= before.update(i as int, x));
            lemma_table_update(self.names_view(), before, self.names@.len(), i as int, x);
        }
    }

    fn add_entry(&mut self, name: &str) -> (i: usize)
        requires
            old(self).wf(),
            forall|j: int| 0 <= j < old(self).names@.len() ==> old(self).names@[j]@ != name@,
        ensures
            final(self).wf(),
            i == old(self).names@.len(),
            final(self).names@.len() == i + 1,
            final(self).names@[i as int]@ == name@,
            final(self).entries@[i as int].cpu@ == Seq::<T>::empty(),
            final(self).entries@[i as int].mem@ == Seq::<T>::empty(),
            final(self).map() == old(self).map().insert(name@, (Seq::<T>::empty(), Seq::<T>::empty())),
    {
        let ghost n0 = self.names_view();
        let ghost e0 = self.entries_view();
        let i = self.names.len();
        self.names.push(name.to_owned());
        self.entries.push(ContainerHistory::new());
        proof {
            assert(self.names_view() =~= n0.push(name@));
            assert(self.entries_view() =~= e0.push((Seq::<T>::empty(), Seq::<T>::empty())));
            lemma_table_same_prefix(self.names_view(), self.entries_view(), n0, e0, i as nat);
        }
        i
    }

    /// Records one refresh: each sample's readings under its container's
    /// name, then, for each known container without a sample, a repeat of its
    /// newest readings.
    pub fn record(&mut self, samples: &Vec<(String, T, T)>, known: &Vec<(String, String)>, zero: T)
        requires
            old(self).wf(),
        ensures
            final(self).wf(),
            final(self).map() == recorded(old(self).map(), samples_view(samples@), known_names(known@), zero),
    {
        let ghost sv = samples_view(samples@);
        let ghost m0 = self.map();
        let mut k: usize = 0;
        while k < samples.len()
            invariant
                k <= samples.len(),
                self.wf(),
                sv == samples_view(samples@),
                self.map() == with_samples(m0, sv, k as nat),
            decreases samples.len() - k,
        {
            let name = samples[k].0.as_str();
            let i = match self.find(name) {
                Some(i) => {
                    proof {
                        self.lemma_map_entry(i as int);
                    }
                    i
                },
                None => {
                    proof {
                        self.lemma_map_absent(name@);
                    }
                    self.add_entry(name)
                },
            };
            proof {
                self.lemma_map_entry(i as int);
            }
            self.push_readings(i, samples[k].1, samples[k].2);
            k = k + 1;
        }
        let ghost sampled = sv.map_values(|s: (Seq<char>, T, T)| s.0);
        let ghost kv = known_names(known@);
        let ghost m1 = self.map();
        let mut j: usize = 0;
        while j < known.len()
            invariant
                j <= known.len(),
                self.wf(),
                sv == samples_view(samples@),
                sampled == sv.map_values(|s: (Seq<char>, T, T)| s.0),
                kv == known_names(known@),
                self.map() == with_repeats(m1, sampled, kv, zero, j as nat),
            decreases known.len() - j,
        {
            let name = known[j].1.as_str();
            let mut seen = false;
            let mut s: usize = 0;
            while s < samples.len()
                invariant
                    s <= samples.len(),
                    sv == samples_view(samples@),
                    sampled == sv.map_values(|x: (Seq<char>, T, T)| x.0),
                    seen == exists|t: int| 0 <= t < s && sampled[t] == name@,
                decreases samples.len() - s,
            {
                assert(sampled[s as int] == samples@[s as int].0@);
                if str_eq(samples[s].0.as_str(), name) {
                    seen = true;
                }
                s = s + 1;
            }
            assert(seen == sampled.contains(name@));
            if !seen {
                match self.find(name) {
                    Some(i) => {
                        proof {
                            self.lemma_map_entry(i as int);
                        }
                        let c = last_reading(&self.entries[i].cpu, zero);
                        let m = last_reading(&self.entries[i].mem, zero);
                        self.push_readings(i, c, m);
                    },
                    None => {
                        proof {
                            self.lemma_map_absent(name@);
                        }
                    },
                }
            }
            j = j + 1;
        }
    }
}

/// Recording never lets a chart grow past its window: if every history had
/// at most `HISTORY_LEN` readings before a refresh, it still has after.
pub proof fn law_history_stays_bounded<T>(m: Map<Seq<char>, (Seq<T>, Seq<T>)>, samples: Seq<(Seq<char>, T, T)>, known: Seq<Seq<char>>, zero: T)
    requires
        forall|n: Seq<char>| #[trigger] m.contains_key(n) ==> m[n].0.len() <= HISTORY_LEN && m[n].1.len() <= HISTORY_LEN,
    ensures
        forall|n: Seq<char>| #[trigger] recorded(m, samples, known, zero).contains_key(n) ==> recorded(m, samples, known, zero)[n].0.len()
            <= HISTORY_LEN && recorded(m, samples, known, zero)[n].1.len() <= HISTORY_LEN,
{
    lemma_samples_bounded(m, samples, samples.len());
    let sampled = samples.map_values(|s: (Seq<char>, T, T)| s.0);
    lemma_repeats_bounded(with_samples(m, samples, samples.len()), sampled, known, zero, known.len());
}

/// Every container that had readings keeps them, and the newest reading of
/// a sampled container is its last sample.
pub proof fn law_sample_is_newest<T>(m: Map<Seq<char>, (Seq<T>, Seq<T>)>, name: Seq<char>, cpu: T, mem: T)
    ensures
        with_sample(m, name, cpu, mem).contains_key(name),
        with_sample(m, name, cpu, mem)[name].0.last() == cpu,
        with_sample(m, name, cpu, mem)[name].1.last() == mem,
        forall|n: Seq<char>| #[trigger] m.contains_key(n) ==> with_sample(m, name, cpu, mem).contains_key(n),
{
}

proof fn lemma_capped_bounded<T>(s: Seq<T>, v: T)
    requires
        s.len() <= HISTORY_LEN,
    ensures
        capped_push(s, v).len() <= HISTORY_LEN,
{
}

proof fn lemma_samples_bounded<T>(m: Map<Seq<char>, (Seq<T>, Seq<T>)>, samples: Seq<(Seq<char>, T, T)>, k: nat)
    requires
        k <= samples.len(),
        forall|n: Seq<char>| #[trigger] m.contains_key(n) ==> m[n].0.len() <= HISTORY_LEN && m[n].1.len() <= HISTORY_LEN,
    ensures
        forall|n: Seq<char>| #[trigger] with_samples(m, samples, k).contains_key(n) ==> with_samples(m, samples, k)[n].0.len()
            <= HISTORY_LEN && with_samples(m, samples, k)[n].1.len() <= HISTORY_LEN,
    decreases k,
{
    if k > 0 {
        lemma_samples_bounded(m, samples, (k - 1) as nat);
        let prev = with_samples(m, samples, (k - 1) as nat);
        let x = samples[k - 1];
        let h = if prev.contains_key(x.0) {
            prev[x.0]
        } else {
            (Seq::<T>::empty(), Seq::<T>::empty())
        };
        lemma_capped_bounded(h.0, x.1);
        lemma_capped_bounded(h.1, x.2);
    }
}

proof fn lemma_repeats_bounded<T>(m: Map<Seq<char>, (Seq<T>, Seq<T>)>, sampled: Seq<Seq<char>>, known: Seq<Seq<char>>, zero: T, k: nat)
    requires
        k <= known.len(),
        forall|n: Seq<char>| #[trigger] m.contains_key(n) ==> m[n].0.len() <= HISTORY_LEN && m[n].1.len() <= HISTORY_LEN,
    ensures
        forall|n: Seq<char>| #[trigger] with_repeats(m, sampled, known, zero, k).contains_key(n) ==> with_repeats(m, sampled, known, zero, k)[n].0.len()
            <= HISTORY_LEN && with_repeats(m, sampled, known, zero, k)[n].1.len() <= HISTORY_LEN,
    decreases k,
{
    if k > 0 {
        lemma_repeats_bounded(m, sampled, known, zero, (k - 1) as nat);
        let acc = with_repeats(m, sampled, known, zero, (k - 1) as nat);
        let name = known[k - 1];
        if acc.contains_key(name) {
            let h = acc[name];
            lemma_capped_bounded(h.0, last_or(h.0, zero));
            lemma_capped_bounded(h.1, last_or(h.1, zero));
        }
    }
}

} // verus!
