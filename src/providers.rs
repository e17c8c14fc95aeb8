use vstd::prelude::*;
use crate::config::ProviderConfig;
use crate::errors::LLMPoolError;
use crate::text::str_is;

verus! {

/// One backend answer.
pub struct ProviderResponse {
    pub content: String,
    pub model: String,
    pub duration_ms: i32,
}

impl Clone for ProviderResponse {
    fn clone(&self) -> (r: ProviderResponse)
        ensures
            r@ == self@,
    {
        ProviderResponse {
            content: self.content.clone(),
            model: self.model.clone(),
            duration_ms: self.duration_ms,
        }
    }
}

impl View for ProviderResponse {
    type V = (Seq<char>, Seq<char>, i32);

    open spec fn view(&self) -> (Seq<char>, Seq<char>, i32) {
        (self.content@, self.model@, self.duration_ms)
    }
}


/// A registered backend: its name, weight and tasks, and its position in
/// the configuration list.
pub struct PoolEntry {
    pub name: String,
    pub weight_milli: u32,
    pub tasks: Vec<String>,
    pub config_index: usize,
}

/// The registry of backends, in configuration order, names unique.
pub struct ProviderPool {
    entries: Vec<PoolEntry>,
}

pub open spec fn tasks_view(ts: Seq<String>) -> Seq<Seq<char>> {
    ts.map_values(|t: String| t@)
}

/// Backend entry `e` declares task `task`.
pub open spec fn supports(e: PoolEntry, task: Seq<char>) -> bool {
    exists|i: int| 0 <= i < e.tasks@.len() && #[trigger] e.tasks@[i]@ == task
}

/// No two entries share a name.
pub open spec fn names_unique(es: Seq<PoolEntry>) -> bool {
    forall|i: int, j: int| 0 <= i < j < es.len() ==> es[i].name@ != es[j].name@
}

/// The configured backends whose driver is supported, by position.
pub open spec fn kept(cs: Seq<ProviderConfig>) -> Seq<int>
    decreases cs.len(),
{
    if cs.len() == 0 {
        Seq::empty()
    } else if cs.last().driver@ == "ollama"@ {
        kept(cs.drop_last()).push(cs.len() - 1)
    } else {
        kept(cs.drop_last())
    }
}

/// Entry `e` describes configured backend `c`, found at position `i`.
pub open spec fn describes(e: PoolEntry, c: ProviderConfig, i: int) -> bool {
    &&& e.config_index == i
    &&& e.name@ == c.name@
    &&& e.weight_milli == c.weight_milli
    &&& tasks_view(e.tasks@) == tasks_view(c.tasks@)
}

/// Whether name `n` is taken in `es`.
fn name_taken(es: &Vec<PoolEntry>, n: &str) -> (r: bool)
    ensures
        r == exists|i: int| 0 <= i < es@.len() && #[trigger] es@[i].name@ == n@,
{
    let mut i: usize = 0;
    while i < es.len()
        invariant
            i <= es@.len(),
            forall|j: int| 0 <= j < i ==> es@[j].name@ != n@,
        decreases es@.len() - i,
    {
        if str_is(es[i].name.as_str(), n) {
            return true;
        }
        i = i + 1;
    }
    false
}

fn copy_strings(v: &Vec<String>) -> (r: Vec<String>)
    ensures
        tasks_view(r@) == tasks_view(v@),
{
    let mut r: Vec<String> = Vec::new();
    let mut i: usize = 0;
    while i < v.len()
        invariant
            i <= v@.len(),
            r@.len() == i,
            forall|j: int| 0 <= j < i ==> r@[j]@ == v@[j]@,
        decreases v@.len() - i,
    {
        r.push(v[i].clone());
        i = i + 1;
    }
    assert(tasks_view(r@) =~= tasks_view(v@));
    r
}

/// Builds the registry from the configured backends, skipping those whose
/// driver is not supported. Two supported backends with one name are a
/// configuration error.
pub fn init(configs: &Vec<ProviderConfig>) -> (r: Result<ProviderPool, LLMPoolError>)
    ensures
        forall|k: int| 0 <= k < kept(configs@).len() ==> 0 <= #[trigger] kept(configs@)[k] < configs@.len(),
        r is Ok <==> forall|a: int, b: int| 0 <= a < b < kept(configs@).len()
            ==> configs@[kept(configs@)[a]].name@ != configs@[kept(configs@)[b]].name@,
        r matches Ok(p) ==> p.spec_entries().len() == kept(configs@).len() && names_unique(p.spec_entries())
            && forall|k: int| 0 <= k < p.spec_entries().len() ==> describes(
                #[trigger] p.spec_entries()[k], configs@[kept(configs@)[k]], kept(configs@)[k]),
        r matches Err(e) ==> e is ConfigError,
{
    proof { lemma_kept_bounds(configs@); }
    let mut entries: Vec<PoolEntry> = Vec::new();
    let mut i: usize = 0;
    while i < configs.len()
        invariant
            forall|k: int| 0 <= k < kept(configs@).len() ==> 0 <= #[trigger] kept(configs@)[k] < configs@.len(),
            i <= configs@.len(),
            entries@.len() == kept(configs@.subrange(0, i as int)).len(),
            names_unique(entries@),
            forall|k: int| 0 <= k < entries@.len() ==> describes(
                #[trigger] entries@[k], configs@[kept(configs@.subrange(0, i as int))[k]],
                kept(configs@.subrange(0, i as int))[k]),
            forall|k: int| 0 <= k < kept(configs@.subrange(0, i as int)).len()
                ==> 0 <= #[trigger] kept(configs@.subrange(0, i as int))[k] < i,
            forall|a: int, b: int| 0 <= a < b < kept(configs@.subrange(0, i as int)).len()
                ==> configs@[kept(configs@.subrange(0, i as int))[a]].name@
                    != configs@[kept(configs@.subrange(0, i as int))[b]].name@,
        decreases configs@.len() - i,
    {
        let ghost pre = configs@.subrange(0, i as int);
        let ghost post = configs@.subrange(0, i + 1);
        assert(post.drop_last() =~= pre);
        let c = &configs[i];
        if str_is(c.driver.as_str(), "ollama") {
            proof { reveal_strlit("ollama"); }
            assert(kept(post) == kept(pre).push(i as int));
            if name_taken(&entries, c.name.as_str()) {
                proof {
                    let j = choose|j: int| 0 <= j < entries@.len() && #[trigger] entries@[j].name@ == c.name@;
                    assert(kept(post)[j] == kept(pre)[j]);
                    assert(kept(post)[kept(pre).len() as int] == i);
                    assert(kept(configs@.subrange(0, configs@.len() as int)) == kept(configs@)) by {
                        assert(configs@.subrange(0, configs@.len() as int) =~= configs@);
                    }
                    lemma_kept_prefix(configs@, i + 1);
                    let a = j;
                    let b = kept(pre).len() as int;
                    assert(kept(configs@)[a] == kept(pre)[j]);
                    assert(kept(configs@)[b] == i);
                    assert(configs@[kept(configs@)[a]].name@ == configs@[kept(configs@)[b]].name@);
                }
                return Err(LLMPoolError::ConfigError("duplicate provider name".to_string()));
            }
            entries.push(PoolEntry {
                name: c.name.clone(),
                weight_milli: c.weight_milli,
                tasks: copy_strings(&c.tasks),
                config_index: i,
            });
            assert forall|a: int, b: int| 0 <= a < b < kept(post).len()
                implies configs@[kept(post)[a]].name@ != configs@[kept(post)[b]].name@ by {
                if b == kept(pre).len() {
                    assert(kept(post)[a] == kept(pre)[a]);
                    assert(entries@[a].name@ != c.name@);
                } else {
                    assert(kept(post)[a] == kept(pre)[a]);
                    assert(kept(post)[b] == kept(pre)[b]);
                }
            }
        } else {
            proof { reveal_strlit("ollama"); }
            assert(kept(post) == kept(pre));
        }
        i = i + 1;
    }
    assert(configs@.subrange(0, i as int) =~= configs@);
    Ok(ProviderPool { entries })
}

proof fn lemma_kept_bounds(cs: Seq<ProviderConfig>)
    ensures
        forall|k: int| 0 <= k < kept(cs).len() ==> 0 <= #[trigger] kept(cs)[k] < cs.len(),
    decreases cs.len(),
{
    if cs.len() > 0 {
        let d = cs.drop_last();
        lemma_kept_bounds(d);
        if cs.last().driver@ == "ollama"@ {
            assert(kept(cs) == kept(d).push(cs.len() - 1));
        } else {
            assert(kept(cs) == kept(d));
        }
    }
}

/// The supported positions among the first `n` are a prefix of those
/// among all.
proof fn lemma_kept_prefix(cs: Seq<ProviderConfig>, n: int)
    requires
        0 <= n <= cs.len(),
    ensures
        kept(cs.subrange(0, n)).len() <= kept(cs).len(),
        forall|k: int| 0 <= k < kept(cs.subrange(0, n)).len() ==> #[trigger] kept(cs)[k] == kept(cs.subrange(0, n))[k],
    decreases cs.len() - n,
{
    if n < cs.len() {
        lemma_kept_prefix(cs, n + 1);
        assert(cs.subrange(0, n + 1).drop_last() =~= cs.subrange(0, n));
    } else {
        assert(cs.subrange(0, n) =~= cs);
    }
}

impl ProviderPool {
    pub closed spec fn spec_entries(&self) -> Seq<PoolEntry> {
        self.entries@
    }

    /// The names of all backends, in configuration order.
    pub fn names(&self) -> (r: Vec<String>)
        ensures
            r@.len() == self.spec_entries().len(),
            forall|i: int| 0 <= i < r@.len() ==> #[trigger] r@[i]@ == self.spec_entries()[i].name@,
    {
        let mut r: Vec<String> = Vec::new();
        let mut i: usize = 0;
        while i < self.entries.len()
            invariant
                i <= self.entries@.len(),
                r@.len() == i,
                forall|j: int| 0 <= j < i ==> #[trigger] r@[j]@ == self.entries@[j].name@,
            decreases self.entries@.len() - i,
        {
            r.push(self.entries[i].name.clone());
            i = i + 1;
        }
        r
    }

    /// The position of the backend called `name`.
    pub fn get(&self, name: &str) -> (r: Option<usize>)
        ensures
            r matches Some(i) ==> i < self.spec_entries().len() && self.spec_entries()[i as int].name@ == name@,
            r is None ==> forall|i: int| 0 <= i < self.spec_entries().len() ==> #[trigger] self.spec_entries()[i].name@ != name@,
    {
        let mut i: usize = 0;
        while i < self.entries.len()
            invariant
                i <= self.entries@.len(),
                forall|j: int| 0 <= j < i ==> #[trigger] self.entries@[j].name@ != name@,
            decreases self.entries@.len() - i,
        {
            if str_is(self.entries[i].name.as_str(), name) {
                return Some(i);
            }
            i = i + 1;
        }
        None
    }

    /// The backend at position `i`.
    pub fn entry(&self, i: usize) -> (r: &PoolEntry)
        requires
            i < self.spec_entries().len(),
        ensures
            *r == self.spec_entries()[i as int],
    {
        &self.entries[i]
    }

    pub fn len(&self) -> (r: usize)
        ensures
            r == self.spec_entries().len(),
    {
        self.entries.len()
    }

    /// The positions of the backends that declare `task`, in configuration
    /// order; empty for an unknown task.
    pub fn providers_for_task(&self, task: &str) -> (r: Vec<usize>)
        ensures
            r@ == supporting(self.spec_entries(), task@),
            forall|k: int| 0 <= k < r@.len() ==> #[trigger] r@[k] < self.spec_entries().len()
                && supports(self.spec_entries()[r@[k] as int], task@),
            forall|a: int, b: int| 0 <= a < b < r@.len() ==> r@[a] < r@[b],
    {
        let mut r: Vec<usize> = Vec::new();
        let mut i: usize = 0;
        while i < self.entries.len()
            invariant
                i <= self.entries@.len(),
                r@ == supporting_upto(self.entries@, task@, i as int),
            decreases self.entries@.len() - i,
        {
            let e = &self.entries[i];
            let mut t: usize = 0;
            let mut found = false;
            while t < e.tasks.len()
                invariant
                    t <= e.tasks@.len(),
                    found ==> supports(*e, task@),
                    !found ==> forall|m: int| 0 <= m < t ==> #[trigger] e.tasks@[m]@ != task@,
                decreases e.tasks@.len() - t,
            {
                if !found && str_is(e.tasks[t].as_str(), task) {
                    found = true;
                }
                t = t + 1;
            }
            if found {
                r.push(i);
            }
            i = i + 1;
        }
        proof {
            assert(self.entries@.len() <= usize::MAX);
            lemma_supporting(self.entries@, task@, self.entries@.len() as int);
        }
        r
    }
}

/// The positions among the first `n` entries whose backend declares `task`,
/// in order.
pub open spec fn supporting_upto(es: Seq<PoolEntry>, task: Seq<char>, n: int) -> Seq<usize>
    decreases n,
{
    if n <= 0 {
        Seq::empty()
    } else {
        let r = supporting_upto(es, task, n - 1);
        if supports(es[n - 1], task) { r.push((n - 1) as usize) } else { r }
    }
}

/// The positions of the backends that declare `task`, in configuration order.
pub open spec fn supporting(es: Seq<PoolEntry>, task: Seq<char>) -> Seq<usize> {
    supporting_upto(es, task, es.len() as int)
}

/// The supporting positions are in range, support the task, and increase.
pub proof fn lemma_supporting(es: Seq<PoolEntry>, task: Seq<char>, n: int)
    requires
        0 <= n <= es.len(),
        n <= usize::MAX,
    ensures
        forall|k: int| 0 <= k < supporting_upto(es, task, n).len()
            ==> #[trigger] supporting_upto(es, task, n)[k] < n
            && supports(es[supporting_upto(es, task, n)[k] as int], task),
        forall|a: int, b: int| 0 <= a < b < supporting_upto(es, task, n).len()
            ==> supporting_upto(es, task, n)[a] < supporting_upto(es, task, n)[b],
    decreases n,
{
    if n > 0 {
        lemma_supporting(es, task, n - 1);
        let prev = supporting_upto(es, task, n - 1);
        let cur = supporting_upto(es, task, n);
        if supports(es[n - 1], task) {
            assert(cur == prev.push((n - 1) as usize));
            assert forall|k: int| 0 <= k < cur.len() implies #[trigger] cur[k] < n
                && supports(es[cur[k] as int], task) by {
                if k < prev.len() {
                    assert(cur[k] == prev[k]);
                }
            }
            assert forall|a: int, b: int| 0 <= a < b < cur.len() implies cur[a] < cur[b] by {
                assert(cur[a] == prev[a]);
                if b < prev.len() {
                    assert(cur[b] == prev[b]);
                }
            }
        } else {
            assert(cur == prev);
        }
    }
}

} // verus!
