//! The collection configuration: which upstream paths to query, and with
//! which filters.
use vstd::prelude::*;
use vstd::string::StringExecFns;
use crate::text::{comma_joined, texts, join_commas, same_text};

verus! {

/// One upstream query: each non-empty list, and a set flag, becomes a filter.
#[derive(Debug)]
pub struct ConfigEntry {
    pub entity_name: Vec<String>,
    pub tenant: Vec<String>,
    pub metric_id: Vec<String>,
    pub description: bool,
}

/// What a `ConfigEntry` holds, as text values.
pub struct EntryView {
    pub entity_name: Seq<Seq<char>>,
    pub tenant: Seq<Seq<char>>,
    pub metric_id: Seq<Seq<char>>,
    pub description: bool,
}

impl View for ConfigEntry {
    type V = EntryView;

    open spec fn view(&self) -> EntryView {
        EntryView {
            entity_name: texts(self.entity_name@),
            tenant: texts(self.tenant@),
            metric_id: texts(self.metric_id@),
            description: self.description,
        }
    }
}

/// Query parameters as (key, value) texts.
pub open spec fn param_texts(v: Seq<(String, String)>) -> Seq<(Seq<char>, Seq<char>)> {
    v.map_values(|p: (String, String)| (p.0@, p.1@))
}

/// One parameter whose value is the comma-joined list, or none for an empty list.
pub open spec fn list_param(key: Seq<char>, values: Seq<Seq<char>>) -> Seq<(Seq<char>, Seq<char>)> {
    if values.len() == 0 {
        Seq::empty()
    } else {
        seq![(key, comma_joined(values))]
    }
}

/// The query parameters of an entry: `tenant`, `entity_name` and `metric_id`
/// each present iff its list is non-empty, then `description=true` iff the
/// flag is set.
pub open spec fn query_of(e: EntryView) -> Seq<(Seq<char>, Seq<char>)> {
    list_param("tenant"@, e.tenant) + list_param("entity_name"@, e.entity_name) + list_param(
        "metric_id"@,
        e.metric_id,
    ) + if e.description {
        seq![("description"@, "true"@)]
    } else {
        Seq::empty()
    }
}

/// The tenants that an entry is queried under: its own, or one placeholder
/// when it declares none.
pub open spec fn tenants_of(e: EntryView) -> Seq<Seq<char>> {
    if e.tenant.len() == 0 {
        seq!["empty"@]
    } else {
        e.tenant
    }
}

/// A copy of a list of strings.
pub fn copy_texts(v: &Vec<String>) -> (r: Vec<String>)
    ensures
        texts(r@) == texts(v@),
{
    let mut out: Vec<String> = Vec::new();
    let mut i: usize = 0;
    while i < v.len()
        invariant
            i <= v.len(),
            out@.len() == i,
            forall|j: int| 0 <= j < i ==> #[trigger] out@[j]@ == v@[j]@,
        decreases v.len() - i,
    {
        out.push(String::from_str(v[i].as_str()));
        i = i + 1;
    }
    assert(texts(out@) =~= texts(v@));
    out
}

fn push_list_param(params: &mut Vec<(String, String)>, key: &str, values: &Vec<String>)
    ensures
        param_texts(final(params)@) == param_texts(old(params)@) + list_param(key@, texts(values@)),
{
    let ghost before = param_texts(params@);
    if values.len() > 0 {
        params.push((String::from_str(key), join_commas(values)));
        assert(param_texts(params@) =~= before + list_param(key@, texts(values@)));
    } else {
        assert(param_texts(params@) =~= before + list_param(key@, texts(values@)));
    }
}

impl ConfigEntry {
    /// An entry with no filters.
    pub fn empty() -> (r: ConfigEntry)
        ensures
            r@.entity_name.len() == 0,
            r@.tenant.len() == 0,
            r@.metric_id.len() == 0,
            !r@.description,
    {
        ConfigEntry {
            entity_name: Vec::new(),
            tenant: Vec::new(),
            metric_id: Vec::new(),
            description: false,
        }
    }

    /// A copy of this entry.
    pub fn duplicate(&self) -> (r: ConfigEntry)
        ensures
            r@ == self@,
    {
        ConfigEntry {
            entity_name: copy_texts(&self.entity_name),
            tenant: copy_texts(&self.tenant),
            metric_id: copy_texts(&self.metric_id),
            description: self.description,
        }
    }

    /// The query parameters sent upstream for this entry, in order.
    pub fn query_params(&self) -> (r: Vec<(String, String)>)
        ensures
            param_texts(r@) == query_of(self@),
    {
        let mut params: Vec<(String, String)> = Vec::new();
        assert(param_texts(params@) =~= Seq::empty());
        push_list_param(&mut params, "tenant", &self.tenant);
        push_list_param(&mut params, "entity_name", &self.entity_name);
        push_list_param(&mut params, "metric_id", &self.metric_id);
        let ghost before = param_texts(params@);
        if self.description {
            params.push((String::from_str("description"), String::from_str("true")));
        }
        assert(param_texts(params@) =~= query_of(self@));
        params
    }

    /// The tenants this entry is queried under.
    pub fn tenants(&self) -> (r: Vec<String>)
        ensures
            texts(r@) == tenants_of(self@),
    {
        if self.tenant.len() == 0 {
            let mut v: Vec<String> = Vec::new();
            v.push(String::from_str("empty"));
            assert(texts(v@) =~= tenants_of(self@));
            v
        } else {
            copy_texts(&self.tenant)
        }
    }
}

/// An entry with no tenants, entity names or metric ids and without the
/// description flag sends no query parameter at all.
pub proof fn lemma_no_filters_no_params(e: EntryView)
    requires
        e.tenant.len() == 0,
        e.entity_name.len() == 0,
        e.metric_id.len() == 0,
        !e.description,
    ensures
        query_of(e).len() == 0,
{
}

/// An entry with tenants sends exactly one `tenant` parameter, whose value is
/// the tenants joined by commas in their order.
pub proof fn lemma_single_tenant_param(e: EntryView)
    requires
        e.tenant.len() > 0,
    ensures
        query_of(e).len() > 0,
        query_of(e)[0] == ("tenant"@, comma_joined(e.tenant)),
        forall|i: int|
            0 < i < query_of(e).len() ==> (#[trigger] query_of(e)[i]).0 != "tenant"@,
{
    reveal_strlit("tenant");
    reveal_strlit("entity_name");
    reveal_strlit("metric_id");
    reveal_strlit("description");
    let q = query_of(e);
    assert forall|i: int| 0 < i < q.len() implies (#[trigger] q[i]).0 != "tenant"@ by {
        assert(q[i].0.len() != 6);
    }
}

/// The configuration: upstream paths, each with its entry, no path twice.
pub struct CollectionConfig {
    entries: Vec<(String, ConfigEntry)>,
}

impl View for CollectionConfig {
    type V = Seq<(Seq<char>, EntryView)>;

    closed spec fn view(&self) -> Seq<(Seq<char>, EntryView)> {
        self.entries@.map_values(|p: (String, ConfigEntry)| (p.0@, p.1@))
    }
}

/// No path stands twice.
pub open spec fn paths_unique(c: Seq<(Seq<char>, EntryView)>) -> bool {
    forall|i: int, j: int| 0 <= i < j < c.len() ==> (#[trigger] c[i]).0 != (#[trigger] c[j]).0
}

/// The index of a path, if it stands in the configuration.
pub open spec fn index_of_path(c: Seq<(Seq<char>, EntryView)>, path: Seq<char>) -> Option<int> {
    if exists|i: int| 0 <= i < c.len() && (#[trigger] c[i]).0 == path {
        Some(choose|i: int| 0 <= i < c.len() && (#[trigger] c[i]).0 == path)
    } else {
        None
    }
}

impl CollectionConfig {
    /// Well-formed: each path at most once.
    pub open spec fn wf(&self) -> bool {
        paths_unique(self@)
    }

    /// A configuration with no paths.
    pub fn new() -> (r: CollectionConfig)
        ensures
            r.wf(),
            r@.len() == 0,
    {
        CollectionConfig { entries: Vec::new() }
    }

    /// The number of paths.
    pub fn len(&self) -> (r: usize)
        ensures
            r == self@.len(),
    {
        self.entries.len()
    }

    /// The path at a position.
    pub fn path_at(&self, i: usize) -> (r: &String)
        requires
            i < self@.len(),
        ensures
            r@ == self@[i as int].0,
    {
        &self.entries[i].0
    }

    /// The entry at a position.
    pub fn entry_at(&self, i: usize) -> (r: &ConfigEntry)
        requires
            i < self@.len(),
        ensures
            r@ == self@[i as int].1,
    {
        &self.entries[i].1
    }

    /// Sets the entry of a path: an existing path keeps its place and gets the
    /// new entry, a new path is added at the end.
    pub fn insert(&mut self, path: String, entry: ConfigEntry)
        requires
            old(self).wf(),
        ensures
            final(self).wf(),
            index_of_path(old(self)@, path@) matches Some(i) ==> final(self)@ == old(self)@.update(
                i,
                (path@, entry@),
            ),
            index_of_path(old(self)@, path@) is None ==> final(self)@ == old(self)@.push(
                (path@, entry@),
            ),
    {
        let ghost before = self@;
        let mut i: usize = 0;
        while i < self.entries.len()
            invariant
                i <= self.entries@.len(),
                self@ == before,
                before == old(self)@,
                paths_unique(before),
                forall|j: int| 0 <= j < i ==> (#[trigger] before[j]).0 != path@,
            decreases self.entries@.len() - i,
        {
            if same_text(self.entries[i].0.as_str(), path.as_str()) {
                proof {
                    assert(before[i as int].0 == path@);
                    assert forall|k: int| 0 <= k < before.len() && (#[trigger] before[k]).0 == path@ implies k == i by {
                        if k < i {
                            assert(before[k].0 != path@);
                        } else if k > i {
                            assert(before[i as int].0 != before[k].0);
                        }
                    }
                    let w = choose|k: int| 0 <= k < before.len() && (#[trigger] before[k]).0 == path@;
                    assert(w == i);
                    assert(index_of_path(before, path@) == Some(i as int));
                }
                self.entries.set(i, (path, entry));
                proof {
                    let after = self@;
                    assert(after =~= before.update(i as int, (path@, entry@)));
                    assert forall|a: int, b: int| 0 <= a < b < after.len() implies (#[trigger] after[a]).0 != (#[trigger] after[b]).0 by {
                        if a != i && b != i {
                            assert(before[a].0 != before[b].0);
                        } else if a == i {
                            assert(before[i as int].0 != before[b].0);
                        } else {
                            assert(before[a].0 != before[i as int].0);
                        }
                    }
                }
                return;
            }
            i = i + 1;
        }
        self.entries.push((path, entry));
        proof {
            assert(index_of_path(before, path@) is None);
            let after = self@;
            assert(after =~= before.push((path@, entry@)));
            assert forall|a: int, b: int| 0 <= a < b < after.len() implies (#[trigger] after[a]).0 != (#[trigger] after[b]).0 by {
                if b < before.len() {
                    assert(before[a].0 != before[b].0);
                } else {
                    assert(before[a].0 != path@);
                }
            }
        }
    }

    /// A copy of the whole configuration.
    pub fn snapshot(&self) -> (r: CollectionConfig)
        ensures
            r@ == self@,
    {
        let mut out: Vec<(String, ConfigEntry)> = Vec::new();
        let mut i: usize = 0;
        while i < self.entries.len()
            invariant
                i <= self.entries@.len(),
                out@.len() == i,
                forall|j: int| 0 <= j < i ==> (#[trigger] out@[j]).0@ == self.entries@[j].0@ && out@[j].1@ == self.entries@[j].1@,
            decreases self.entries@.len() - i,
        {
            let p = String::from_str(self.entries[i].0.as_str());
            let e = self.entries[i].1.duplicate();
            out.push((p, e));
            i = i + 1;
        }
        let r = CollectionConfig { entries: out };
        assert(r@ =~= self@);
        r
    }
}

} // verus!
