use vstd::prelude::*;
use vstd::string::StringExecFns;

verus! {

/// The statically configured template identifiers. Catalog membership
/// never changes at runtime; only cached instances come and go.
pub open spec fn catalog_ids() -> Seq<Seq<char>> {
    seq![
        "accessibility"@,
        "certificate"@,
        "dependency"@,
        "fonts"@,
        "invoice"@,
        "invoice_zugferd"@,
        "minimal"@,
        "table"@,
        "multi_input"@,
    ]
}

/// The packaged-archive version of every catalog entry.
pub open spec fn catalog_version() -> Seq<char> {
    "0.1.0"@
}

/// The configured catalog: each template identifier with the version of
/// its packaged archive. Independent of which identifiers currently
/// have a live instance.
pub fn catalog_entries() -> (r: Vec<(String, String)>)
    ensures
        r@.len() == catalog_ids().len(),
        forall|i: int|
            0 <= i < r@.len() ==> r@[i].0@ == catalog_ids()[i] && r@[i].1@ == catalog_version(),
{
    let mut r: Vec<(String, String)> = Vec::new();
    r.push((String::from_str("accessibility"), String::from_str("0.1.0")));
    r.push((String::from_str("certificate"), String::from_str("0.1.0")));
    r.push((String::from_str("dependency"), String::from_str("0.1.0")));
    r.push((String::from_str("fonts"), String::from_str("0.1.0")));
    r.push((String::from_str("invoice"), String::from_str("0.1.0")));
    r.push((String::from_str("invoice_zugferd"), String::from_str("0.1.0")));
    r.push((String::from_str("minimal"), String::from_str("0.1.0")));
    r.push((String::from_str("table"), String::from_str("0.1.0")));
    r.push((String::from_str("multi_input"), String::from_str("0.1.0")));
    r
}

/// The catalog listing that the service reports: the static identifiers
/// in configuration order, whatever instances are currently live. A
/// listed identifier may therefore still fail to compile.
pub fn list_catalog() -> (r: Vec<String>)
    ensures
        r@.len() == catalog_ids().len(),
        forall|i: int| 0 <= i < r@.len() ==> r@[i]@ == catalog_ids()[i],
{
    let mut r: Vec<String> = Vec::new();
    r.push(String::from_str("accessibility"));
    r.push(String::from_str("certificate"));
    r.push(String::from_str("dependency"));
    r.push(String::from_str("fonts"));
    r.push(String::from_str("invoice"));
    r.push(String::from_str("invoice_zugferd"));
    r.push(String::from_str("minimal"));
    r.push(String::from_str("table"));
    r.push(String::from_str("multi_input"));
    r
}

/// Where a catalog entry's packaged archive lives: a fixed namespace,
/// addressed by identifier and version.
pub fn archive_file_name(template_id: &String, version: &String) -> (r: String)
    ensures
        r@ == "templates/"@ + template_id@ + "-"@ + version@ + ".zip"@,
{
    let mut r = String::from_str("templates/");
    r.append(template_id.as_str());
    r.append("-");
    r.append(version.as_str());
    r.append(".zip");
    r
}

/// The binding that a sequence of registry entries denotes: each
/// identifier with its instance; a later entry for the same identifier
/// would override an earlier one, though a well-formed registry never
/// holds two.
spec fn entries_map<T>(s: Seq<(String, T)>) -> Map<Seq<char>, T>
    decreases s.len(),
{
    if s.len() == 0 {
        Map::<Seq<char>, T>::empty()
    } else {
        entries_map(s.drop_last()).insert(s.last().0@, s.last().1)
    }
}

proof fn lemma_entries_map_mem<T>(s: Seq<(String, T)>, key: Seq<char>)
    ensures
        entries_map(s).dom().contains(key) <==> exists|j: int| 0 <= j < s.len() && s[j].0@ == key,
    decreases s.len(),
{
    if s.len() > 0 {
        lemma_entries_map_mem(s.drop_last(), key);
        if entries_map(s).dom().contains(key) {
            if s.last().0@ == key {
                assert(s[s.len() - 1].0@ == key);
            } else {
                let j = choose|j: int| 0 <= j < s.len() - 1 && s.drop_last()[j].0@ == key;
                assert(s[j].0@ == key);
            }
        }
        if exists|j: int| 0 <= j < s.len() && s[j].0@ == key {
            let j = choose|j: int| 0 <= j < s.len() && s[j].0@ == key;
            if j < s.len() - 1 {
                assert(s.drop_last()[j].0@ == key);
            }
        }
    }
}

proof fn lemma_entries_map_at<T>(s: Seq<(String, T)>, i: int)
    requires
        0 <= i < s.len(),
        forall|j: int| i < j < s.len() ==> s[j].0@ != s[i].0@,
    ensures
        entries_map(s).dom().contains(s[i].0@),
        entries_map(s)[s[i].0@] == s[i].1,
    decreases s.len(),
{
    if i + 1 < s.len() {
        lemma_entries_map_at(s.drop_last(), i);
    }
}

proof fn lemma_wf_distinct<T>(r: TemplateRegistry<T>, a: int, b: int)
    requires
        r.wf(),
        0 <= a < b < r.entries@.len(),
    ensures
        r.entries@[a].0@ != r.entries@[b].0@,
{
}

/// Registry of live template instances: a mapping from template
/// identifier to the one mutable instance for it. Taking an instance
/// out grants exclusive access; while it is out, the identifier is not
/// live, so no second holder can exist.
pub struct TemplateRegistry<T> {
    entries: Vec<(String, T)>,
}

impl<T> TemplateRegistry<T> {
    /// The live instances: each identifier with the one instance bound
    /// to it.
    pub closed spec fn instances(self) -> Map<Seq<char>, T> {
        entries_map(self.entries@)
    }

    /// The identifiers that currently have a live instance.
    pub open spec fn live(self) -> Set<Seq<char>> {
        self.instances().dom()
    }

    /// At most one instance per identifier.
    pub closed spec fn wf(self) -> bool {
        forall|i: int, j: int|
            #![trigger self.entries@[i], self.entries@[j]]
            0 <= i < j < self.entries@.len() ==> self.entries@[i].0@ != self.entries@[j].0@
    }

    /// A registry with no live instances.
    pub fn new() -> (r: TemplateRegistry<T>)
        ensures
            r.wf(),
            r.instances() == Map::<Seq<char>, T>::empty(),
            r.live() == Set::<Seq<char>>::empty(),
    {
        let r = TemplateRegistry { entries: Vec::new() };
        proof {
            assert(r.live() =~= Set::<Seq<char>>::empty());
        }
        r
    }

    /// Whether the identifier has a live instance.
    pub fn contains(&self, id: &String) -> (r: bool)
        ensures
            r == self.live().contains(id@),
    {
        let mut i: usize = 0;
        while i < self.entries.len()
            invariant
                i <= self.entries@.len(),
                forall|j: int| 0 <= j < i ==> self.entries@[j].0@ != id@,
            decreases self.entries@.len() - i,
        {
            if self.entries[i].0 == *id {
                proof {
                    lemma_entries_map_mem(self.entries@, id@);
                }
                return true;
            }
            i += 1;
        }
        proof {
            lemma_entries_map_mem(self.entries@, id@);
        }
        false
    }

    /// Give the identifier a live instance. The caller must not be
    /// shadowing an existing one; a held (taken) instance has already
    /// left the live set, so handing it back satisfies this.
    pub fn insert_instance(&mut self, id: String, instance: T)
        requires
            old(self).wf(),
            !old(self).live().contains(id@),
        ensures
            final(self).wf(),
            final(self).instances() == old(self).instances().insert(id@, instance),
            final(self).live() == old(self).live().insert(id@),
    {
        proof {
            lemma_entries_map_mem(self.entries@, id@);
        }
        self.entries.push((id, instance));
        proof {
            assert(self.entries@.drop_last() =~= old(self).entries@);
            assert(self.live() =~= old(self).live().insert(self.entries@.last().0@));
            assert forall|i: int, j: int| 0 <= i < j < self.entries@.len() implies self
                .entries@[i].0@ != self.entries@[j].0@ by {
                if j == self.entries@.len() - 1 {
                    assert(0 <= i < old(self).entries@.len());
                    assert(old(self).entries@[i].0@ == self.entries@[i].0@);
                }
            }
        }
    }

    /// Take the instance for the identifier out of the registry,
    /// acquiring exclusive access to it: until it is handed back with
    /// `insert_instance`, the identifier is no longer live.
    pub fn take(&mut self, id: &String) -> (r: Option<T>)
        requires
            old(self).wf(),
        ensures
            final(self).wf(),
            match r {
                Some(instance) => old(self).live().contains(id@) && instance == old(
                    self,
                ).instances()[id@] && final(self).instances() == old(self).instances().remove(id@),
                None => !old(self).live().contains(id@) && final(self).instances() == old(
                    self,
                ).instances(),
            },
    {
        let mut i: usize = 0;
        let n: usize = self.entries.len();
        while i < n
            invariant
                old(self).wf(),
                *self == *old(self),
                i <= self.entries@.len(),
                n == self.entries@.len(),
                forall|j: int| 0 <= j < i ==> self.entries@[j].0@ != id@,
            decreases self.entries@.len() - i,
        {
            if self.entries[i].0 == *id {
                let (_, instance) = self.entries.swap_remove(i);
                proof {
                    let pre = old(self).entries@;
                    let post = self.entries@;
                    assert(post.len() == pre.len() - 1);
                    assert(forall|x: int| 0 <= x < post.len() && x != i ==> post[x] == pre[x]);
                    assert(i < post.len() ==> post[i as int] == pre[pre.len() - 1]);
                    assert forall|j: int| i < j < pre.len() implies pre[j].0@ != pre[
                        i as int
                    ].0@ by {
                        lemma_wf_distinct(*old(self), i as int, j);
                    }
                    lemma_entries_map_at(pre, i as int);
                    assert(instance == old(self).instances()[id@]);
                    assert forall|a: int, b: int| 0 <= a < b < post.len() implies post[a].0@
                        != post[b].0@ by {
                        if a == i {
                            assert(post[a] == pre[pre.len() - 1]);
                            assert(post[b] == pre[b]);
                            lemma_wf_distinct(*old(self), b, pre.len() - 1);
                        } else if b == i {
                            assert(post[b] == pre[pre.len() - 1]);
                            assert(post[a] == pre[a]);
                            lemma_wf_distinct(*old(self), a, pre.len() - 1);
                        } else {
                            assert(post[a] == pre[a]);
                            assert(post[b] == pre[b]);
                            lemma_wf_distinct(*old(self), a, b);
                        }
                    }
                    assert forall|k: Seq<char>| #[trigger] entries_map(post).dom().contains(
                        k,
                    ) implies entries_map(pre).remove(id@).dom().contains(k) && entries_map(
                        post,
                    )[k] == entries_map(pre).remove(id@)[k] by {
                        lemma_entries_map_mem(post, k);
                        let j = choose|j: int| 0 <= j < post.len() && post[j].0@ == k;
                        assert forall|l: int| j < l < post.len() implies post[l].0@ != post[
                            j
                        ].0@ by {}
                        lemma_entries_map_at(post, j);
                        if j == i {
                            assert(post[j] == pre[pre.len() - 1]);
                            lemma_entries_map_at(pre, pre.len() - 1);
                            lemma_wf_distinct(*old(self), i as int, pre.len() - 1);
                            assert(k != id@);
                            assert(entries_map(post)[k] == entries_map(pre)[k]);
                        } else {
                            assert(post[j] == pre[j]);
                            assert forall|l: int| j < l < pre.len() implies pre[l].0@ != pre[
                                j
                            ].0@ by {
                                lemma_wf_distinct(*old(self), j, l);
                            }
                            lemma_entries_map_at(pre, j);
                            if j < i {
                                lemma_wf_distinct(*old(self), j, i as int);
                            } else {
                                lemma_wf_distinct(*old(self), i as int, j);
                            }
                            assert(k != id@);
                            assert(entries_map(post)[k] == entries_map(pre)[k]);
                        }
                    }
                    assert forall|k: Seq<char>| entries_map(pre).remove(id@).dom().contains(
                        k,
                    ) implies entries_map(post).dom().contains(k) by {
                        lemma_entries_map_mem(pre, k);
                        let j = choose|j: int| 0 <= j < pre.len() && pre[j].0@ == k;
                        lemma_entries_map_mem(post, k);
                        if j < post.len() && j != i {
                            assert(post[j].0@ == k);
                        } else if j == pre.len() - 1 && i < post.len() {
                            assert(post[i as int].0@ == k);
                        }
                    }
                    assert(entries_map(post) =~= entries_map(pre).remove(id@));
                }
                return Some(instance);
            }
            i += 1;
        }
        proof {
            lemma_entries_map_mem(self.entries@, id@);
        }
        None
    }

    /// Evict the live instance if there is one; idempotent, and without
    /// effect on the catalog listing.
    pub fn remove(&mut self, id: &String) -> (r: bool)
        requires
            old(self).wf(),
        ensures
            final(self).wf(),
            r == old(self).live().contains(id@),
            final(self).instances() == old(self).instances().remove(id@),
            final(self).live() == old(self).live().remove(id@),
    {
        match self.take(id) {
            Some(_) => true,
            None => {
                proof {
                    assert(self.instances() =~= self.instances().remove(id@));
                }
                false
            },
        }
    }
}

/// An identifier whose instance was taken or evicted is not live: a
/// second acquisition fails (or blocks) until the instance is handed
/// back, and an evicted identifier stays dead until re-warmed, although
/// the catalog still lists it. Every other identifier is untouched:
/// holding one template's instance never excludes work on another.
pub proof fn lemma_absent_after_remove(live: Set<Seq<char>>, id: Seq<char>)
    ensures
        !live.remove(id).contains(id),
        forall|other: Seq<char>|
            other != id ==> live.remove(id).contains(other) == live.contains(other),
{
}

} // verus!
