//! Custom key/value properties attached to products, requirements, test runs and reviews.
use vstd::prelude::*;

verus! {

/// JSON values are carried through the library unchanged.
#[verifier::external_type_specification]
#[verifier::external_body]
pub struct ExJsonValue(serde_json::Value);

/// Duplicates a JSON value (`serde_json::Value::clone`).
///
/// Trusted: a clone of a JSON value is the same JSON value.
#[verifier::external_body]
pub(crate) fn clone_json(value: &serde_json::Value) -> (res: serde_json::Value)
    ensures
        res == *value,
{
    value.clone()
}

/// One named property.
pub struct Property {
    pub key: String,
    pub value: serde_json::Value,
}

/// A set of properties, keyed by their names.
///
/// Each key occurs at most once; see [`Properties::wf`].
pub struct Properties {
    pub entries: Vec<Property>,
}

/// The map formed by the entries, later entries taking precedence.
pub open spec fn entries_map(s: Seq<Property>) -> Map<Seq<char>, serde_json::Value>
    decreases s.len(),
{
    if s.len() == 0 {
        Map::empty()
    } else {
        entries_map(s.drop_last()).insert(s.last().key@, s.last().value)
    }
}

/// No key occurs twice.
pub open spec fn keys_unique(s: Seq<Property>) -> bool {
    forall|i: int, j: int| 0 <= i < j < s.len() ==> s[i].key@ != s[j].key@
}

/// The keys occurring in the entries.
pub proof fn lemma_entries_map_dom(s: Seq<Property>, k: Seq<char>)
    ensures
        entries_map(s).dom().contains(k) <==> exists|i: int| 0 <= i < s.len() && s[i].key@ == k,
    decreases s.len(),
{
    if s.len() > 0 {
        lemma_entries_map_dom(s.drop_last(), k);
        if entries_map(s).dom().contains(k) && s.last().key@ != k {
            let i = choose|i: int| 0 <= i < s.len() - 1 && s.drop_last()[i].key@ == k;
            assert(s[i].key@ == k);
        }
        if exists|i: int| 0 <= i < s.len() && s[i].key@ == k {
            let i = choose|i: int| 0 <= i < s.len() && s[i].key@ == k;
            if i < s.len() - 1 {
                assert(s.drop_last()[i].key@ == k);
            }
        }
    }
}

/// With unique keys, the value of a key is the value of the entry holding it.
pub proof fn lemma_entries_map_value(s: Seq<Property>, i: int)
    requires
        keys_unique(s),
        0 <= i < s.len(),
    ensures
        entries_map(s).dom().contains(s[i].key@),
        entries_map(s)[s[i].key@] == s[i].value,
    decreases s.len(),
{
    if i < s.len() - 1 {
        lemma_entries_map_value(s.drop_last(), i);
        assert(s.drop_last()[i] == s[i]);
    }
}

impl View for Properties {
    type V = Map<Seq<char>, serde_json::Value>;

    open spec fn view(&self) -> Map<Seq<char>, serde_json::Value> {
        entries_map(self.entries@)
    }
}

impl Properties {
    /// Well-formedness: each key occurs once.
    pub open spec fn wf(&self) -> bool {
        keys_unique(self.entries@)
    }

    /// No properties.
    pub fn new() -> (res: Self)
        ensures
            res.wf(),
            res@ == Map::<Seq<char>, serde_json::Value>::empty(),
    {
        Properties { entries: Vec::new() }
    }

    /// The position of the entry holding `key`.
    fn position(&self, key: &String) -> (res: Option<usize>)
        ensures
            match res {
                Some(i) => i < self.entries@.len() && self.entries@[i as int].key@ == key@,
                None => forall|i: int| 0 <= i < self.entries@.len() ==> self.entries@[i].key@ != key@,
            },
    {
        let mut i: usize = 0;
        while i < self.entries.len()
            invariant
                i <= self.entries@.len(),
                forall|j: int| 0 <= j < i ==> self.entries@[j].key@ != key@,
            decreases self.entries@.len() - i,
        {
            if self.entries[i].key == *key {
                return Some(i);
            }
            i = i + 1;
        }
        None
    }

    /// Whether a property with this key exists.
    pub fn contains_key(&self, key: &String) -> (res: bool)
        ensures
            res == self@.dom().contains(key@),
    {
        proof {
            lemma_entries_map_dom(self.entries@, key@);
        }
        self.position(key).is_some()
    }

    /// The value of the property with this key.
    pub fn get(&self, key: &String) -> (res: Option<&serde_json::Value>)
        requires
            self.wf(),
        ensures
            match res {
                Some(v) => self@.dom().contains(key@) && self@[key@] == *v,
                None => !self@.dom().contains(key@),
            },
    {
        proof {
            lemma_entries_map_dom(self.entries@, key@);
        }
        match self.position(key) {
            Some(i) => {
                proof {
                    lemma_entries_map_value(self.entries@, i as int);
                }
                Some(&self.entries[i].value)
            },
            None => None,
        }
    }

    /// Sets the property `key` to `value`, replacing an earlier value of that key.
    pub fn insert(&mut self, key: String, value: serde_json::Value)
        requires
            old(self).wf(),
        ensures
            final(self).wf(),
            final(self)@ == old(self)@.insert(key@, value),
    {
        proof {
            lemma_entries_map_dom(self.entries@, key@);
        }
        match self.position(&key) {
            Some(i) => {
                let ghost old_entries = self.entries@;
                self.entries.set(i, Property { key, value });
                proof {
                    let s = self.entries@;
                    assert(keys_unique(s));
                    assert forall|k: Seq<char>| #[trigger] entries_map(s).dom().contains(k)
                        == old(self)@.insert(key@, value).dom().contains(k) by {
                        lemma_entries_map_dom(s, k);
                        lemma_entries_map_dom(old_entries, k);
                        if k == key@ {
                            assert(s[i as int].key@ == k);
                        } else {
                            if old(self)@.dom().contains(k) {
                                let j = choose|j: int| 0 <= j < old_entries.len() && old_entries[j].key@ == k;
                                assert(s[j].key@ == k);
                            }
                            if entries_map(s).dom().contains(k) {
                                let j = choose|j: int| 0 <= j < s.len() && s[j].key@ == k;
                                assert(old_entries[j].key@ == k);
                            }
                        }
                    }
                    assert forall|k: Seq<char>| #[trigger] entries_map(s).dom().contains(k)
                        implies entries_map(s)[k] == old(self)@.insert(key@, value)[k] by {
                        lemma_entries_map_dom(s, k);
                        let j = choose|j: int| 0 <= j < s.len() && s[j].key@ == k;
                        lemma_entries_map_value(s, j);
                        if k != key@ {
                            lemma_entries_map_value(old_entries, j);
                        }
                    }
                    assert(entries_map(s) =~= old(self)@.insert(key@, value));
                }
            },
            None => {
                self.entries.push(Property { key, value });
                proof {
                    let s = self.entries@;
                    assert(s.drop_last() == old(self).entries@);
                }
            },
        }
    }

    /// Number of properties.
    pub fn len(&self) -> (res: usize)
        requires
            self.wf(),
        ensures
            res as nat == self@.dom().len(),
    {
        proof {
            lemma_unique_entries_len(self.entries@);
        }
        self.entries.len()
    }
}

/// With unique keys, the map has as many keys as there are entries.
pub proof fn lemma_unique_entries_len(s: Seq<Property>)
    requires
        keys_unique(s),
    ensures
        entries_map(s).dom().finite(),
        entries_map(s).dom().len() == s.len(),
    decreases s.len(),
{
    if s.len() > 0 {
        lemma_unique_entries_len(s.drop_last());
        lemma_entries_map_dom(s.drop_last(), s.last().key@);
        if entries_map(s.drop_last()).dom().contains(s.last().key@) {
            let i = choose|i: int| 0 <= i < s.len() - 1 && s.drop_last()[i].key@ == s.last().key@;
            assert(s[i].key@ == s[s.len() - 1].key@);
        }
    }
}

impl Clone for Properties {
    fn clone(&self) -> (res: Self)
        ensures
            res.entries@.len() == self.entries@.len(),
            forall|i: int| 0 <= i < self.entries@.len() ==> res.entries@[i].key@ == self.entries@[i].key@
                && res.entries@[i].value == self.entries@[i].value,
            res@ == self@,
            res.wf() == self.wf(),
    {
        let mut entries: Vec<Property> = Vec::new();
        for i in 0..self.entries.len()
            invariant
                entries@.len() == i,
                forall|j: int| 0 <= j < i ==> entries@[j].key@ == self.entries@[j].key@
                    && entries@[j].value == self.entries@[j].value,
        {
            let e = &self.entries[i];
            entries.push(Property { key: e.key.clone(), value: clone_json(&e.value) });
        }
        let res = Properties { entries };
        proof {
            lemma_same_keys_same_map(res.entries@, self.entries@);
            assert(keys_unique(res.entries@) == keys_unique(self.entries@)) by {
                if keys_unique(self.entries@) {
                    assert forall|i: int, j: int| 0 <= i < j < res.entries@.len()
                        implies res.entries@[i].key@ != res.entries@[j].key@ by {
                        assert(self.entries@[i].key@ != self.entries@[j].key@);
                    }
                }
                if keys_unique(res.entries@) {
                    assert forall|i: int, j: int| 0 <= i < j < self.entries@.len()
                        implies self.entries@[i].key@ != self.entries@[j].key@ by {
                        assert(res.entries@[i].key@ != res.entries@[j].key@);
                    }
                }
            }
        }
        res
    }
}

/// Entries with equal keys and values form the same map.
pub proof fn lemma_same_keys_same_map(a: Seq<Property>, b: Seq<Property>)
    requires
        a.len() == b.len(),
        forall|i: int| 0 <= i < a.len() ==> a[i].key@ == b[i].key@ && a[i].value == b[i].value,
    ensures
        entries_map(a) == entries_map(b),
    decreases a.len(),
{
    if a.len() > 0 {
        lemma_same_keys_same_map(a.drop_last(), b.drop_last());
    }
}

/// The view of an optional property set; absent properties are the empty map.
pub open spec fn opt_view(p: Option<Properties>) -> Map<Seq<char>, serde_json::Value> {
    match p {
        Some(p) => p@,
        None => Map::empty(),
    }
}

/// The well-formedness of an optional property set.
pub open spec fn opt_wf(p: Option<Properties>) -> bool {
    match p {
        Some(p) => p.wf(),
        None => true,
    }
}

/// Merges local properties with the base properties of their enclosing schema.
///
/// Local properties take precedence; base properties fill in keys the local ones lack.
/// The result is `None` only if both are absent.
pub fn merge_local_and_base_properties(
    local_props: Option<Properties>,
    base_props: &Option<Properties>,
) -> (res: Option<Properties>)
    requires
        opt_wf(local_props),
        opt_wf(*base_props),
    ensures
        res is None <==> (local_props is None && base_props is None),
        res matches Some(p) ==> p.wf() && p@ == opt_view(*base_props).union_prefer_right(
            opt_view(local_props),
        ),
{
    if local_props.is_none() && base_props.is_none() {
        return None;
    }
    let ghost local_view = opt_view(local_props);
    let mut props = match local_props {
        Some(p) => p,
        None => Properties::new(),
    };
    assert(props@ == local_view);
    if let Some(base) = base_props {
        let n = base.entries.len();
        assert(entries_map(base.entries@.take(0)) == Map::<Seq<char>, serde_json::Value>::empty());
        assert(props@ =~= entries_map(base.entries@.take(0)).union_prefer_right(local_view));
        for i in 0..n
            invariant
                n == base.entries@.len(),
                base.wf(),
                props.wf(),
                props@ == entries_map(base.entries@.take(i as int)).union_prefer_right(local_view),
        {
            let entry = &base.entries[i];
            let ghost prefix = base.entries@.take(i as int);
            assert(base.entries@.take(i + 1).drop_last() == prefix);
            assert(base.entries@.take(i + 1).last() == base.entries@[i as int]);
            if !props.contains_key(&entry.key) {
                props.insert(entry.key.clone(), clone_json(&entry.value));
                assert(props@ =~= entries_map(base.entries@.take(i + 1)).union_prefer_right(
                    local_view,
                ));
            } else {
                proof {
                    lemma_entries_map_dom(prefix, entry.key@);
                    if entries_map(prefix).dom().contains(entry.key@) {
                        let j = choose|j: int| 0 <= j < prefix.len() && prefix[j].key@ == entry.key@;
                        assert(base.entries@[j].key@ == base.entries@[i as int].key@);
                    }
                    assert(local_view.dom().contains(entry.key@));
                }
                assert(props@ =~= entries_map(base.entries@.take(i + 1)).union_prefer_right(
                    local_view,
                ));
            }
        }
        assert(base.entries@.take(n as int) == base.entries@);
    } else {
        assert(props@ =~= Map::<Seq<char>, serde_json::Value>::empty().union_prefer_right(local_view));
    }
    Some(props)
}

} // verus!
