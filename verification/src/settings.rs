//! Local settings: a small map from option names to values, with the
//! display name as the one option every installation must have.  The
//! map is an explicit state object; reading and writing files around it
//! is the application layer's business.

use vstd::prelude::*;
use vstd::string::StringExecFns;

verus! {

/// A bound that a setting's value must respect.
#[derive(Clone, Debug)]
pub enum Constraint {
    MaxValue(i32),
    MinValue(i32),
}

/// The value of one setting.
#[derive(Clone, Debug)]
pub enum SettingValue {
    Int(i32),
    Bool(bool),
    String(Option<String>),
}

/// One configurable option: its value and the bounds it must respect.
#[derive(Clone, Debug)]
pub struct Setting {
    pub constraints: Option<Vec<Constraint>>,
    pub value: SettingValue,
}

impl Setting {
    pub fn get_value(&self) -> (r: &SettingValue)
        ensures
            *r == self.value,
    {
        &self.value
    }
}

/// The key of the display-name setting.
pub open spec fn name_key() -> Seq<char> {
    "name"@
}

/// The display-name setting every installation starts from: unset.
pub open spec fn spec_default_name_setting() -> Setting {
    Setting { constraints: None, value: SettingValue::String(None) }
}

/// The first entry with the given key, if any.
spec fn spec_find(entries: Seq<(String, Setting)>, key: Seq<char>) -> Option<Setting>
    decreases entries.len(),
{
    if entries.len() == 0 {
        None
    } else if entries[0].0@ == key {
        Some(entries[0].1)
    } else {
        spec_find(entries.drop_first(), key)
    }
}

/// No two entries share a key.
spec fn unique_keys(entries: Seq<(String, Setting)>) -> bool {
    forall|i: int, j: int|
        0 <= i < j < entries.len() ==> entries[i].0@ != entries[j].0@
}

proof fn lemma_find_step(entries: Seq<(String, Setting)>, key: Seq<char>, i: int)
    requires
        0 <= i < entries.len(),
    ensures
        spec_find(entries.skip(i), key) == (if entries[i].0@ == key {
            Some(entries[i].1)
        } else {
            spec_find(entries.skip(i + 1), key)
        }),
{
    assert(entries.skip(i).drop_first() =~= entries.skip(i + 1));
    assert(entries.skip(i)[0] == entries[i]);
}

proof fn lemma_find_absent(entries: Seq<(String, Setting)>, key: Seq<char>)
    requires
        forall|i: int| 0 <= i < entries.len() ==> entries[i].0@ != key,
    ensures
        spec_find(entries, key) is None,
    decreases entries.len(),
{
    if entries.len() > 0 {
        lemma_find_absent(entries.drop_first(), key);
    }
}

proof fn lemma_find_push(
    entries: Seq<(String, Setting)>,
    entry: (String, Setting),
    key: Seq<char>,
)
    ensures
        spec_find(entries.push(entry), key) == (match spec_find(entries, key) {
            Some(s) => Some(s),
            None => if entry.0@ == key {
                Some(entry.1)
            } else {
                None
            },
        }),
    decreases entries.len(),
{
    let pushed = entries.push(entry);
    assert(spec_find(pushed, key) == (if pushed.len() == 0 {
        None
    } else if pushed[0].0@ == key {
        Some(pushed[0].1)
    } else {
        spec_find(pushed.drop_first(), key)
    }));
    if entries.len() == 0 {
        assert(pushed.len() == 1);
        assert(pushed[0] == entry);
        assert(pushed.drop_first() =~= Seq::<(String, Setting)>::empty());
        assert(spec_find(pushed.drop_first(), key) is None);
    } else {
        assert(pushed[0] == entries[0]);
        assert(pushed.drop_first() =~= entries.drop_first().push(entry));
        lemma_find_push(entries.drop_first(), entry, key);
    }
}

proof fn lemma_find_update(
    entries: Seq<(String, Setting)>,
    i: int,
    entry: (String, Setting),
    key: Seq<char>,
)
    requires
        0 <= i < entries.len(),
        unique_keys(entries),
        entries[i].0@ == entry.0@,
    ensures
        spec_find(entries.update(i, entry), key) == (if entry.0@ == key {
            Some(entry.1)
        } else {
            spec_find(entries, key)
        }),
    decreases i,
{
    let updated = entries.update(i, entry);
    if i == 0 {
        assert(updated.drop_first() =~= entries.drop_first());
    } else {
        assert(updated.drop_first() =~= entries.drop_first().update(i - 1, entry));
        assert(unique_keys(entries.drop_first())) by {
            assert forall|p: int, q: int|
                0 <= p < q < entries.drop_first().len() implies entries.drop_first()[p].0@
                != entries.drop_first()[q].0@ by {
                assert(entries.drop_first()[p] == entries[p + 1]);
                assert(entries.drop_first()[q] == entries[q + 1]);
            }
        }
        assert(entries.drop_first()[i - 1] == entries[i]);
        lemma_find_update(entries.drop_first(), i - 1, entry, key);
        assert(entries[0].0@ != entries[i].0@);
    }
}

/// The local settings map, keyed by option name.  Keys are unique, and
/// only the operations below can touch the entries, so the invariant
/// cannot be broken from outside.
pub struct Settings {
    entries: Vec<(String, Setting)>,
}

impl Settings {
    #[verifier::type_invariant]
    spec fn inv(self) -> bool {
        unique_keys(self.entries@)
    }

    /// What the map associates with a key.
    pub closed spec fn spec_get(self, key: Seq<char>) -> Option<Setting> {
        spec_find(self.entries@, key)
    }

    /// The entries, in storage order.
    pub closed spec fn spec_entries(self) -> Seq<(String, Setting)> {
        self.entries@
    }

    /// How many settings are stored.
    pub fn len(&self) -> (r: usize)
        ensures
            r == self.spec_entries().len(),
    {
        self.entries.len()
    }

    /// The entry at position `i`.
    pub fn entry(&self, i: usize) -> (r: &(String, Setting))
        requires
            i < self.spec_entries().len(),
        ensures
            *r == self.spec_entries()[i as int],
    {
        &self.entries[i]
    }

    /// An empty settings map.
    pub fn new() -> (r: Settings)
        ensures
            forall|k: Seq<char>| r.spec_get(k) is None,
    {
        let r = Settings { entries: Vec::new() };
        proof {
            assert forall|k: Seq<char>| r.spec_get(k) is None by {
                assert(r.entries@.len() == 0);
            }
        }
        r
    }

    /// Looks a setting up by name.
    pub fn get(&self, key: &str) -> (r: Option<&Setting>)
        ensures
            match r {
                Some(s) => self.spec_get(key@) == Some(*s),
                None => self.spec_get(key@) is None,
            },
    {
        proof {
            use_type_invariant(&*self);
            assert(self.entries@.skip(0) =~= self.entries@);
        }
        let n = self.entries.len();
        let mut i: usize = 0;
        while i < n
            invariant
                i <= n,
                n == self.entries@.len(),
                spec_find(self.entries@, key@) == spec_find(
                    self.entries@.skip(i as int),
                    key@,
                ),
            decreases n - i,
        {
            let e = &self.entries[i];
            proof {
                lemma_find_step(self.entries@, key@, i as int);
            }
            if str_eq(e.0.as_str(), key) {
                return Some(&e.1);
            }
            i = i + 1;
        }
        proof {
            assert(self.entries@.skip(n as int) =~= Seq::<(String, Setting)>::empty());
        }
        None
    }

    /// Sets the value of `key`, replacing an existing entry or
    /// appending a new one.  No other key is touched.
    pub fn insert(&mut self, key: String, value: Setting)
        ensures
            final(self).spec_get(key@) == Some(value),
            forall|k: Seq<char>| k != key@ ==> final(self).spec_get(k) == old(self).spec_get(k),
    {
        proof {
            use_type_invariant(&*self);
        }
        let ghost orig = self.entries@;
        let mut entries: Vec<(String, Setting)> = Vec::new();
        std::mem::swap(&mut entries, &mut self.entries);
        let n = entries.len();
        let mut idx: usize = n;
        let mut i: usize = 0;
        while i < n
            invariant
                i <= n,
                idx <= n,
                n == entries@.len(),
                entries@ == orig,
                idx == n ==> forall|j: int| 0 <= j < i ==> entries@[j].0@ != key@,
                idx < n ==> entries@[idx as int].0@ == key@,
            decreases n - i,
        {
            if idx == n && str_eq(entries[i].0.as_str(), key.as_str()) {
                idx = i;
            }
            i = i + 1;
        }
        if idx < n {
            let i = idx;
            entries.remove(i);
            entries.insert(i, (key, value));
            proof {
                assert(entries@ =~= orig.update(i as int, entries@[i as int]));
                lemma_find_update(orig, i as int, entries@[i as int], key@);
                assert forall|k: Seq<char>| k != key@ implies spec_find(entries@, k)
                    == spec_find(orig, k) by {
                    lemma_find_update(orig, i as int, entries@[i as int], k);
                }
                assert(unique_keys(entries@)) by {
                    assert forall|p: int, q: int|
                        0 <= p < q < entries@.len() implies entries@[p].0@
                        != entries@[q].0@ by {
                        assert(orig[p].0@ != orig[q].0@);
                    }
                }
            }
        } else {
            proof {
                lemma_find_absent(orig, key@);
            }
            entries.push((key, value));
            proof {
                assert forall|k: Seq<char>| spec_find(entries@, k) == (if k == key@ {
                    Some(entries@[n as int].1)
                } else {
                    spec_find(orig, k)
                }) by {
                    lemma_find_push(orig, entries@[n as int], k);
                }
                assert(unique_keys(entries@)) by {
                    assert forall|p: int, q: int|
                        0 <= p < q < entries@.len() implies entries@[p].0@
                        != entries@[q].0@ by {
                        if q < n {
                            assert(orig[p].0@ != orig[q].0@);
                        } else {
                            assert(entries@[p].0@ != key@);
                        }
                    }
                }
            }
        }
        self.entries = entries;
    }

    /// Fills in every required setting that the map lacks: the display
    /// name, unset by default.  Present settings are kept as they are.
    pub fn apply_defaults(&mut self)
        ensures
            final(self).spec_get(name_key()) == (match old(self).spec_get(name_key()) {
                Some(s) => Some(s),
                None => Some(spec_default_name_setting()),
            }),
            forall|k: Seq<char>| k != name_key() ==> final(self).spec_get(k) == old(
                self,
            ).spec_get(k),
    {
        if self.get("name").is_none() {
            self.insert(
                String::from_str("name"),
                Setting { constraints: None, value: SettingValue::String(None) },
            );
        }
    }

    /// The configured display name, if one is set.
    pub fn display_name(&self) -> (r: Option<String>)
        ensures
            match r {
                Some(n) => spec_display_name(*self) == Some(n@),
                None => spec_display_name(*self) is None,
            },
    {
        match self.get("name") {
            Some(setting) => match &setting.value {
                SettingValue::String(Some(n)) => Some(n.clone()),
                _ => None,
            },
            None => None,
        }
    }

    /// The display name to answer a handshake with: the configured
    /// name, or the default display value when unset.
    pub fn response_name(&self) -> (r: String)
        ensures
            r@ == spec_response_name(*self),
    {
        match self.display_name() {
            Some(n) => n,
            None => String::from_str("Anonymous"),
        }
    }
}

/// The configured display name, if one is set.
pub open spec fn spec_display_name(s: Settings) -> Option<Seq<char>> {
    match s.spec_get(name_key()) {
        Some(st) => match st.value {
            SettingValue::String(Some(n)) => Some(n@),
            _ => None,
        },
        None => None,
    }
}

/// The name the responder answers with: the configured display name,
/// or "Anonymous" when unset.
pub open spec fn spec_response_name(s: Settings) -> Seq<char> {
    match spec_display_name(s) {
        Some(n) => n,
        None => "Anonymous"@,
    }
}

/// Relies on str's PartialEq: two string slices are equal exactly when
/// their character sequences are.
#[verifier::external_body]
fn str_eq(a: &str, b: &str) -> (r: bool)
    ensures
        r == (a@ == b@),
{
    a == b
}

} // verus!
