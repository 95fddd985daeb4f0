//! Application settings ("appdata"): values per environment/application
//! pair and key, the store that holds them, reading typed values out of
//! it, and rebuilding it from database rows.

use vstd::prelude::*;
use vstd::string::*;
use crate::assoc::{DeepEq, assoc_find, assoc_get, assoc_map, assoc_map_eq, lemma_assoc_last};

verus! {

/// A numeric (decimal) setting, carried as its decimal text.
#[derive(Debug)]
pub struct Numeric {
    pub text: String,
}

/// A text-to-text map setting, kept as entries; a later entry for a key
/// replaces an earlier one.
#[derive(Debug)]
pub struct StringMap {
    pub entries: Vec<(String, String)>,
}

impl DeepView for Numeric {
    type V = Seq<char>;

    open spec fn deep_view(&self) -> Seq<char> {
        self.text@
    }
}

impl DeepView for StringMap {
    type V = Map<Seq<char>, Seq<char>>;

    open spec fn deep_view(&self) -> Map<Seq<char>, Seq<char>> {
        assoc_map(self.entries@)
    }
}

impl DeepEq for Numeric {
    fn deep_eq(&self, other: &Self) -> (r: bool) {
        self.text.deep_eq(&other.text)
    }
}

impl DeepEq for StringMap {
    fn deep_eq(&self, other: &Self) -> (r: bool) {
        assoc_map_eq(&self.entries, &other.entries)
    }
}

/// Values that can be copied with the same deep view.
pub trait Duplicate: DeepView + Sized {
    fn duplicate(&self) -> (r: Self)
        ensures
            r.deep_view() == self.deep_view();
}

impl Duplicate for String {
    fn duplicate(&self) -> (r: Self) {
        self.clone()
    }
}

impl Duplicate for i32 {
    fn duplicate(&self) -> (r: Self) {
        *self
    }
}

impl Duplicate for bool {
    fn duplicate(&self) -> (r: Self) {
        *self
    }
}

impl Duplicate for Numeric {
    fn duplicate(&self) -> (r: Self) {
        Numeric { text: self.text.clone() }
    }
}

impl Duplicate for StringMap {
    fn duplicate(&self) -> (r: Self) {
        let mut entries: Vec<(String, String)> = Vec::new();
        let mut i: usize = 0;
        while i < self.entries.len()
            invariant
                i <= self.entries@.len(),
                entries@.len() == i,
                forall|j: int| 0 <= j < i ==> (#[trigger] entries@[j]).0@ == self.entries@[j].0@
                    && entries@[j].1@ == self.entries@[j].1@,
            decreases self.entries@.len() - i,
        {
            entries.push((self.entries[i].0.clone(), self.entries[i].1.clone()));
            i = i + 1;
        }
        proof {
            lemma_assoc_same_keys_values(entries@, self.entries@);
        }
        StringMap { entries }
    }
}

proof fn lemma_assoc_same_keys_values(a: Seq<(String, String)>, b: Seq<(String, String)>)
    requires
        a.len() == b.len(),
        forall|j: int| 0 <= j < a.len() ==> (#[trigger] a[j]).0@ == b[j].0@ && a[j].1@ == b[j].1@,
    ensures
        assoc_map(a) == assoc_map(b),
    decreases a.len(),
{
    if a.len() > 0 {
        let (x, y) = (a.drop_last(), b.drop_last());
        assert forall|j: int| 0 <= j < x.len() implies (#[trigger] x[j]).0@ == y[j].0@ && x[j].1@ == y[j].1@ by {
            assert(x[j] == a[j] && y[j] == b[j]);
        }
        lemma_assoc_same_keys_values(x, y);
        assert(a.last() == a[a.len() - 1] && b.last() == b[b.len() - 1]);
    }
}

/// Copies a vector element by element.
pub fn duplicate_vec<T: Duplicate>(v: &Vec<T>) -> (r: Vec<T>)
    ensures
        r.deep_view() == v.deep_view(),
{
    let mut out: Vec<T> = Vec::new();
    let mut i: usize = 0;
    while i < v.len()
        invariant
            i <= v@.len(),
            out@.len() == i,
            forall|j: int| 0 <= j < i ==> (#[trigger] out@[j]).deep_view() == v@[j].deep_view(),
        decreases v@.len() - i,
    {
        out.push(v[i].duplicate());
        i = i + 1;
    }
    assert(out.deep_view() =~= v.deep_view());
    out
}

pub fn duplicate_opt<T: Duplicate>(o: &Option<T>) -> (r: Option<T>)
    ensures
        r.deep_view() == o.deep_view(),
{
    match o {
        Some(x) => Some(x.duplicate()),
        None => None,
    }
}

pub fn duplicate_opt_vec<T: Duplicate>(o: &Option<Vec<T>>) -> (r: Option<Vec<T>>)
    ensures
        r.deep_view() == o.deep_view(),
{
    match o {
        Some(v) => Some(duplicate_vec(v)),
        None => None,
    }
}

pub fn deep_eq_vec<T: DeepEq>(a: &Vec<T>, b: &Vec<T>) -> (r: bool)
    ensures
        r == (a.deep_view() == b.deep_view()),
{
    if a.len() != b.len() {
        return false;
    }
    let mut i: usize = 0;
    while i < a.len()
        invariant
            a@.len() == b@.len(),
            i <= a@.len(),
            forall|j: int| 0 <= j < i ==> (#[trigger] a@[j]).deep_view() == b@[j].deep_view(),
        decreases a@.len() - i,
    {
        if !a[i].deep_eq(&b[i]) {
            assert(a.deep_view()[i as int] != b.deep_view()[i as int]);
            return false;
        }
        i = i + 1;
    }
    assert(a.deep_view() =~= b.deep_view());
    true
}

pub fn deep_eq_opt<T: DeepEq>(a: &Option<T>, b: &Option<T>) -> (r: bool)
    ensures
        r == (a.deep_view() == b.deep_view()),
{
    match (a, b) {
        (Some(x), Some(y)) => x.deep_eq(y),
        (None, None) => true,
        _ => false,
    }
}

pub fn deep_eq_opt_vec<T: DeepEq>(a: &Option<Vec<T>>, b: &Option<Vec<T>>) -> (r: bool)
    ensures
        r == (a.deep_view() == b.deep_view()),
{
    match (a, b) {
        (Some(x), Some(y)) => deep_eq_vec(x, y),
        (None, None) => true,
        _ => false,
    }
}

/// One setting's value; which fields are set depends on the setting.
#[derive(Debug)]
pub struct AppdataValue {
    pub int_value: Option<i32>,
    pub numeric_value: Option<Numeric>,
    pub string_value: Option<String>,
    pub bool_value: Option<bool>,
    pub int_values: Option<Vec<i32>>,
    pub numeric_values: Option<Vec<Numeric>>,
    pub strings_values: Option<Vec<String>>,
    pub bool_values: Option<Vec<bool>>,
    pub map_values: Option<StringMap>,
}

/// The mathematical content of an [`AppdataValue`].
pub struct AppdataValueModel {
    pub int_value: Option<i32>,
    pub numeric_value: Option<Seq<char>>,
    pub string_value: Option<Seq<char>>,
    pub bool_value: Option<bool>,
    pub int_values: Option<Seq<i32>>,
    pub numeric_values: Option<Seq<Seq<char>>>,
    pub strings_values: Option<Seq<Seq<char>>>,
    pub bool_values: Option<Seq<bool>>,
    pub map_values: Option<Map<Seq<char>, Seq<char>>>,
}

impl DeepView for AppdataValue {
    type V = AppdataValueModel;

    open spec fn deep_view(&self) -> AppdataValueModel {
        AppdataValueModel {
            int_value: self.int_value,
            numeric_value: self.numeric_value.deep_view(),
            string_value: self.string_value.deep_view(),
            bool_value: self.bool_value,
            int_values: self.int_values.deep_view(),
            numeric_values: self.numeric_values.deep_view(),
            strings_values: self.strings_values.deep_view(),
            bool_values: self.bool_values.deep_view(),
            map_values: self.map_values.deep_view(),
        }
    }
}

impl DeepEq for AppdataValue {
    fn deep_eq(&self, other: &Self) -> (r: bool) {
        let r = self.int_value == other.int_value
            && deep_eq_opt(&self.numeric_value, &other.numeric_value)
            && deep_eq_opt(&self.string_value, &other.string_value)
            && self.bool_value == other.bool_value
            && deep_eq_opt_vec(&self.int_values, &other.int_values)
            && deep_eq_opt_vec(&self.numeric_values, &other.numeric_values)
            && deep_eq_opt_vec(&self.strings_values, &other.strings_values)
            && deep_eq_opt_vec(&self.bool_values, &other.bool_values)
            && deep_eq_opt(&self.map_values, &other.map_values);
        r
    }
}

impl AppdataValue {
    /// A value holding the four single-valued fields; the list and map
    /// fields are empty.
    pub fn new(
        int_value: Option<i32>,
        numeric_value: Option<Numeric>,
        string_value: Option<String>,
        bool_value: Option<bool>,
    ) -> (r: AppdataValue)
        ensures
            r.int_value == int_value,
            r.numeric_value.deep_view() == numeric_value.deep_view(),
            r.string_value.deep_view() == string_value.deep_view(),
            r.bool_value == bool_value,
            r.int_values is None,
            r.numeric_values is None,
            r.strings_values is None,
            r.bool_values is None,
            r.map_values is None,
    {
        AppdataValue {
            int_value,
            numeric_value,
            string_value,
            bool_value,
            int_values: None,
            numeric_values: None,
            strings_values: None,
            bool_values: None,
            map_values: None,
        }
    }

    /// A value with every field empty.
    pub fn empty() -> (r: AppdataValue)
        ensures
            r.int_value is None,
            r.numeric_value is None,
            r.string_value is None,
            r.bool_value is None,
            r.int_values is None,
            r.numeric_values is None,
            r.strings_values is None,
            r.bool_values is None,
            r.map_values is None,
    {
        AppdataValue {
            int_value: None,
            numeric_value: None,
            string_value: None,
            bool_value: None,
            int_values: None,
            numeric_values: None,
            strings_values: None,
            bool_values: None,
            map_values: None,
        }
    }
}


pub proof fn lemma_assoc_update<V: DeepView>(s: Seq<(String, V)>, i: int, e: (String, V))
    requires
        0 <= i < s.len(),
        e.0@ == s[i].0@,
        forall|j: int| i < j < s.len() ==> (#[trigger] s[j]).0@ != s[i].0@,
    ensures
        assoc_map(s.update(i, e)) == assoc_map(s).insert(e.0@, e.1.deep_view()),
    decreases s.len(),
{
    let u = s.update(i, e);
    if i == s.len() - 1 {
        assert(u.drop_last() =~= s.drop_last());
        assert(u.last() == e);
        assert(assoc_map(u) =~= assoc_map(s).insert(e.0@, e.1.deep_view()));
    } else {
        let t = s.drop_last();
        assert forall|j: int| i < j < t.len() implies (#[trigger] t[j]).0@ != t[i].0@ by {
            assert(t[j] == s[j]);
        }
        lemma_assoc_update(t, i, e);
        assert(u.drop_last() =~= t.update(i, e));
        assert(u.last() == s.last());
        assert(s.last() == s[s.len() - 1]);
        assert(assoc_map(u) =~= assoc_map(s).insert(e.0@, e.1.deep_view()));
    }
}

/// The settings of one environment/application pair, by key.
#[derive(Debug)]
pub struct AppdataGroup {
    pub entries: Vec<(String, AppdataValue)>,
}

impl DeepView for AppdataGroup {
    type V = Map<Seq<char>, AppdataValueModel>;

    open spec fn deep_view(&self) -> Map<Seq<char>, AppdataValueModel> {
        assoc_map(self.entries@)
    }
}

impl DeepEq for AppdataGroup {
    fn deep_eq(&self, other: &Self) -> (r: bool) {
        assoc_map_eq(&self.entries, &other.entries)
    }
}

/// All settings: for each "env:app" pair, its settings by key.
#[derive(Debug)]
pub struct AppdataStore {
    groups: Vec<(String, AppdataGroup)>,
}

pub type StoreModel = Map<Seq<char>, Map<Seq<char>, AppdataValueModel>>;

impl View for AppdataStore {
    type V = StoreModel;

    closed spec fn view(&self) -> StoreModel {
        assoc_map(self.groups@)
    }
}

/// The value stored under `env_app` and `key`, if any.
pub open spec fn store_lookup(m: StoreModel, env_app: Seq<char>, key: Seq<char>) -> Option<AppdataValueModel> {
    if m.contains_key(env_app) && m[env_app].contains_key(key) {
        Some(m[env_app][key])
    } else {
        None
    }
}

/// The store after setting `key` of `env_app` to `v`.
pub open spec fn store_set(m: StoreModel, env_app: Seq<char>, key: Seq<char>, v: AppdataValueModel) -> StoreModel {
    let group = if m.contains_key(env_app) { m[env_app] } else { Map::empty() };
    m.insert(env_app, group.insert(key, v))
}

impl AppdataStore {
    /// An empty store.
    pub fn new() -> (r: AppdataStore)
        ensures
            r@ == Map::<Seq<char>, Map<Seq<char>, AppdataValueModel>>::empty(),
    {
        AppdataStore { groups: Vec::new() }
    }

    /// Whether the store holds no pair at all.
    pub fn is_empty(&self) -> (r: bool)
        ensures
            r == (self@.dom().len() == 0),
    {
        proof {
            if self.groups@.len() > 0 {
                crate::assoc::lemma_assoc_has(self.groups@, 0);
                assert(self@.dom().contains(self.groups@[0].0@));
                assert(self@.dom().len() > 0) by {
                    lemma_assoc_finite(self.groups@);
                }
            } else {
                assert(self@.dom() =~= Set::empty());
            }
        }
        self.groups.len() == 0
    }

    /// Sets `key` of `env_app` to `value`.
    pub fn set(&mut self, env_app: &str, key: &str, value: AppdataValue)
        ensures
            final(self)@ == store_set(old(self)@, env_app@, key@, value.deep_view()),
    {
        let ghost v = value.deep_view();
        match assoc_find(&self.groups, env_app) {
            Some(i) => {
                proof {
                    lemma_assoc_last(self.groups@, i as int);
                }
                let (name, mut group) = self.groups.remove(i);
                let ghost old_group = group.deep_view();
                let ghost old_entries = group.entries@;
                let k = String::from_str(key);
                group.entries.push((k, value));
                assert(group.entries@.drop_last() =~= old_entries);
                assert(group.entries@.last().1.deep_view() == v);
                assert(group.deep_view() == old_group.insert(key@, v));
                self.groups.insert(i, (name, group));
                proof {
                    let e = self.groups@[i as int];
                    assert(self.groups@ =~= old(self).groups@.update(i as int, e));
                    lemma_assoc_update(old(self).groups@, i as int, e);
                }
            },
            None => {
                proof {
                    crate::assoc::lemma_assoc_absent(self.groups@, env_app@);
                }
                let mut entries: Vec<(String, AppdataValue)> = Vec::new();
                let k = String::from_str(key);
                entries.push((k, value));
                assert(entries@.drop_last() =~= Seq::<(String, AppdataValue)>::empty());
                assert(entries@.last().1.deep_view() == v);
                assert(assoc_map(Seq::<(String, AppdataValue)>::empty()) == Map::<Seq<char>, AppdataValueModel>::empty());
                let group = AppdataGroup { entries };
                assert(group.deep_view() =~= Map::<Seq<char>, AppdataValueModel>::empty().insert(key@, v));
                let name = String::from_str(env_app);
                self.groups.push((name, group));
                assert(self.groups@.drop_last() =~= old(self).groups@);
            },
        }
    }

    /// The value stored under `env_app` and `key`, if any.
    pub fn get_value(&self, env_app: &str, key: &str) -> (r: Option<&AppdataValue>)
        ensures
            match r {
                Some(v) => store_lookup(self@, env_app@, key@) == Some(v.deep_view()),
                None => store_lookup(self@, env_app@, key@) is None,
            },
    {
        match assoc_get(&self.groups, env_app) {
            Some(group) => assoc_get(&group.entries, key),
            None => None,
        }
    }

    /// Whether both stores hold the same settings.
    pub fn same_as(&self, other: &AppdataStore) -> (r: bool)
        ensures
            r == (self@ == other@),
    {
        assoc_map_eq(&self.groups, &other.groups)
    }
}

/// The service-wide settings store as the service starts it: empty until
/// the first refresh fills it. The service keeps it behind a lock.
pub fn appdatas() -> (r: AppdataStore)
    ensures
        r@ == Map::<Seq<char>, Map<Seq<char>, AppdataValueModel>>::empty(),
{
    AppdataStore::new()
}

pub proof fn lemma_assoc_finite<V: DeepView>(s: Seq<(String, V)>)
    ensures
        assoc_map(s).dom().finite(),
    decreases s.len(),
{
    if s.len() > 0 {
        lemma_assoc_finite(s.drop_last());
    }
}


/// A database row of the settings table, with the fields the store is
/// built from.
#[derive(Debug)]
pub struct AppData {
    pub env_name: String,
    pub app_name: String,
    pub key: String,
    pub int_value: Option<i32>,
    pub numeric_value: Option<Numeric>,
    pub string_value: Option<String>,
    pub bool_value: Option<bool>,
}

/// The "env:app" name that groups settings.
pub open spec fn env_app_name(env: Seq<char>, app: Seq<char>) -> Seq<char> {
    env + ":"@ + app
}

/// The value a row stands for.
pub open spec fn row_value(r: AppData) -> AppdataValueModel {
    AppdataValueModel {
        int_value: r.int_value,
        numeric_value: r.numeric_value.deep_view(),
        string_value: r.string_value.deep_view(),
        bool_value: r.bool_value,
        int_values: None,
        numeric_values: None,
        strings_values: None,
        bool_values: None,
        map_values: None,
    }
}

/// The store that the rows describe: each row sets its key in its
/// "env:app" group, and a later row for the same group and key wins.
pub open spec fn rows_store(rows: Seq<AppData>) -> StoreModel
    decreases rows.len(),
{
    if rows.len() == 0 {
        Map::empty()
    } else {
        let r = rows.last();
        store_set(rows_store(rows.drop_last()), env_app_name(r.env_name@, r.app_name@), r.key@, row_value(r))
    }
}

/// Joins an environment and an application name as "env:app".
pub fn env_app(env: &str, app: &str) -> (r: String)
    ensures
        r@ == env_app_name(env@, app@),
{
    let mut g = String::from_str(env);
    g.append(":");
    g.append(app);
    g
}

/// The store described by the rows.
pub fn group_rows(rows: &Vec<AppData>) -> (r: AppdataStore)
    ensures
        r@ == rows_store(rows@),
{
    let mut store = AppdataStore::new();
    let mut i: usize = 0;
    while i < rows.len()
        invariant
            i <= rows@.len(),
            store@ == rows_store(rows@.subrange(0, i as int)),
        decreases rows@.len() - i,
    {
        let row = &rows[i];
        let name = env_app(row.env_name.as_str(), row.app_name.as_str());
        let value = AppdataValue::new(
            row.int_value,
            duplicate_opt(&row.numeric_value),
            duplicate_opt(&row.string_value),
            row.bool_value,
        );
        assert(value.deep_view() == row_value(*row));
        store.set(name.as_str(), row.key.as_str(), value);
        proof {
            let pre = rows@.subrange(0, i + 1);
            assert(pre.drop_last() =~= rows@.subrange(0, i as int));
            assert(pre.last() == rows@[i as int]);
        }
        i = i + 1;
    }
    assert(rows@.subrange(0, rows@.len() as int) =~= rows@);
    store
}

/// Whether a refresh with these rows replaces the store `old`: the rows
/// describe a non-empty store that differs from it.
pub open spec fn refresh_changes(old: StoreModel, rows: Seq<AppData>) -> bool {
    rows.len() > 0 && rows_store(rows) != old
}

/// The store after a refresh of `old` with these rows.
pub open spec fn refreshed(old: StoreModel, rows: Seq<AppData>) -> StoreModel {
    if refresh_changes(old, rows) {
        rows_store(rows)
    } else {
        old
    }
}

/// Rebuilds the store from freshly read rows. When the rows describe a
/// non-empty store that differs from the current one, it replaces the
/// current one and `true` is returned; otherwise nothing changes.
pub fn refresh_store(current: &mut AppdataStore, rows: &Vec<AppData>) -> (changed: bool)
    ensures
        changed == refresh_changes(old(current)@, rows@),
        final(current)@ == refreshed(old(current)@, rows@),
{
    let fresh = group_rows(rows);
    if rows.len() > 0 && !fresh.same_as(current) {
        *current = fresh;
        true
    } else {
        false
    }
}

/// Setting a value and reading it back: the key just set reads as the
/// value set; every other key reads as before.
pub proof fn lemma_set_then_get(
    m: StoreModel,
    env_app: Seq<char>,
    key: Seq<char>,
    v: AppdataValueModel,
    other_env_app: Seq<char>,
    other_key: Seq<char>,
)
    ensures
        store_lookup(store_set(m, env_app, key, v), env_app, key) == Some(v),
        !(other_env_app == env_app && other_key == key) ==> store_lookup(
            store_set(m, env_app, key, v),
            other_env_app,
            other_key,
        ) == store_lookup(m, other_env_app, other_key),
{
}

/// The value the store built from rows holds for a group and key is that of
/// the last row for them.
pub proof fn lemma_rows_last_wins(rows: Seq<AppData>, j: int)
    requires
        0 <= j < rows.len(),
        forall|l: int|
            j < l < rows.len() ==> !(env_app_name(#[trigger] rows[l].env_name@, rows[l].app_name@) == env_app_name(
                rows[j].env_name@,
                rows[j].app_name@,
            ) && rows[l].key@ == rows[j].key@),
    ensures
        store_lookup(rows_store(rows), env_app_name(rows[j].env_name@, rows[j].app_name@), rows[j].key@) == Some(
            row_value(rows[j]),
        ),
    decreases rows.len(),
{
    let g = env_app_name(rows[j].env_name@, rows[j].app_name@);
    let k = rows[j].key@;
    let r = rows.last();
    lemma_set_then_get(rows_store(rows.drop_last()), env_app_name(r.env_name@, r.app_name@), r.key@, row_value(r), g, k);
    if j < rows.len() - 1 {
        let l = rows.len() - 1;
        assert(rows[l] == r);
        assert(!(env_app_name(rows[l].env_name@, rows[l].app_name@) == g && rows[l].key@ == k));
        assert forall|l2: int| j < l2 < rows.drop_last().len() implies !(env_app_name(
            #[trigger] rows.drop_last()[l2].env_name@,
            rows.drop_last()[l2].app_name@,
        ) == env_app_name(rows.drop_last()[j].env_name@, rows.drop_last()[j].app_name@)
            && rows.drop_last()[l2].key@ == rows.drop_last()[j].key@) by {
            assert(rows.drop_last()[l2] == rows[l2]);
        }
        lemma_rows_last_wins(rows.drop_last(), j);
        assert(rows.drop_last()[j] == rows[j]);
    }
}

/// A group and key that no row names is absent from the store built from
/// the rows.
pub proof fn lemma_rows_absent(rows: Seq<AppData>, env_app: Seq<char>, key: Seq<char>)
    requires
        forall|l: int|
            0 <= l < rows.len() ==> !(env_app_name(#[trigger] rows[l].env_name@, rows[l].app_name@) == env_app
                && rows[l].key@ == key),
    ensures
        store_lookup(rows_store(rows), env_app, key) is None,
    decreases rows.len(),
{
    if rows.len() > 0 {
        let r = rows.last();
        assert(rows[rows.len() - 1] == r);
        lemma_set_then_get(rows_store(rows.drop_last()), env_app_name(r.env_name@, r.app_name@), r.key@, row_value(r), env_app, key);
        assert forall|l: int| 0 <= l < rows.drop_last().len() implies !(env_app_name(
            #[trigger] rows.drop_last()[l].env_name@,
            rows.drop_last()[l].app_name@,
        ) == env_app && rows.drop_last()[l].key@ == key) by {
            assert(rows.drop_last()[l] == rows[l]);
        }
        lemma_rows_absent(rows.drop_last(), env_app, key);
    }
}

/// A refresh with rows leaves the store equal to what the rows describe;
/// a refresh without rows leaves it as it was.
pub proof fn lemma_refresh_mirrors_rows(old: StoreModel, rows: Seq<AppData>)
    ensures
        rows.len() > 0 ==> refreshed(old, rows) == rows_store(rows),
        rows.len() == 0 ==> refreshed(old, rows) == old && !refresh_changes(old, rows),
{
}

/// Refreshing twice with the same rows changes nothing the second time.
pub proof fn lemma_refresh_idempotent(old: StoreModel, rows: Seq<AppData>)
    ensures
        !refresh_changes(refreshed(old, rows), rows),
        refreshed(refreshed(old, rows), rows) == refreshed(old, rows),
{
}

/// Marks a refresh run as having changed the store. A scheduled run (not
/// the initial one) announces its start the first time; `processed`
/// records that it did.
pub fn cron_start(processed: &mut bool, is_initialize: bool) -> (announce: bool)
    ensures
        announce == (!is_initialize && !*old(processed)),
        *final(processed) == (*old(processed) || announce),
{
    if !is_initialize && !*processed {
        *processed = true;
        true
    } else {
        false
    }
}

/// Types that a setting's value can be read as.
pub trait FromAppdataValue: Sized + DeepView {
    /// What reading a value with this content gives.
    spec fn from_model(val: AppdataValueModel) -> Option<<Self as DeepView>::V>;

    fn from_val(val: &AppdataValue) -> (r: Option<Self>)
        ensures
            r.deep_view() == Self::from_model(val.deep_view());
}

impl FromAppdataValue for i32 {
    open spec fn from_model(val: AppdataValueModel) -> Option<i32> {
        val.int_value
    }

    fn from_val(val: &AppdataValue) -> (r: Option<i32>) {
        val.int_value
    }
}

impl FromAppdataValue for u32 {
    open spec fn from_model(val: AppdataValueModel) -> Option<u32> {
        match val.int_value {
            Some(v) => if v >= 0 { Some(v as u32) } else { None },
            None => None,
        }
    }

    fn from_val(val: &AppdataValue) -> (r: Option<u32>) {
        match val.int_value {
            Some(v) => if v >= 0 { Some(v as u32) } else { None },
            None => None,
        }
    }
}

impl FromAppdataValue for Numeric {
    open spec fn from_model(val: AppdataValueModel) -> Option<Seq<char>> {
        val.numeric_value
    }

    fn from_val(val: &AppdataValue) -> (r: Option<Numeric>) {
        duplicate_opt(&val.numeric_value)
    }
}

impl FromAppdataValue for String {
    open spec fn from_model(val: AppdataValueModel) -> Option<Seq<char>> {
        val.string_value
    }

    fn from_val(val: &AppdataValue) -> (r: Option<String>) {
        duplicate_opt(&val.string_value)
    }
}

impl FromAppdataValue for bool {
    open spec fn from_model(val: AppdataValueModel) -> Option<bool> {
        val.bool_value
    }

    fn from_val(val: &AppdataValue) -> (r: Option<bool>) {
        val.bool_value
    }
}

impl FromAppdataValue for Vec<i32> {
    open spec fn from_model(val: AppdataValueModel) -> Option<Seq<i32>> {
        val.int_values
    }

    fn from_val(val: &AppdataValue) -> (r: Option<Vec<i32>>) {
        duplicate_opt_vec(&val.int_values)
    }
}

impl FromAppdataValue for i64 {
    open spec fn from_model(val: AppdataValueModel) -> Option<i64> {
        match val.int_value {
            Some(v) => Some(v as i64),
            None => None,
        }
    }

    fn from_val(val: &AppdataValue) -> (r: Option<i64>) {
        match val.int_value {
            Some(v) => Some(v as i64),
            None => None,
        }
    }
}

impl FromAppdataValue for Vec<u32> {
    open spec fn from_model(val: AppdataValueModel) -> Option<Seq<u32>> {
        match val.int_values {
            Some(s) => if forall|i: int| 0 <= i < s.len() ==> #[trigger] s[i] >= 0 {
                Some(s.map_values(|x: i32| x as u32))
            } else {
                None
            },
            None => None,
        }
    }

    fn from_val(val: &AppdataValue) -> (r: Option<Vec<u32>>) {
        match &val.int_values {
            Some(v) => {
                let ghost s = v.deep_view();
                assert(val.int_values.deep_view() == Some(s));
                assert(s.len() == v@.len());
                assert(forall|j: int| 0 <= j < s.len() ==> #[trigger] s[j] == v@[j]);
                let mut out: Vec<u32> = Vec::new();
                let mut i: usize = 0;
                while i < v.len()
                    invariant
                        i <= v@.len(),
                        out@.len() == i,
                        forall|j: int| 0 <= j < i ==> #[trigger] v@[j] >= 0 && out@[j] == v@[j] as u32,
                        val.int_values.deep_view() == Some(s),
                        s.len() == v@.len(),
                        forall|j: int| 0 <= j < s.len() ==> #[trigger] s[j] == v@[j],
                    decreases v@.len() - i,
                {
                    if v[i] < 0 {
                        assert(!(s[i as int] >= 0));
                        return None;
                    }
                    out.push(v[i] as u32);
                    i = i + 1;
                }
                assert forall|j: int| 0 <= j < s.len() implies #[trigger] s[j] >= 0 by {
                    assert(v@[j] >= 0);
                }
                assert(out.deep_view() =~= s.map_values(|x: i32| x as u32)) by {
                    assert forall|j: int| 0 <= j < s.len() implies out.deep_view()[j] == s.map_values(|x: i32| x as u32)[j] by {
                        assert(v@[j] >= 0);
                    }
                }
                Some(out)
            },
            None => None,
        }
    }
}

impl FromAppdataValue for Vec<Numeric> {
    open spec fn from_model(val: AppdataValueModel) -> Option<Seq<Seq<char>>> {
        val.numeric_values
    }

    fn from_val(val: &AppdataValue) -> (r: Option<Vec<Numeric>>) {
        duplicate_opt_vec(&val.numeric_values)
    }
}

impl FromAppdataValue for Vec<String> {
    open spec fn from_model(val: AppdataValueModel) -> Option<Seq<Seq<char>>> {
        val.strings_values
    }

    fn from_val(val: &AppdataValue) -> (r: Option<Vec<String>>) {
        duplicate_opt_vec(&val.strings_values)
    }
}

impl FromAppdataValue for Vec<bool> {
    open spec fn from_model(val: AppdataValueModel) -> Option<Seq<bool>> {
        val.bool_values
    }

    fn from_val(val: &AppdataValue) -> (r: Option<Vec<bool>>) {
        duplicate_opt_vec(&val.bool_values)
    }
}

impl FromAppdataValue for StringMap {
    open spec fn from_model(val: AppdataValueModel) -> Option<Map<Seq<char>, Seq<char>>> {
        val.map_values
    }

    fn from_val(val: &AppdataValue) -> (r: Option<StringMap>) {
        duplicate_opt(&val.map_values)
    }
}

/// What reading the setting `key` of `env_app` as a `T` gives.
pub open spec fn appdata_as<T: FromAppdataValue>(m: StoreModel, env_app: Seq<char>, key: Seq<char>) -> Option<<T as DeepView>::V> {
    match store_lookup(m, env_app, key) {
        Some(v) => T::from_model(v),
        None => None,
    }
}

/// Reads the setting `key` of the pair `env_app` as a `T`; `None` when the
/// setting is absent or has no value of that type.
pub fn get_appdata<T: FromAppdataValue>(store: &AppdataStore, env_app: &str, key: &str) -> (r: Option<T>)
    ensures
        r.deep_view() == appdata_as::<T>(store@, env_app@, key@),
{
    match store.get_value(env_app, key) {
        Some(v) => T::from_val(v),
        None => None,
    }
}

} // verus!
