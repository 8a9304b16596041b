//! Debug adapter configurations: the JSON object that tells the Java debug
//! adapter what to launch or attach to, held as a map from keys to values, and
//! read from and written to JSON text with `serde_json`.
use vstd::prelude::*;
use crate::text::{owned, text_eq, views};

verus! {

/// A JSON value of `serde_json`, carried through opaquely.
#[verifier::external_type_specification]
#[verifier::external_body]
pub struct ExJsonValue(serde_json::Value);

/// A copy of a JSON value (`serde_json::Value::clone`); the copy is the same value.
#[verifier::external_body]
fn json_clone(j: &serde_json::Value) -> (r: serde_json::Value)
    ensures
        r == *j,
{
    j.clone()
}

/// A value in a debug configuration.
#[derive(Debug, PartialEq, Eq)]
pub enum ConfigValue {
    /// A JSON string.
    Text(String),
    /// A JSON number that is a non-negative integer.
    Unsigned(u64),
    /// A JSON boolean.
    Boolean(bool),
    /// JSON `null`.
    Null,
    /// Any other JSON value (a number, an array, an object), as `serde_json` holds it.
    Raw(serde_json::Value),
}

/// What a configuration value holds.
pub enum ConfigValueView {
    Text(Seq<char>),
    Unsigned(u64),
    Boolean(bool),
    Null,
    Raw(serde_json::Value),
}

impl View for ConfigValue {
    type V = ConfigValueView;

    open spec fn view(&self) -> ConfigValueView {
        match self {
            ConfigValue::Text(s) => ConfigValueView::Text(s@),
            ConfigValue::Unsigned(n) => ConfigValueView::Unsigned(*n),
            ConfigValue::Boolean(b) => ConfigValueView::Boolean(*b),
            ConfigValue::Null => ConfigValueView::Null,
            ConfigValue::Raw(j) => ConfigValueView::Raw(*j),
        }
    }
}

impl ConfigValue {
    /// A copy of the value.
    pub fn duplicate(&self) -> (r: ConfigValue)
        ensures
            r@ == self@,
    {
        match self {
            ConfigValue::Text(s) => ConfigValue::Text(owned(s.as_str())),
            ConfigValue::Unsigned(n) => ConfigValue::Unsigned(*n),
            ConfigValue::Boolean(b) => ConfigValue::Boolean(*b),
            ConfigValue::Null => ConfigValue::Null,
            ConfigValue::Raw(j) => ConfigValue::Raw(json_clone(j)),
        }
    }
}

/// The map that a list of entries describes, later entries winning.
pub open spec fn entries_map(e: Seq<(String, ConfigValue)>) -> Map<Seq<char>, ConfigValueView>
    decreases e.len(),
{
    if e.len() == 0 {
        Map::empty()
    } else {
        entries_map(e.drop_last()).insert(e.last().0@, e.last().1@)
    }
}

/// No key occurs twice among the entries.
pub open spec fn keys_distinct(e: Seq<(String, ConfigValue)>) -> bool {
    forall|i: int, j: int| 0 <= i < j < e.len() ==> (#[trigger] e[i]).0@ != (#[trigger] e[j]).0@
}

/// The keys of `entries_map(e)` are those of the entries, and with distinct keys each
/// key maps to its entry's value.
proof fn lemma_entries_map(e: Seq<(String, ConfigValue)>)
    requires
        keys_distinct(e),
    ensures
        forall|k: Seq<char>|
            #[trigger] entries_map(e).contains_key(k) <==> exists|i: int|
                0 <= i < e.len() && (#[trigger] e[i]).0@ == k,
        forall|i: int| 0 <= i < e.len() ==> #[trigger] entries_map(e)[e[i].0@] == e[i].1@,
    decreases e.len(),
{
    if e.len() > 0 {
        let f = e.drop_last();
        let last = e.last();
        assert(keys_distinct(f));
        lemma_entries_map(f);
        assert(entries_map(e) == entries_map(f).insert(last.0@, last.1@));
        assert forall|k: Seq<char>| #[trigger] entries_map(e).contains_key(k) implies exists|i: int|
            0 <= i < e.len() && (#[trigger] e[i]).0@ == k by {
            if k != last.0@ {
                assert(entries_map(f).contains_key(k));
                let i = choose|i: int| 0 <= i < f.len() && (#[trigger] f[i]).0@ == k;
                assert(e[i] == f[i]);
            } else {
                assert(e[e.len() - 1].0@ == k);
            }
        }
        assert forall|k: Seq<char>|
            (exists|i: int| 0 <= i < e.len() && (#[trigger] e[i]).0@ == k) implies #[trigger] entries_map(
            e,
        ).contains_key(k) by {
            let i = choose|i: int| 0 <= i < e.len() && (#[trigger] e[i]).0@ == k;
            if i < e.len() - 1 {
                assert(f[i] == e[i]);
                assert(entries_map(f).contains_key(k));
            }
        }
        assert forall|i: int| 0 <= i < e.len() implies #[trigger] entries_map(e)[e[i].0@]
            == e[i].1@ by {
            if i < e.len() - 1 {
                assert(f[i] == e[i]);
                assert(e[i].0@ != e[e.len() - 1].0@);
                assert(entries_map(f)[f[i].0@] == f[i].1@);
            }
        }
    }
}

/// Replacing an entry's value changes the map at that key only.
proof fn lemma_entries_map_update(e: Seq<(String, ConfigValue)>, i: int, k: String, v: ConfigValue)
    requires
        keys_distinct(e),
        0 <= i < e.len(),
        k@ == e[i].0@,
    ensures
        entries_map(e.update(i, (k, v))) == entries_map(e).insert(k@, v@),
        keys_distinct(e.update(i, (k, v))),
    decreases e.len(),
{
    let u = e.update(i, (k, v));
    assert(keys_distinct(u)) by {
        assert forall|a: int, b: int| 0 <= a < b < u.len() implies (#[trigger] u[a]).0@ != (
        #[trigger] u[b]).0@ by {
            assert(e[a].0@ != e[b].0@);
        }
    }
    if i == e.len() - 1 {
        assert(u.drop_last() =~= e.drop_last());
        assert(entries_map(u) =~= entries_map(e).insert(e[i].0@, v@));
    } else {
        let f = e.drop_last();
        assert(keys_distinct(f));
        lemma_entries_map_update(f, i, k, v);
        assert(u.drop_last() =~= f.update(i, (k, v)));
        assert(e[i].0@ != e.last().0@);
        assert(entries_map(u) =~= entries_map(e).insert(e[i].0@, v@));
    }
}

/// A JSON object used as a debug configuration: each key once, each with a value.
pub struct ConfigObject {
    entries: Vec<(String, ConfigValue)>,
}

impl ConfigObject {
    #[verifier::type_invariant]
    spec fn keys_are_distinct(self) -> bool {
        keys_distinct(self.entries@)
    }
}

impl View for ConfigObject {
    type V = Map<Seq<char>, ConfigValueView>;

    closed spec fn view(&self) -> Map<Seq<char>, ConfigValueView> {
        entries_map(self.entries@)
    }
}

impl ConfigObject {
    /// An empty object.
    pub fn new() -> (r: ConfigObject)
        ensures
            r@ == Map::<Seq<char>, ConfigValueView>::empty(),
    {
        ConfigObject { entries: Vec::new() }
    }

    /// The position of `key` among the entries.
    fn position(&self, key: &str) -> (r: Option<usize>)
        ensures
            r matches Some(i) ==> i < self.entries.len() && self.entries@[i as int].0@ == key@,
            r is None ==> forall|i: int|
                0 <= i < self.entries.len() ==> (#[trigger] self.entries@[i]).0@ != key@,
    {
        let mut i: usize = 0;
        while i < self.entries.len()
            invariant
                i <= self.entries.len(),
                forall|j: int| 0 <= j < i ==> (#[trigger] self.entries@[j]).0@ != key@,
            decreases self.entries.len() - i,
        {
            if text_eq(self.entries[i].0.as_str(), key) {
                return Some(i);
            }
            i = i + 1;
        }
        None
    }

    /// The value at `key`.
    pub fn get(&self, key: &str) -> (r: Option<&ConfigValue>)
        ensures
            r matches Some(v) ==> self@.contains_key(key@) && self@[key@] == v@,
            r is None ==> !self@.contains_key(key@),
    {
        proof {
            use_type_invariant(self);
            lemma_entries_map(self.entries@);
        }
        match self.position(key) {
            Some(i) => Some(&self.entries[i].1),
            None => None,
        }
    }

    /// Whether the object has the key `key`.
    pub fn contains_key(&self, key: &str) -> (r: bool)
        ensures
            r == self@.contains_key(key@),
    {
        self.get(key).is_some()
    }

    /// The text at `key`, when the value there is a string.
    pub fn get_text(&self, key: &str) -> (r: Option<String>)
        ensures
            r matches Some(s) ==> self@.contains_key(key@) && self@[key@] == ConfigValueView::Text(
                s@,
            ),
            r is None ==> !(self@.contains_key(key@) && self@[key@] is Text),
    {
        match self.get(key) {
            Some(ConfigValue::Text(s)) => Some(owned(s.as_str())),
            _ => None,
        }
    }

    /// Sets `key` to `value`, replacing any value it had.
    pub fn insert(&mut self, key: String, value: ConfigValue)
        ensures
            final(self)@ == old(self)@.insert(key@, value@),
    {
        proof {
            use_type_invariant(&*self);
        }
        let pos = self.position(key.as_str());
        let mut entries: Vec<(String, ConfigValue)> = Vec::new();
        std::mem::swap(&mut entries, &mut self.entries);
        let ghost e = entries@;
        match pos {
            Some(i) => {
                proof {
                    lemma_entries_map_update(e, i as int, key, value);
                }
                entries.set(i, (key, value));
            },
            None => {
                entries.push((key, value));
                assert(entries@.drop_last() =~= e);
                assert(keys_distinct(entries@));
            },
        }
        self.entries = entries;
    }

    /// Sets `key` to `value` unless the object already has `key`
    /// (`entry(key).or_insert(value)`).
    pub fn insert_if_absent(&mut self, key: String, value: ConfigValue)
        ensures
            final(self)@ == if old(self)@.contains_key(key@) {
                old(self)@
            } else {
                old(self)@.insert(key@, value@)
            },
    {
        if !self.contains_key(key.as_str()) {
            self.insert(key, value);
        }
    }

    /// The entries, each key once, in the order they were first set.
    pub fn entries(&self) -> (r: &Vec<(String, ConfigValue)>)
        ensures
            entries_map(r@) == self@,
            keys_distinct(r@),
    {
        proof {
            use_type_invariant(self);
        }
        &self.entries
    }
}

// ---------------------------------------------------------------------------
// JSON text
// ---------------------------------------------------------------------------

/// What `serde_json` reads from a configuration text: `None` when the text is not
/// JSON, `Some(None)` when it is JSON but not an object, else the object's entries.
pub uninterp spec fn json_config(text: Seq<char>) -> Option<Option<Map<Seq<char>, ConfigValueView>>>;

/// The entries of a `serde_json` value when it is an object: strings, booleans and
/// `null` as such, every other value as it is held.
pub uninterp spec fn json_entries(v: serde_json::Value) -> Option<Map<Seq<char>, ConfigValueView>>;

/// The compact JSON text that `serde_json` writes for an object with these entries.
pub uninterp spec fn json_object_text(m: Map<Seq<char>, ConfigValueView>) -> Seq<char>;

/// The `Debug` rendering of a configuration value as a `serde_json` value
/// (`String("launch")`, `Number(1)`, ...).
pub uninterp spec fn json_debug_text(v: ConfigValueView) -> Seq<char>;

/// `serde_json`'s parse of a text into a JSON value (`serde_json::from_str`). The
/// contract names what the text reads as; the message of a parse error is left unsaid.
#[verifier::external_body]
fn parse_json(text: &str) -> (r: Result<serde_json::Value, String>)
    ensures
        r is Err <==> json_config(text@) is None,
        r matches Ok(v) ==> json_config(text@) == Some(json_entries(v)),
{
    serde_json::from_str::<serde_json::Value>(text).map_err(|e| e.to_string())
}

/// The keys of a JSON object (`Value::as_object` and `Map::keys`); `None` when the
/// value is not an object.
#[verifier::external_body]
fn json_object_keys(v: &serde_json::Value) -> (r: Option<Vec<String>>)
    ensures
        r is None <==> json_entries(*v) is None,
        r matches Some(ks) ==> forall|k: Seq<char>|
            #[trigger] json_entries(*v)->0.contains_key(k) <==> views(ks@).contains(k),
{
    v.as_object().map(|o| o.keys().cloned().collect())
}

/// The value at `key` of a JSON object (`Value::get`), as a configuration value.
#[verifier::external_body]
fn json_object_get(v: &serde_json::Value, key: &str) -> (r: Option<ConfigValue>)
    requires
        json_entries(*v) is Some,
    ensures
        r is None <==> !json_entries(*v)->0.contains_key(key@),
        r matches Some(c) ==> json_entries(*v)->0[key@] == c@,
{
    match v.get(key)? {
        serde_json::Value::String(s) => Some(ConfigValue::Text(s.clone())),
        serde_json::Value::Bool(b) => Some(ConfigValue::Boolean(*b)),
        serde_json::Value::Null => Some(ConfigValue::Null),
        other => Some(ConfigValue::Raw(other.clone())),
    }
}

/// The configuration that a text holds: an error (`serde_json`'s message) when the
/// text is not JSON, `None` when it is JSON but not an object, else the object.
pub fn parse_config_text(text: &str) -> (r: Result<Option<ConfigObject>, String>)
    ensures
        r is Err <==> json_config(text@) is None,
        r matches Ok(o) ==> json_config(text@) == Some(
            match o {
                Some(c) => Some(c@),
                None => None,
            },
        ),
{
    match parse_json(text) {
        Ok(v) => Ok(config_from_json(&v)),
        Err(e) => Err(e),
    }
}

/// The configuration that a JSON value holds: `None` when it is not an object.
pub fn config_from_json(v: &serde_json::Value) -> (r: Option<ConfigObject>)
    ensures
        match r {
            Some(c) => json_entries(*v) == Some(c@),
            None => json_entries(*v) is None,
        },
{
    let keys = match json_object_keys(v) {
        Some(k) => k,
        None => return None,
    };
    let ghost m = json_entries(*v)->0;
    let mut c = ConfigObject::new();
    let mut i: usize = 0;
    while i < keys.len()
        invariant
            i <= keys.len(),
            json_entries(*v) == Some(m),
            forall|k: Seq<char>| #[trigger] m.contains_key(k) <==> views(keys@).contains(k),
            forall|k: Seq<char>|
                #[trigger] c@.contains_key(k) <==> exists|j: int| 0 <= j < i && keys@[j]@ == k,
            forall|k: Seq<char>| #[trigger] c@.contains_key(k) ==> m.contains_key(k) && c@[k] == m[k],
        decreases keys.len() - i,
    {
        assert(views(keys@)[i as int] == keys@[i as int]@);
        assert(m.contains_key(keys@[i as int]@));
        let key = owned(keys[i].as_str());
        if let Some(value) = json_object_get(v, keys[i].as_str()) {
            let ghost before = c@;
            c.insert(key, value);
            assert forall|k: Seq<char>| #[trigger] c@.contains_key(k) <==> exists|j: int|
                0 <= j < i + 1 && keys@[j]@ == k by {
                if k == keys@[i as int]@ {
                } else if before.contains_key(k) {
                    let j = choose|j: int| 0 <= j < i && keys@[j]@ == k;
                } else if exists|j: int| 0 <= j < i + 1 && keys@[j]@ == k {
                    let j = choose|j: int| 0 <= j < i + 1 && keys@[j]@ == k;
                    assert(j < i ==> before.contains_key(k));
                }
            }
        }
        i = i + 1;
    }
    assert(c@ =~= m) by {
        assert forall|k: Seq<char>| #[trigger] m.contains_key(k) implies c@.contains_key(k) by {
            assert(views(keys@).contains(k));
            let j = choose|j: int| 0 <= j < views(keys@).len() && views(keys@)[j] == k;
            assert(keys@[j]@ == k);
        }
    }
    Some(c)
}

/// A JSON text reads back, with `serde_json`, as an object with the keys of `m`, and
/// with the same value at each key whose value in `m` is a string, a boolean or `null`.
pub open spec fn reads_back_as(text: Seq<char>, m: Map<Seq<char>, ConfigValueView>) -> bool {
    &&& json_config(text) is Some
    &&& json_config(text)->0 is Some
    &&& json_config(text)->0->0.dom() == m.dom()
    &&& forall|k: Seq<char>|
        #[trigger] m.contains_key(k) && (m[k] is Text || m[k] is Boolean || m[k] is Null)
            ==> json_config(text)->0->0[k] == m[k]
}

/// The JSON text of a configuration, as `serde_json` writes the object holding its
/// entries (`Value::to_string`). The contract names the text, and says what
/// `serde_json` reads back from it: an object with the same keys, and the same
/// strings, booleans and nulls (numbers and other values read back as they are held
/// by `serde_json`, which is left unsaid).
#[verifier::external_body]
pub(crate) fn config_text(config: &ConfigObject) -> (r: String)
    ensures
        r@ == json_object_text(config@),
        reads_back_as(r@, config@),
{
    let entries: serde_json::Map<String, serde_json::Value> = config.entries().iter().map(
        |(k, v)| (k.clone(), match v {
            ConfigValue::Text(s) => serde_json::Value::String(s.clone()),
            ConfigValue::Unsigned(n) => serde_json::Value::from(*n),
            ConfigValue::Boolean(b) => serde_json::Value::Bool(*b),
            ConfigValue::Null => serde_json::Value::Null,
            ConfigValue::Raw(j) => j.clone(),
        }),
    ).collect();
    serde_json::Value::Object(entries).to_string()
}

/// The `Debug` rendering of a configuration value as the `serde_json` value it
/// stands for.
#[verifier::external_body]
pub(crate) fn value_debug_text(v: &ConfigValue) -> (r: String)
    ensures
        r@ == json_debug_text(v@),
{
    format!("{:?}", match v {
        ConfigValue::Text(s) => serde_json::Value::String(s.clone()),
        ConfigValue::Unsigned(n) => serde_json::Value::from(*n),
        ConfigValue::Boolean(b) => serde_json::Value::Bool(*b),
        ConfigValue::Null => serde_json::Value::Null,
        ConfigValue::Raw(j) => j.clone(),
    })
}

} // verus!
