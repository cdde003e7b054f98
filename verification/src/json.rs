//! JSON values as the schema rewriting sees them.
//!
//! An object is a map from keys to values: its entries are kept in a vector
//! whose keys are pairwise distinct (a type invariant), and its model is the
//! map from each key to the model of its value.  Two objects whose entries
//! come in another order have the same model.
use vstd::prelude::*;
use crate::text::text_equals;

verus! {

/// The mathematical model of a JSON value.
pub enum JsonModel {
    Null,
    Bool(bool),
    /// A number, by its decimal text.
    Number(Seq<char>),
    Str(Seq<char>),
    Array(Seq<JsonModel>),
    Object(Map<Seq<char>, JsonModel>),
}

/// A JSON value.
#[derive(Debug)]
pub enum JsonValue {
    Null,
    Bool(bool),
    /// A number, by its decimal text.
    Number(String),
    String(String),
    Array(Vec<JsonValue>),
    Object(JsonMap),
}

/// A JSON object: a map from keys to values.
#[derive(Debug)]
pub struct JsonMap {
    entries: Vec<(String, JsonValue)>,
}

/// The model of a JSON value.
pub open spec fn json_model(v: JsonValue) -> JsonModel
    decreases v,
{
    match v {
        JsonValue::Null => JsonModel::Null,
        JsonValue::Bool(b) => JsonModel::Bool(b),
        JsonValue::Number(n) => JsonModel::Number(n@),
        JsonValue::String(s) => JsonModel::Str(s@),
        JsonValue::Array(items) => JsonModel::Array(items_model(items@)),
        JsonValue::Object(m) => JsonModel::Object(map_model(m)),
    }
}

/// The models of a sequence of JSON values, in order.
pub open spec fn items_model(items: Seq<JsonValue>) -> Seq<JsonModel>
    decreases items,
{
    if items.len() == 0 {
        Seq::empty()
    } else {
        items_model(items.subrange(0, items.len() - 1)).push(
            json_model(items[items.len() - 1]),
        )
    }
}

/// The model of a JSON object.
pub closed spec fn map_model(m: JsonMap) -> Map<Seq<char>, JsonModel>
    decreases m,
{
    entries_model(m.entries@)
}

/// The map that a sequence of entries stands for: a later entry wins.
closed spec fn entries_model(es: Seq<(String, JsonValue)>) -> Map<Seq<char>, JsonModel>
    decreases es,
{
    if es.len() == 0 {
        Map::empty()
    } else {
        entries_model(es.subrange(0, es.len() - 1)).insert(
            es[es.len() - 1].0@,
            json_model(es[es.len() - 1].1),
        )
    }
}

impl View for JsonValue {
    type V = JsonModel;

    open spec fn view(&self) -> JsonModel {
        json_model(*self)
    }
}

impl View for JsonMap {
    type V = Map<Seq<char>, JsonModel>;

    open spec fn view(&self) -> Map<Seq<char>, JsonModel> {
        map_model(*self)
    }
}

/// The models of a sequence of values come one for one, in order.
pub proof fn lemma_items_model(items: Seq<JsonValue>)
    ensures
        items_model(items).len() == items.len(),
        forall|i: int| 0 <= i < items.len() ==> #[trigger] items_model(items)[i] == json_model(items[i]),
    decreases items.len(),
{
    if items.len() > 0 {
        let init = items.subrange(0, items.len() - 1);
        lemma_items_model(init);
        assert forall|i: int| 0 <= i < items.len() implies #[trigger] items_model(items)[i] == json_model(items[i]) by {
            if i < items.len() - 1 {
                assert(init[i] == items[i]);
            }
        }
    }
}

/// The keys of `es` are pairwise distinct.
closed spec fn keys_distinct(es: Seq<(String, JsonValue)>) -> bool {
    forall|i: int, j: int| 0 <= i < j < es.len() ==> es[i].0@ != es[j].0@
}

/// A key is in the map of `es` exactly when some entry carries it.
proof fn lemma_entries_dom(es: Seq<(String, JsonValue)>, k: Seq<char>)
    ensures
        entries_model(es).contains_key(k) <==> exists|i: int| 0 <= i < es.len() && es[i].0@ == k,
    decreases es.len(),
{
    if es.len() > 0 {
        let init = es.subrange(0, es.len() - 1);
        lemma_entries_dom(init, k);
        if entries_model(init).contains_key(k) {
            let i = choose|i: int| 0 <= i < init.len() && init[i].0@ == k;
            assert(es[i].0@ == k);
        }
        if exists|i: int| 0 <= i < es.len() && es[i].0@ == k {
            let i = choose|i: int| 0 <= i < es.len() && es[i].0@ == k;
            if i < es.len() - 1 {
                assert(init[i].0@ == k);
            }
        }
    }
}

/// With distinct keys, the map of `es` sends the key of each entry to the model of its value.
proof fn lemma_entries_at(es: Seq<(String, JsonValue)>, i: int)
    requires
        keys_distinct(es),
        0 <= i < es.len(),
    ensures
        entries_model(es).contains_key(es[i].0@),
        entries_model(es)[es[i].0@] == json_model(es[i].1),
    decreases es.len(),
{
    let init = es.subrange(0, es.len() - 1);
    if i < es.len() - 1 {
        assert(keys_distinct(init));
        lemma_entries_at(init, i);
        assert(init[i] == es[i]);
    }
}

/// Replacing the value of an entry replaces the value of its key in the map.
proof fn lemma_entries_update(es: Seq<(String, JsonValue)>, i: int, v: JsonValue)
    requires
        keys_distinct(es),
        0 <= i < es.len(),
    ensures
        keys_distinct(es.update(i, (es[i].0, v))),
        entries_model(es.update(i, (es[i].0, v))) =~= entries_model(es).insert(
            es[i].0@,
            json_model(v),
        ),
{
    let es2 = es.update(i, (es[i].0, v));
    let m1 = entries_model(es);
    let m2 = entries_model(es2);
    assert(keys_distinct(es2));
    assert forall|k: Seq<char>| #[trigger] m2.contains_key(k) <==> m1.insert(es[i].0@, json_model(v)).contains_key(k) by {
        lemma_entries_dom(es, k);
        lemma_entries_dom(es2, k);
        if exists|j: int| 0 <= j < es.len() && es[j].0@ == k {
            let j = choose|j: int| 0 <= j < es.len() && es[j].0@ == k;
            assert(es2[j].0@ == k);
        }
        if exists|j: int| 0 <= j < es2.len() && es2[j].0@ == k {
            let j = choose|j: int| 0 <= j < es2.len() && es2[j].0@ == k;
            assert(es[j].0@ == k);
        }
    }
    assert forall|k: Seq<char>| m2.contains_key(k) implies #[trigger] m2[k] == m1.insert(es[i].0@, json_model(v))[k] by {
        lemma_entries_dom(es2, k);
        let j = choose|j: int| 0 <= j < es2.len() && es2[j].0@ == k;
        lemma_entries_at(es2, j);
        if j != i {
            lemma_entries_at(es, j);
        }
    }
}

/// Removing the last entry removes its key from the map.
proof fn lemma_entries_pop(es: Seq<(String, JsonValue)>)
    requires
        keys_distinct(es),
        es.len() > 0,
    ensures
        !entries_model(es.subrange(0, es.len() - 1)).contains_key(es[es.len() - 1].0@),
{
    let init = es.subrange(0, es.len() - 1);
    lemma_entries_dom(init, es[es.len() - 1].0@);
}

/// With distinct keys, the map of `es` has as many keys as `es` has entries.
proof fn lemma_entries_len(es: Seq<(String, JsonValue)>)
    requires
        keys_distinct(es),
    ensures
        entries_model(es).dom().finite(),
        entries_model(es).dom().len() == es.len(),
    decreases es.len(),
{
    if es.len() > 0 {
        let init = es.subrange(0, es.len() - 1);
        assert(keys_distinct(init));
        lemma_entries_len(init);
        lemma_entries_pop(es);
        assert(entries_model(es).dom() =~= entries_model(init).dom().insert(es[es.len() - 1].0@));
    }
}

impl JsonMap {
    #[verifier::type_invariant]
    closed spec fn wf(self) -> bool {
        keys_distinct(self.entries@)
    }

    /// An empty object.
    pub fn new() -> (res: JsonMap)
        ensures
            res@ == Map::<Seq<char>, JsonModel>::empty(),
    {
        let res = JsonMap { entries: Vec::new() };
        assert(res.entries@.len() == 0);
        res
    }

    /// The position of the entry whose key is `key`, if any.
    fn position(&self, key: &str) -> (res: Option<usize>)
        ensures
            match res {
                Some(i) => i < self.entries@.len() && self.entries@[i as int].0@ == key@,
                None => forall|i: int| 0 <= i < self.entries@.len() ==> self.entries@[i].0@ != key@,
            },
    {
        let mut i: usize = 0;
        while i < self.entries.len()
            invariant
                i <= self.entries@.len(),
                forall|j: int| 0 <= j < i ==> self.entries@[j].0@ != key@,
            decreases self.entries@.len() - i,
        {
            if text_equals(self.entries[i].0.as_str(), key) {
                return Some(i);
            }
            i = i + 1;
        }
        None
    }

    /// Whether the object has the key `key`.
    pub fn contains_key(&self, key: &str) -> (res: bool)
        ensures
            res == self@.contains_key(key@),
    {
        proof {
            lemma_entries_dom(self.entries@, key@);
        }
        self.position(key).is_some()
    }

    /// The value under `key`, if the object has that key.
    pub fn get(&self, key: &str) -> (res: Option<&JsonValue>)
        ensures
            match res {
                Some(v) => self@.contains_key(key@) && self@[key@] == v@,
                None => !self@.contains_key(key@),
            },
    {
        proof {
            use_type_invariant(self);
            lemma_entries_dom(self.entries@, key@);
        }
        match self.position(key) {
            Some(i) => {
                proof {
                    lemma_entries_at(self.entries@, i as int);
                }
                Some(&self.entries[i].1)
            },
            None => None,
        }
    }

    /// Sets the value under `key`, returning the value that was there before.
    pub fn insert(&mut self, key: String, value: JsonValue) -> (res: Option<JsonValue>)
        ensures
            final(self)@ == old(self)@.insert(key@, value@),
            match res {
                Some(v) => old(self)@.contains_key(key@) && old(self)@[key@] == v@,
                None => !old(self)@.contains_key(key@),
            },
    {
        proof {
            use_type_invariant(&*self);
            lemma_entries_dom(self.entries@, key@);
        }
        let pos = self.position(key.as_str());
        let ghost es = self.entries@;
        let mut entries: Vec<(String, JsonValue)> = Vec::new();
        std::mem::swap(&mut entries, &mut self.entries);
        match pos {
            Some(i) => {
                proof {
                    lemma_entries_at(es, i as int);
                    lemma_entries_update(es, i as int, value);
                }
                let (k, old_value) = entries.remove(i);
                entries.insert(i, (k, value));
                assert(entries@ =~= es.update(i as int, (es[i as int].0, value)));
                self.entries = entries;
                Some(old_value)
            },
            None => {
                entries.push((key, value));
                assert(entries@.subrange(0, entries@.len() - 1) =~= es);
                self.entries = entries;
                None
            },
        }
    }

    /// Removes every entry.
    pub fn clear(&mut self)
        ensures
            final(self)@ == Map::<Seq<char>, JsonModel>::empty(),
    {
        self.entries = Vec::new();
        assert(self.entries@.len() == 0);
    }

    /// The keys of the object, each once.
    pub fn keys(&self) -> (res: Vec<String>)
        ensures
            res.deep_view().no_duplicates(),
            forall|k: Seq<char>| #[trigger] res.deep_view().contains(k) <==> self@.contains_key(k),
    {
        proof {
            use_type_invariant(self);
        }
        let mut res: Vec<String> = Vec::new();
        let mut i: usize = 0;
        while i < self.entries.len()
            invariant
                keys_distinct(self.entries@),
                i <= self.entries@.len(),
                res@.len() == i,
                forall|j: int| 0 <= j < i ==> #[trigger] res@[j]@ == self.entries@[j].0@,
            decreases self.entries@.len() - i,
        {
            res.push(self.entries[i].0.clone());
            i = i + 1;
        }
        proof {
            let dv = res.deep_view();
            assert forall|a: int, b: int| 0 <= a < dv.len() && 0 <= b < dv.len() && a != b implies dv[a] != dv[b] by {
                if a < b {
                    assert(self.entries@[a].0@ != self.entries@[b].0@);
                } else {
                    assert(self.entries@[b].0@ != self.entries@[a].0@);
                }
            }
            assert forall|k: Seq<char>| #[trigger] dv.contains(k) <==> self@.contains_key(k) by {
                lemma_entries_dom(self.entries@, k);
                if dv.contains(k) {
                    let j = choose|j: int| 0 <= j < dv.len() && dv[j] == k;
                    assert(self.entries@[j].0@ == k);
                }
                if self@.contains_key(k) {
                    let j = choose|j: int| 0 <= j < self.entries@.len() && self.entries@[j].0@ == k;
                    assert(dv[j] == k);
                }
            }
        }
        res
    }
}

impl JsonValue {
    /// Whether the two values are the same JSON value: objects compare as
    /// maps, whatever the order of their entries.
    pub fn same_as(&self, other: &JsonValue) -> (res: bool)
        ensures
            res == (self@ == other@),
        decreases self,
    {
        match (self, other) {
            (JsonValue::Null, JsonValue::Null) => true,
            (JsonValue::Bool(a), JsonValue::Bool(b)) => *a == *b,
            (JsonValue::Number(a), JsonValue::Number(b)) => text_equals(a.as_str(), b.as_str()),
            (JsonValue::String(a), JsonValue::String(b)) => text_equals(a.as_str(), b.as_str()),
            (JsonValue::Array(a), JsonValue::Array(b)) => {
                proof {
                    lemma_items_model(a@);
                    lemma_items_model(b@);
                }
                if a.len() != b.len() {
                    return false;
                }
                let mut i: usize = 0;
                while i < a.len()
                    invariant
                        *self == JsonValue::Array(*a),
                        *other == JsonValue::Array(*b),
                        a@.len() == b@.len(),
                        i <= a@.len(),
                        items_model(a@).len() == a@.len(),
                        items_model(b@).len() == b@.len(),
                        forall|j: int| 0 <= j < a@.len() ==> #[trigger] items_model(a@)[j] == json_model(a@[j]),
                        forall|j: int| 0 <= j < b@.len() ==> #[trigger] items_model(b@)[j] == json_model(b@[j]),
                        forall|j: int| 0 <= j < i ==> json_model(#[trigger] a@[j]) == json_model(b@[j]),
                    decreases a@.len() - i,
                {
                    proof {
                        assert(decreases_to!(*self => (*self)->Array_0));
                        assert(decreases_to!((*self)->Array_0 => (*self)->Array_0@));
                        assert(decreases_to!((*self)->Array_0@ => (*self)->Array_0@[i as int]));
                    }
                    if !a[i].same_as(&b[i]) {
                        assert(items_model(a@)[i as int] != items_model(b@)[i as int]);
                        return false;
                    }
                    i = i + 1;
                }
                assert(items_model(a@) =~= items_model(b@));
                true
            },
            (JsonValue::Object(a), JsonValue::Object(b)) => a.same_as(b),
            _ => false,
        }
    }
}

impl JsonMap {
    /// Whether the two objects have the same keys with the same values.
    pub fn same_as(&self, other: &JsonMap) -> (res: bool)
        ensures
            res == (self@ == other@),
        decreases self,
    {
        proof {
            use_type_invariant(self);
            use_type_invariant(other);
            lemma_entries_len(self.entries@);
            lemma_entries_len(other.entries@);
        }
        if self.entries.len() != other.entries.len() {
            return false;
        }
        let mut i: usize = 0;
        while i < self.entries.len()
            invariant
                keys_distinct(self.entries@),
                self.entries@.len() == other.entries@.len(),
                self@.dom().finite(),
                other@.dom().finite(),
                self@.dom().len() == self.entries@.len(),
                other@.dom().len() == other.entries@.len(),
                i <= self.entries@.len(),
                forall|j: int|
                    0 <= j < i ==> other@.contains_key(#[trigger] self.entries@[j].0@) && other@[self.entries@[j].0@]
                        == json_model(self.entries@[j].1),
            decreases self.entries@.len() - i,
        {
            proof {
                lemma_entries_at(self.entries@, i as int);
            }
            match other.get(self.entries[i].0.as_str()) {
                Some(w) => {
                    assert(decreases_to!(*self => self.entries@[i as int].1));
                    if !self.entries[i].1.same_as(w) {
                        return false;
                    }
                },
                None => {
                    return false;
                },
            }
            i = i + 1;
        }
        proof {
            assert forall|k: Seq<char>| #[trigger] self@.contains_key(k) implies other@.contains_key(k) && other@[k] == self@[k] by {
                lemma_entries_dom(self.entries@, k);
                let j = choose|j: int| 0 <= j < self.entries@.len() && self.entries@[j].0@ == k;
                lemma_entries_at(self.entries@, j);
            }
            vstd::set_lib::lemma_subset_equality(self@.dom(), other@.dom());
            assert(self@ =~= other@);
        }
        true
    }
}

} // verus!
