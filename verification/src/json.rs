//! JSON documents as plain values: what a promotion carries besides its own
//! fields, and what a request sends.
use crate::text::same_text;
use vstd::prelude::*;

verus! {

/// A JSON document.
///
/// A number is kept as its literal text. An object is a list of entries; where
/// a key stands more than once, the last entry counts.
#[derive(Debug, PartialEq, Eq)]
pub enum Json {
    Null,
    Bool(bool),
    Number(String),
    Text(String),
    Array(Vec<Json>),
    Object(Vec<(String, Json)>),
}

/// What a JSON document says.
#[verifier::ext_equal]
pub enum JsonModel {
    Null,
    Bool(bool),
    Number(Seq<char>),
    Text(Seq<char>),
    Array(Seq<JsonModel>),
    Object(Map<Seq<char>, JsonModel>),
}

impl Json {
    pub open spec fn model(self) -> JsonModel
        decreases self,
    {
        match self {
            Json::Null => JsonModel::Null,
            Json::Bool(b) => JsonModel::Bool(b),
            Json::Number(n) => JsonModel::Number(n@),
            Json::Text(t) => JsonModel::Text(t@),
            Json::Array(items) => JsonModel::Array(array_model(items@)),
            Json::Object(entries) => JsonModel::Object(object_model(entries@)),
        }
    }
}

impl View for Json {
    type V = JsonModel;

    open spec fn view(&self) -> JsonModel {
        self.model()
    }
}

/// What the items of an array say.
pub open spec fn array_model(items: Seq<Json>) -> Seq<JsonModel>
    decreases items,
{
    if items.len() == 0 {
        Seq::empty()
    } else {
        array_model(items.drop_last()).push(items.last().model())
    }
}

/// What the entries of an object say: a later entry replaces an earlier one.
pub open spec fn object_model(entries: Seq<(String, Json)>) -> Map<Seq<char>, JsonModel>
    decreases entries,
{
    if entries.len() == 0 {
        Map::empty()
    } else {
        object_model(entries.drop_last()).insert(entries.last().0@, entries.last().1.model())
    }
}

impl JsonModel {
    /// The value under a key of an object.
    pub open spec fn field(self, key: Seq<char>) -> Option<JsonModel> {
        match self {
            JsonModel::Object(m) => if m.dom().contains(key) {
                Some(m[key])
            } else {
                None
            },
            _ => None,
        }
    }

    /// The object with one key set; a null document counts as an empty object.
    pub open spec fn with(self, key: Seq<char>, value: JsonModel) -> JsonModel {
        match self {
            JsonModel::Object(m) => JsonModel::Object(m.insert(key, value)),
            _ => JsonModel::Object(Map::empty().insert(key, value)),
        }
    }

    /// Whether keys can be set in the document.
    pub open spec fn takes_fields(self) -> bool {
        self is Null || self is Object
    }

    /// The text of a string.
    pub open spec fn as_text(self) -> Option<Seq<char>> {
        match self {
            JsonModel::Text(t) => Some(t),
            _ => None,
        }
    }
}

/// An array says at each position what the item there says.
pub proof fn lemma_array_model(items: Seq<Json>)
    ensures
        array_model(items).len() == items.len(),
        forall|i: int| 0 <= i < items.len() ==> #[trigger] array_model(items)[i] == items[i].model(),
    decreases items.len(),
{
    if items.len() > 0 {
        lemma_array_model(items.drop_last());
        assert forall|i: int| 0 <= i < items.len() implies #[trigger] array_model(items)[i]
            == items[i].model() by {
            if i < items.len() - 1 {
                assert(items.drop_last()[i] == items[i]);
            }
        }
    }
}

/// Whether `key` stands in no entry from position `from` on.
pub open spec fn key_absent_from(
    entries: Seq<(String, Json)>,
    key: Seq<char>,
    from: int,
) -> bool {
    forall|j: int| from <= j < entries.len() ==> #[trigger] entries[j].0@ != key
}

proof fn lemma_object_lookup(entries: Seq<(String, Json)>, key: Seq<char>, at: int)
    requires
        -1 <= at < entries.len(),
        at >= 0 ==> entries[at].0@ == key,
        key_absent_from(entries, key, at + 1),
    ensures
        object_model(entries).dom().contains(key) == (at >= 0),
        at >= 0 ==> object_model(entries)[key] == entries[at].1.model(),
    decreases entries.len(),
{
    if entries.len() > 0 && at < entries.len() - 1 {
        let shorter = entries.drop_last();
        assert forall|j: int| at + 1 <= j < shorter.len() implies #[trigger] shorter[j].0@
            != key by {
            assert(shorter[j] == entries[j]);
        }
        assert(entries[entries.len() - 1].0@ != key);
        lemma_object_lookup(shorter, key, at);
    }
}

proof fn lemma_object_replace(entries: Seq<(String, Json)>, at: int, entry: (String, Json))
    requires
        0 <= at < entries.len(),
        entries[at].0@ == entry.0@,
        key_absent_from(entries, entry.0@, at + 1),
    ensures
        object_model(entries.update(at, entry)) =~= object_model(entries).insert(
            entry.0@,
            entry.1.model(),
        ),
    decreases entries.len(),
{
    let updated = entries.update(at, entry);
    if at == entries.len() - 1 {
        assert(updated.drop_last() =~= entries.drop_last());
    } else {
        let shorter = entries.drop_last();
        assert forall|j: int| at + 1 <= j < shorter.len() implies #[trigger] shorter[j].0@
            != entry.0@ by {
            assert(shorter[j] == entries[j]);
        }
        assert(entries[entries.len() - 1].0@ != entry.0@);
        lemma_object_replace(shorter, at, entry);
        assert(updated.drop_last() =~= shorter.update(at, entry));
        assert(updated.last() == entries.last());
    }
}

/// The position of the entry that counts for a key.
fn entry_of(entries: &Vec<(String, Json)>, key: &str) -> (r: Option<usize>)
    ensures
        match r {
            Some(i) => i < entries@.len() && entries@[i as int].0@ == key@ && key_absent_from(
                entries@,
                key@,
                i + 1,
            ),
            None => key_absent_from(entries@, key@, 0),
        },
{
    let mut i: usize = entries.len();
    while i > 0
        invariant
            i <= entries@.len(),
            key_absent_from(entries@, key@, i as int),
        decreases i,
    {
        i -= 1;
        if same_text(entries[i].0.as_str(), key) {
            return Some(i);
        }
    }
    None
}

impl Json {
    /// A string document.
    pub fn text(s: &str) -> (r: Json)
        ensures
            r@ == JsonModel::Text(s@),
    {
        Json::Text(s.to_owned())
    }

    /// An object without entries.
    pub fn object() -> (r: Json)
        ensures
            r@ == JsonModel::Object(Map::empty()),
    {
        Json::Object(Vec::new())
    }

    /// An array of one item.
    pub fn list_of(item: Json) -> (r: Json)
        ensures
            r@ == JsonModel::Array(seq![item@]),
    {
        let mut items: Vec<Json> = Vec::new();
        items.push(item);
        proof {
            lemma_array_model(items@);
            assert(array_model(items@) =~= seq![item@]);
        }
        Json::Array(items)
    }

    /// Sets one key of an object; a null document becomes an object first.
    pub fn with(self, key: &str, value: Json) -> (r: Json)
        requires
            self@.takes_fields(),
        ensures
            r@ == self@.with(key@, value@),
    {
        let mut entries: Vec<(String, Json)> = match self {
            Json::Object(entries) => entries,
            _ => Vec::new(),
        };
        let ghost before = entries@;
        let ghost fields = object_model(before);
        proof {
            assert(self@.with(key@, value@) == JsonModel::Object(
                fields.insert(key@, value.model()),
            ));
        }
        let entry: (String, Json) = (key.to_owned(), value);
        match entry_of(&entries, key) {
            Some(i) => {
                proof {
                    lemma_object_replace(before, i as int, entry);
                }
                entries.set(i, entry);
            },
            None => {
                entries.push(entry);
                proof {
                    assert(entries@.drop_last() =~= before);
                    assert(object_model(entries@) == fields.insert(key@, value.model()));
                }
            },
        }
        Json::Object(entries)
    }

    /// The value under a key; `None` where the key is missing or the document
    /// is no object.
    pub fn get(&self, key: &str) -> (r: Option<&Json>)
        ensures
            match r {
                Some(v) => self@.field(key@) == Some(v@),
                None => self@.field(key@) is None,
            },
    {
        match self {
            Json::Object(entries) => match entry_of(entries, key) {
                Some(i) => {
                    proof {
                        lemma_object_lookup(entries@, key@, i as int);
                    }
                    Some(&entries[i].1)
                },
                None => {
                    proof {
                        lemma_object_lookup(entries@, key@, -1);
                    }
                    None
                },
            },
            _ => None,
        }
    }

    /// The text of a string document.
    pub fn as_text(&self) -> (r: Option<&str>)
        ensures
            match r {
                Some(t) => self@.as_text() == Some(t@),
                None => self@.as_text() is None,
            },
    {
        match self {
            Json::Text(t) => Some(t.as_str()),
            _ => None,
        }
    }
}

impl Clone for Json {
    fn clone(&self) -> (r: Json)
        ensures
            r@ == self@,
        decreases self,
    {
        match self {
            Json::Null => Json::Null,
            Json::Bool(b) => Json::Bool(*b),
            Json::Number(n) => Json::Number(n.clone()),
            Json::Text(t) => Json::Text(t.clone()),
            Json::Array(items) => {
                let mut copy: Vec<Json> = Vec::new();
                let mut i: usize = 0;
                while i < items.len()
                    invariant
                        i <= items@.len(),
                        array_model(copy@) == array_model(items@.take(i as int)),
                        decreases_to!(self => items@),
                    decreases items.len() - i,
                {
                    let ghost before = copy@;
                    copy.push(items[i].clone());
                    proof {
                        assert(copy@.drop_last() =~= before);
                        assert(items@.take(i + 1).drop_last() =~= items@.take(i as int));
                    }
                    i += 1;
                }
                proof {
                    assert(items@.take(items@.len() as int) =~= items@);
                }
                Json::Array(copy)
            },
            Json::Object(entries) => {
                let mut copy: Vec<(String, Json)> = Vec::new();
                let mut i: usize = 0;
                while i < entries.len()
                    invariant
                        i <= entries@.len(),
                        object_model(copy@) == object_model(entries@.take(i as int)),
                        decreases_to!(self => entries@),
                    decreases entries.len() - i,
                {
                    let ghost before = copy@;
                    let value: Json = entries[i].1.clone();
                    copy.push((entries[i].0.clone(), value));
                    proof {
                        assert(copy@.drop_last() =~= before);
                        assert(entries@.take(i + 1).drop_last() =~= entries@.take(i as int));
                    }
                    i += 1;
                }
                proof {
                    assert(entries@.take(entries@.len() as int) =~= entries@);
                }
                Json::Object(copy)
            },
        }
    }
}

/// A key that is set holds the value it was set to, and every other key what
/// it held before.
pub proof fn law_set_key_holds_its_value(
    document: JsonModel,
    key: Seq<char>,
    value: JsonModel,
    other: Seq<char>,
)
    requires
        document is Null || document is Object,
    ensures
        document.with(key, value) is Object,
        document.with(key, value).field(key) == Some(value),
        other != key ==> document.with(key, value).field(other) == document.field(other),
{
}

/// A key of an object holds the value of the last entry for it, and nothing
/// where there is no entry for it. Nothing else has keys.
pub proof fn law_last_entry_counts(
    before: Seq<(String, Json)>,
    entry: (String, Json),
    behind: Seq<(String, Json)>,
    key: Seq<char>,
    document: JsonModel,
)
    requires
        forall|j: int| 0 <= j < behind.len() ==> (#[trigger] behind[j]).0@ != key,
    ensures
        entry.0@ == key ==> JsonModel::Object(
            object_model(before.push(entry) + behind),
        ).field(key) == Some(entry.1@),
        JsonModel::Object(object_model(behind)).field(key) is None,
        !(document is Object) ==> document.field(key) is None,
{
    lemma_object_lookup(behind, key, -1);
    if entry.0@ == key {
        let all = before.push(entry) + behind;
        assert forall|j: int| before.len() + 1 <= j < all.len() implies #[trigger] all[j].0@
            != key by {
            assert(all[j] == behind[j - before.len() - 1]);
        }
        assert(all[before.len() as int] == entry);
        lemma_object_lookup(all, key, before.len() as int);
    }
}

/// A document says what it holds: its text, its items in order, its entries.
/// Fields can be set in an object and where there is nothing yet.
pub proof fn law_document_says_what_it_holds(
    flag: bool,
    text: String,
    items: Vec<Json>,
    entries: Vec<(String, Json)>,
    i: int,
)
    requires
        0 <= i < items@.len(),
    ensures
        Json::Null@ is Null,
        Json::Bool(flag)@ == JsonModel::Bool(flag),
        Json::Number(text)@ == JsonModel::Number(text@),
        Json::Text(text)@ == JsonModel::Text(text@),
        Json::Text(text)@.as_text() == Some(text@),
        Json::Number(text)@.as_text() is None,
        Json::Array(items)@ matches JsonModel::Array(said) && said.len() == items@.len() && said[i]
            == items@[i]@,
        Json::Object(entries)@ == JsonModel::Object(object_model(entries@)),
        Json::Null@.takes_fields(),
        Json::Object(entries)@.takes_fields(),
        !Json::Bool(flag)@.takes_fields(),
        !Json::Number(text)@.takes_fields(),
        !Json::Text(text)@.takes_fields(),
        !Json::Array(items)@.takes_fields(),
{
    lemma_array_model(items@);
}

} // verus!
