//! JSON documents.
//!
//! [`Json`] is the tree that the rest of the crate reads and builds. Its view, [`JsonView`],
//! forgets the order in which an object lists its fields: a field is what the last entry of
//! that name holds. Reading and writing JSON text is left to `serde_json`.

use crate::text::same;
use vstd::prelude::*;
use vstd::string::*;
use vstd::utf8::*;

verus! {

/// The number type of `serde_json`. Numbers of a document are carried through, never read.
#[verifier::external_type_specification]
#[verifier::external_body]
pub struct ExNumber(serde_json::Number);

/// The document type of `serde_json`.
#[verifier::external_type_specification]
#[verifier::external_body]
pub struct ExValue(serde_json::Value);

/// The error type of `serde_json`.
#[verifier::external_type_specification]
#[verifier::external_body]
pub struct ExJsonError(serde_json::Error);

/// A JSON document. An object lists its fields; the last entry of a name counts.
#[derive(Debug, PartialEq)]
pub enum Json {
    Null,
    Bool(bool),
    Number(serde_json::Number),
    Text(String),
    Array(Vec<Json>),
    Object(Vec<(String, Json)>),
}

/// What a JSON document means.
pub enum JsonView {
    Null,
    Bool(bool),
    Number(serde_json::Number),
    Text(Seq<char>),
    Array(Seq<JsonView>),
    Object(Map<Seq<char>, JsonView>),
}

impl Json {
    /// What this document means.
    pub open spec fn view(&self) -> JsonView
        decreases self,
    {
        match self {
            Json::Null => JsonView::Null,
            Json::Bool(b) => JsonView::Bool(*b),
            Json::Number(n) => JsonView::Number(*n),
            Json::Text(s) => JsonView::Text(s@),
            Json::Array(items) => JsonView::Array(
                Seq::new(
                    items@.len(),
                    |i: int|
                        if 0 <= i < items@.len() {
                            items@[i].view()
                        } else {
                            JsonView::Null
                        },
                ),
            ),
            Json::Object(fields) => JsonView::Object(Json::fields_view(fields@)),
        }
    }

    /// What a list of fields means: each name stands for the value it was given last.
    pub open spec fn fields_view(fields: Seq<(String, Json)>) -> Map<Seq<char>, JsonView>
        decreases fields,
    {
        if fields.len() == 0 {
            Map::empty()
        } else {
            Json::fields_view(fields.drop_last()).insert(
                fields.last().0@,
                fields.last().1.view(),
            )
        }
    }
}

impl JsonView {
    /// The value of a field, if this is an object that has it.
    pub open spec fn get(self, name: Seq<char>) -> Option<JsonView> {
        match self {
            JsonView::Object(fields) => if fields.contains_key(name) {
                Some(fields[name])
            } else {
                None
            },
            _ => None,
        }
    }

    /// The value of a field, or null.
    pub open spec fn field(self, name: Seq<char>) -> JsonView {
        match self.get(name) {
            Some(value) => value,
            None => JsonView::Null,
        }
    }

    /// The object without fields.
    pub open spec fn object() -> JsonView {
        JsonView::Object(Map::empty())
    }

    /// This object with a field set; anything but an object stays as it is.
    pub open spec fn with(self, name: Seq<char>, value: JsonView) -> JsonView {
        match self {
            JsonView::Object(fields) => JsonView::Object(fields.insert(name, value)),
            _ => self,
        }
    }

    /// The text, if this is one.
    pub open spec fn text(self) -> Option<Seq<char>> {
        match self {
            JsonView::Text(s) => Some(s),
            _ => None,
        }
    }

    /// The items, if this is an array.
    pub open spec fn items(self) -> Option<Seq<JsonView>> {
        match self {
            JsonView::Array(items) => Some(items),
            _ => None,
        }
    }
}

/// What a `serde_json::Value` holds. Two values that hold the same differ in nothing that
/// `serde_json` reads or writes, since its objects keep their fields sorted by name.
pub uninterp spec fn document(value: serde_json::Value) -> JsonView;

/// What `serde_json::from_slice` reads from a text, where it can.
pub uninterp spec fn document_in(bytes: Seq<u8>) -> Option<JsonView>;

/// The compact text that `serde_json` writes for a document.
pub uninterp spec fn text_of(document: JsonView) -> Seq<char>;

/// The number that `serde_json` makes of an integer that it can hold.
pub uninterp spec fn integer(n: i128) -> serde_json::Number;

/// Whether `serde_json` can hold an integer.
pub open spec fn is_held(n: i128) -> bool {
    i64::MIN <= n <= u64::MAX
}

/// One level of a `serde_json::Value`.
enum Node {
    Null,
    Bool(bool),
    Number(serde_json::Number),
    Text(String),
    Array(Vec<serde_json::Value>),
    Object(Vec<(String, serde_json::Value)>),
}

impl Node {
    /// What the value with this outermost level holds.
    spec fn view(&self) -> JsonView {
        match self {
            Node::Null => JsonView::Null,
            Node::Bool(b) => JsonView::Bool(*b),
            Node::Number(n) => JsonView::Number(*n),
            Node::Text(s) => JsonView::Text(s@),
            Node::Array(items) => JsonView::Array(
                items@.map_values(|item: serde_json::Value| document(item)),
            ),
            Node::Object(fields) => JsonView::Object(Node::fields_view(fields@)),
        }
    }

    /// What a list of fields holds: each name stands for the value it was given last.
    spec fn fields_view(fields: Seq<(String, serde_json::Value)>) -> Map<
        Seq<char>,
        JsonView,
    >
        decreases fields.len(),
    {
        if fields.len() == 0 {
            Map::empty()
        } else {
            Node::fields_view(fields.drop_last()).insert(
                fields.last().0@,
                document(fields.last().1),
            )
        }
    }
}

/// Whether no two fields of a list have the same name.
spec fn names_differ(fields: Seq<(String, serde_json::Value)>) -> bool {
    forall|i: int, j: int|
        0 <= i < j < fields.len() ==> (#[trigger] fields[i]).0@ != (#[trigger] fields[j]).0@
}

/// Whether `document` nests at most `depth` containers and holds no number but integers.
pub open spec fn is_plain(document: JsonView, depth: nat) -> bool
    decreases depth,
{
    match document {
        JsonView::Null | JsonView::Bool(_) | JsonView::Text(_) => true,
        JsonView::Number(n) => exists|k: i128| is_held(k) && n == #[trigger] integer(k),
        JsonView::Array(items) => depth > 0 && forall|i: int|
            0 <= i < items.len() ==> is_plain(#[trigger] items[i], (depth - 1) as nat),
        JsonView::Object(fields) => depth > 0 && forall|name: Seq<char>|
            fields.contains_key(name) ==> is_plain(#[trigger] fields[name], (depth - 1) as nat),
    }
}

/// Calls `serde_json::from_slice`, which reads one document and nothing after it but white
/// space. Claims that the outcome is a function of the bytes.
#[verifier::external_body]
fn read_value(bytes: &[u8]) -> (r: Result<serde_json::Value, serde_json::Error>)
    ensures
        match r {
            Ok(value) => document_in(bytes@) == Some(document(value)),
            Err(_) => document_in(bytes@) is None,
        },
{
    serde_json::from_slice::<serde_json::Value>(bytes)
}

/// Takes the outermost level of a `serde_json::Value` off, variant by variant. Claims that
/// the level and the values below it hold what the value held, and that an object names no
/// field twice.
#[verifier::external_body]
fn take_level(value: serde_json::Value) -> (r: Node)
    ensures
        r@ == document(value),
        r matches Node::Object(fields) ==> names_differ(fields@),
{
    match value {
        serde_json::Value::Null => Node::Null,
        serde_json::Value::Bool(b) => Node::Bool(b),
        serde_json::Value::Number(n) => Node::Number(n),
        serde_json::Value::String(s) => Node::Text(s),
        serde_json::Value::Array(items) => Node::Array(items),
        serde_json::Value::Object(fields) => Node::Object(fields.into_iter().collect()),
    }
}

/// Makes the `serde_json::Value` with a given outermost level, variant by variant. The fields
/// of an object, no two of which have the same name, are collected into `serde_json::Map`.
/// Claims that the value holds what the level and the values below it held.
#[verifier::external_body]
fn make_value(node: Node) -> (r: serde_json::Value)
    requires
        node matches Node::Object(fields) ==> names_differ(fields@),
    ensures
        document(r) == node@,
{
    match node {
        Node::Null => serde_json::Value::Null,
        Node::Bool(b) => serde_json::Value::Bool(b),
        Node::Number(n) => serde_json::Value::Number(n),
        Node::Text(s) => serde_json::Value::String(s),
        Node::Array(items) => serde_json::Value::Array(items),
        Node::Object(fields) => serde_json::Value::Object(fields.into_iter().collect()),
    }
}

/// Calls `Display` of `serde_json::Value`, which writes compact JSON. Claims that the text is
/// a function of what the value holds, and that `serde_json` reads a plain document back from
/// its text. It accepts 127 nested containers. Nothing is said of reading back a document
/// that holds a fraction.
#[verifier::external_body]
fn write_value(value: &serde_json::Value) -> (r: String)
    ensures
        r@ == text_of(document(*value)),
        is_plain(document(*value), 127) ==> document_in(encode_utf8(r@)) == Some(
            document(*value),
        ),
{
    value.to_string()
}

/// Calls `serde_json::Number::from_i128`. Claims that there is a number for exactly the
/// integers from the least `i64` to the greatest `u64`, and that it is a function of the
/// integer.
#[verifier::external_body]
fn number(n: i128) -> (r: Option<serde_json::Number>)
    ensures
        r == (if is_held(n) {
            Some(integer(n))
        } else {
            None
        }),
{
    serde_json::Number::from_i128(n)
}

/// Calls `Clone` of `serde_json::Number`. Claims that the copy is the number.
#[verifier::external_body]
fn copy_number(n: &serde_json::Number) -> (r: serde_json::Number)
    ensures
        r == *n,
{
    n.clone()
}

/// The meanings of a list of documents.
pub open spec fn views(items: Seq<Json>) -> Seq<JsonView> {
    items.map_values(|item: Json| item@)
}

/// The field at `at` of a list without double names is what its name stands for.
proof fn lemma_field(fields: Seq<(String, serde_json::Value)>, at: int)
    requires
        names_differ(fields),
        0 <= at < fields.len(),
    ensures
        Node::fields_view(fields).contains_key(fields[at].0@),
        Node::fields_view(fields)[fields[at].0@] == document(fields[at].1),
    decreases fields.len(),
{
    if at < fields.len() - 1 {
        let rest = fields.drop_last();
        assert(fields[at].0@ != fields[fields.len() - 1].0@);
        assert(names_differ(rest)) by {
            assert forall|i: int, j: int| 0 <= i < j < rest.len() implies (#[trigger] rest[i]).0@
                != (#[trigger] rest[j]).0@ by {
                assert(fields[i].0@ != fields[j].0@);
            }
        }
        lemma_field(rest, at);
    }
}

proof fn lemma_fields_finite(fields: Seq<(String, serde_json::Value)>)
    ensures
        Node::fields_view(fields).dom().finite(),
    decreases fields.len(),
{
    if fields.len() > 0 {
        lemma_fields_finite(fields.drop_last());
    }
}

/// Converts a `serde_json::Value` into a document.
fn from_value(value: serde_json::Value) -> (r: Json)
    ensures
        r@ == document(value),
    decreases document(value),
{
    let ghost whole = document(value);
    match take_level(value) {
        Node::Null => Json::Null,
        Node::Bool(b) => Json::Bool(b),
        Node::Number(n) => Json::Number(n),
        Node::Text(s) => Json::Text(s),
        Node::Array(values) => {
            let ghost all = values@;
            let mut items: Vec<Json> = Vec::new();
            for part in it: values
                invariant
                    it.seq() == all,
                    whole == document(value),
                    whole == JsonView::Array(all.map_values(|v: serde_json::Value| document(v))),
                    items@.len() == it.index(),
                    forall|i: int|
                        0 <= i < items@.len() ==> (#[trigger] items@[i])@ == document(all[i]),
            {
                proof {
                    let seq = whole->Array_0;
                    assert(decreases_to!(whole => seq));
                    assert(decreases_to!(seq => seq[it.index()]));
                    assert(seq[it.index()] == document(part));
                }
                items.push(from_value(part));
            }
            let r = Json::Array(items);
            assert(r@->Array_0 =~= whole->Array_0);
            r
        },
        Node::Object(entries) => {
            let ghost all = entries@;
            let mut fields: Vec<(String, Json)> = Vec::new();
            for entry in it: entries
                invariant
                    it.seq() == all,
                    whole == document(value),
                    names_differ(all),
                    whole == JsonView::Object(Node::fields_view(all)),
                    fields@.len() == it.index(),
                    Json::fields_view(fields@) == Node::fields_view(all.take(it.index())),
            {
                let ghost at = it.index();
                let ghost before = fields@;
                proof {
                    lemma_field(all, at);
                    lemma_fields_finite(all);
                    let map = whole->Object_0;
                    assert(decreases_to!(whole => map));
                    assert(decreases_to!(map => map[all[at].0@]));
                }
                let (name, part) = entry;
                let item = from_value(part);
                fields.push((name, item));
                proof {
                    assert(fields@.drop_last() =~= before);
                    assert(all.take(at + 1).drop_last() =~= all.take(at));
                }
            }
            proof {
                assert(all.take(all.len() as int) =~= all);
            }
            Json::Object(fields)
        },
    }
}

/// To set a field of a list without double names changes what its name stands for, and
/// nothing else.
proof fn lemma_set_field(
    fields: Seq<(String, serde_json::Value)>,
    at: int,
    entry: (String, serde_json::Value),
)
    requires
        names_differ(fields),
        0 <= at < fields.len(),
        fields[at].0@ == entry.0@,
    ensures
        names_differ(fields.update(at, entry)),
        Node::fields_view(fields.update(at, entry)) == Node::fields_view(fields).insert(
            entry.0@,
            document(entry.1),
        ),
    decreases fields.len(),
{
    let set = fields.update(at, entry);
    assert forall|i: int, j: int| 0 <= i < j < set.len() implies (#[trigger] set[i]).0@ != (
    #[trigger] set[j]).0@ by {
        assert(fields[i].0@ != fields[j].0@);
    }
    let rest = fields.drop_last();
    let last = fields.len() - 1;
    if at == last {
        assert(set.drop_last() =~= rest);
        assert(Node::fields_view(set) =~= Node::fields_view(fields).insert(
            entry.0@,
            document(entry.1),
        ));
    } else {
        assert(names_differ(rest)) by {
            assert forall|i: int, j: int| 0 <= i < j < rest.len() implies (#[trigger] rest[i]).0@
                != (#[trigger] rest[j]).0@ by {
                assert(fields[i].0@ != fields[j].0@);
            }
        }
        lemma_set_field(rest, at, entry);
        assert(set.drop_last() =~= rest.update(at, entry));
        assert(fields[at].0@ != fields[last].0@);
        assert(Node::fields_view(set) =~= Node::fields_view(fields).insert(
            entry.0@,
            document(entry.1),
        ));
    }
}

/// Sets a field of a list without double names: the value of its name is replaced, or added
/// where the name is new.
fn set_field(
    fields: &mut Vec<(String, serde_json::Value)>,
    name: String,
    value: serde_json::Value,
)
    requires
        names_differ(old(fields)@),
    ensures
        names_differ(final(fields)@),
        Node::fields_view(final(fields)@) == Node::fields_view(old(fields)@).insert(
            name@,
            document(value),
        ),
{
    let ghost before = fields@;
    let count: usize = fields.len();
    for i in 0..count
        invariant
            count == before.len(),
            fields@ == before,
            before == old(fields)@,
            names_differ(before),
            forall|j: int| 0 <= j < i ==> (#[trigger] before[j]).0@ != name@,
    {
        if same(fields[i].0.as_str(), name.as_str()) {
            let entry = (name, value);
            proof {
                lemma_set_field(before, i as int, entry);
            }
            fields.set(i, entry);
            return;
        }
    }
    fields.push((name, value));
    proof {
        assert(fields@.drop_last() =~= before);
        assert forall|i: int, j: int| 0 <= i < j < fields@.len() implies (
        #[trigger] fields@[i]).0@ != (#[trigger] fields@[j]).0@ by {
            if j < before.len() {
                assert(before[i].0@ != before[j].0@);
            } else {
                assert(before[i].0@ != name@);
            }
        }
    }
}

/// Converts a document into a `serde_json::Value`.
fn to_value(json: &Json) -> (r: serde_json::Value)
    ensures
        document(r) == json@,
    decreases json,
{
    match json {
        Json::Null => make_value(Node::Null),
        Json::Bool(b) => make_value(Node::Bool(*b)),
        Json::Number(n) => make_value(Node::Number(copy_number(n))),
        Json::Text(s) => make_value(Node::Text(s.clone())),
        Json::Array(items) => {
            let mut values: Vec<serde_json::Value> = Vec::new();
            for i in 0..items.len()
                invariant
                    json == Json::Array(*items),
                    values@.len() == i,
                    forall|j: int|
                        0 <= j < i ==> document(#[trigger] values@[j]) == items@[j]@,
            {
                proof {
                    assert(decreases_to!(json => json->Array_0));
                    assert(decreases_to!(items => items@));
                    assert(decreases_to!(items@ => items@[i as int]));
                }
                values.push(to_value(&items[i]));
            }
            let node = Node::Array(values);
            assert(node@->Array_0 =~= json@->Array_0);
            make_value(node)
        },
        Json::Object(fields) => {
            let mut entries: Vec<(String, serde_json::Value)> = Vec::new();
            for i in 0..fields.len()
                invariant
                    json == Json::Object(*fields),
                    names_differ(entries@),
                    Node::fields_view(entries@) == Json::fields_view(fields@.take(i as int)),
            {
                let entry: &(String, Json) = &fields[i];
                proof {
                    assert(decreases_to!(json => json->Object_0));
                    assert(decreases_to!(fields => fields@));
                    assert(decreases_to!(fields@ => fields@[i as int]));
                    assert(decreases_to!(fields@[i as int] => fields@[i as int].1));
                }
                set_field(&mut entries, entry.0.clone(), to_value(&entry.1));
                proof {
                    assert(fields@.take(i + 1).drop_last() =~= fields@.take(i as int));
                }
            }
            proof {
                assert(fields@.take(fields@.len() as int) =~= fields@);
            }
            make_value(Node::Object(entries))
        },
    }
}

impl Clone for Json {
    fn clone(&self) -> (r: Json)
        ensures
            r@ == self@,
        decreases self,
    {
        match self {
            Json::Null => Json::Null,
            Json::Bool(b) => Json::Bool(*b),
            Json::Number(n) => Json::Number(copy_number(n)),
            Json::Text(s) => Json::Text(s.clone()),
            Json::Array(items) => {
                let mut copies: Vec<Json> = Vec::new();
                for i in 0..items.len()
                    invariant
                        self == Json::Array(*items),
                        copies@.len() == i,
                        forall|j: int| 0 <= j < i ==> (#[trigger] copies@[j])@ == items@[j]@,
                {
                    proof {
                        assert(decreases_to!(self => self->Array_0));
                        assert(decreases_to!(items => items@));
                        assert(decreases_to!(items@ => items@[i as int]));
                    }
                    copies.push(items[i].clone());
                }
                let r = Json::Array(copies);
                assert(r@->Array_0 =~= self@->Array_0);
                r
            },
            Json::Object(fields) => {
                let mut copies: Vec<(String, Json)> = Vec::new();
                for i in 0..fields.len()
                    invariant
                        self == Json::Object(*fields),
                        copies@.len() == i,
                        Json::fields_view(copies@) == Json::fields_view(fields@.take(i as int)),
                {
                    let ghost before = copies@;
                    let entry: &(String, Json) = &fields[i];
                    proof {
                        assert(decreases_to!(self => self->Object_0));
                        assert(decreases_to!(fields => fields@));
                        assert(decreases_to!(fields@ => fields@[i as int]));
                        assert(decreases_to!(fields@[i as int] => fields@[i as int].1));
                    }
                    copies.push((entry.0.clone(), entry.1.clone()));
                    proof {
                        assert(copies@.drop_last() =~= before);
                        assert(fields@.take(i + 1).drop_last() =~= fields@.take(i as int));
                    }
                }
                proof {
                    assert(fields@.take(fields@.len() as int) =~= fields@);
                }
                Json::Object(copies)
            },
        }
    }
}

/// A field that is listed last is what its name stands for; what is listed before stays.
proof fn lemma_last_entry(fields: Seq<(String, Json)>, n: int, name: Seq<char>)
    requires
        0 <= n <= fields.len(),
        forall|i: int| n <= i < fields.len() ==> (#[trigger] fields[i]).0@ != name,
    ensures
        Json::fields_view(fields).contains_key(name) == Json::fields_view(
            fields.take(n),
        ).contains_key(name),
        Json::fields_view(fields).contains_key(name) ==> Json::fields_view(fields)[name]
            == Json::fields_view(fields.take(n))[name],
    decreases fields.len(),
{
    if n == fields.len() {
        assert(fields.take(n) =~= fields);
    } else {
        assert(fields[fields.len() - 1].0@ != name);
        lemma_last_entry(fields.drop_last(), n, name);
        assert(fields.drop_last().take(n) =~= fields.take(n));
    }
}

impl Json {
    /// Reads a JSON text.
    pub fn parse(bytes: &[u8]) -> (r: Option<Json>)
        ensures
            match r {
                Some(json) => document_in(bytes@) == Some(json@),
                None => document_in(bytes@) is None,
            },
    {
        match read_value(bytes) {
            Ok(value) => Some(from_value(value)),
            Err(_) => None,
        }
    }

    /// Writes the document as compact JSON.
    pub fn to_text(&self) -> (r: String)
        ensures
            r@ == text_of(self@),
            is_plain(self@, 127) ==> document_in(encode_utf8(r@)) == Some(self@),
    {
        write_value(&to_value(self))
    }

    /// Makes a number of an unsigned integer.
    pub fn whole(n: u64) -> (r: Json)
        ensures
            r@ == JsonView::Number(integer(n as i128)),
    {
        match number(n as i128) {
            Some(n) => Json::Number(n),
            None => Json::Null,
        }
    }

    /// Makes a text.
    pub fn text(s: &str) -> (r: Json)
        ensures
            r@ == JsonView::Text(s@),
    {
        Json::Text(s.to_owned())
    }

    /// Makes an array.
    pub fn array(items: Vec<Json>) -> (r: Json)
        ensures
            r@ == JsonView::Array(views(items@)),
    {
        let r = Json::Array(items);
        assert(r@->Array_0 =~= views(items@));
        r
    }

    /// Makes the object without fields.
    pub fn object() -> (r: Json)
        ensures
            r@ == JsonView::object(),
    {
        let fields: Vec<(String, Json)> = Vec::new();
        assert(Json::fields_view(fields@) == Map::<Seq<char>, JsonView>::empty());
        Json::Object(fields)
    }

    /// Sets a field of an object. Anything but an object stays as it is.
    pub fn with(self, name: &str, value: Json) -> (r: Json)
        ensures
            r@ == self@.with(name@, value@),
    {
        match self {
            Json::Object(fields) => {
                let mut fields = fields;
                let ghost before = fields@;
                fields.push((name.to_owned(), value));
                assert(fields@.drop_last() =~= before);
                assert(Json::fields_view(fields@) == Json::fields_view(before).insert(
                    name@,
                    value@,
                ));
                Json::Object(fields)
            },
            other => other,
        }
    }

    /// Looks a field up, if the document is an object.
    pub fn get(&self, name: &str) -> (r: Option<&Json>)
        ensures
            match r {
                Some(value) => self@.get(name@) == Some(value@),
                None => self@.get(name@) is None,
            },
    {
        match self {
            Json::Object(fields) => {
                let mut n: usize = fields.len();
                while n > 0
                    invariant
                        self == Json::Object(*fields),
                        n <= fields@.len(),
                        forall|i: int|
                            n <= i < fields@.len() ==> (#[trigger] fields@[i]).0@ != name@,
                    decreases n,
                {
                    n = n - 1;
                    let entry: &(String, Json) = &fields[n];
                    if same(entry.0.as_str(), name) {
                        proof {
                            lemma_last_entry(fields@, n + 1, name@);
                            assert(fields@.take(n + 1).last() == fields@[n as int]);
                        }
                        return Some(&entry.1);
                    }
                }
                proof {
                    lemma_last_entry(fields@, 0, name@);
                }
                None
            },
            _ => None,
        }
    }

    /// Tells whether the document is an object.
    pub fn is_object(&self) -> (r: bool)
        ensures
            r == (self@ is Object),
    {
        matches!(self, Json::Object(_))
    }

    /// Tells whether the document is null.
    pub fn is_null(&self) -> (r: bool)
        ensures
            r == (self@ is Null),
    {
        matches!(self, Json::Null)
    }

    /// Returns the text, if the document is one.
    pub fn as_text(&self) -> (r: Option<&str>)
        ensures
            match r {
                Some(s) => self@.text() == Some(s@),
                None => self@.text() is None,
            },
    {
        match self {
            Json::Text(s) => Some(s.as_str()),
            _ => None,
        }
    }

    /// Returns the items, if the document is an array.
    pub fn as_array(&self) -> (r: Option<&Vec<Json>>)
        ensures
            match r {
                Some(items) => self@.items() == Some(views(items@)),
                None => self@.items() is None,
            },
    {
        match self {
            Json::Array(items) => {
                assert(self@->Array_0 =~= views(items@));
                Some(items)
            },
            _ => None,
        }
    }

    /// Returns the text of a field, if there is one.
    pub fn text_at(&self, name: &str) -> (r: Option<&str>)
        ensures
            match r {
                Some(s) => self@.field(name@).text() == Some(s@),
                None => self@.field(name@).text() is None,
            },
    {
        match self.get(name) {
            Some(value) => value.as_text(),
            None => None,
        }
    }

    /// Returns the items of an array field, if there is one.
    pub fn array_at(&self, name: &str) -> (r: Option<&Vec<Json>>)
        ensures
            match r {
                Some(items) => self@.field(name@).items() == Some(views(items@)),
                None => self@.field(name@).items() is None,
            },
    {
        match self.get(name) {
            Some(value) => value.as_array(),
            None => None,
        }
    }

    /// Tells whether a field is null or missing.
    pub fn null_at(&self, name: &str) -> (r: bool)
        ensures
            r == (self@.field(name@) is Null),
    {
        match self.get(name) {
            Some(value) => value.is_null(),
            None => true,
        }
    }
}

/// A field that was set is read back, and every other stays as it was. Only an object has
/// fields, and a field that is missing reads as null.
pub proof fn law_set_field_is_read_back(
    json: JsonView,
    name: Seq<char>,
    value: JsonView,
    other: Seq<char>,
)
    ensures
        json is Object ==> json.with(name, value) is Object,
        json is Object ==> json.with(name, value).get(name) == Some(value),
        json is Object && other != name ==> json.with(name, value).get(other) == json.get(other),
        !(json is Object) ==> json.get(name) is None && json.with(name, value) == json,
        JsonView::object() is Object,
        JsonView::object().get(name) is None,
        json.get(name) is None ==> json.field(name) is Null,
        json.get(name) is Some ==> Some(json.field(name)) == json.get(name),
{
}

/// Two objects with the same fields are the same.
pub proof fn law_objects_are_their_fields(first: JsonView, second: JsonView)
    requires
        first is Object,
        second is Object,
        forall|name: Seq<char>| #[trigger] first.get(name) == second.get(name),
    ensures
        first == second,
{
    let ours = first->Object_0;
    let theirs = second->Object_0;
    assert forall|name: Seq<char>| ours.contains_key(name) == theirs.contains_key(name) && (
    ours.contains_key(name) ==> #[trigger] ours[name] == theirs[name]) by {
        assert(first.get(name) == second.get(name));
    }
    assert forall|name: Seq<char>| #[trigger] ours.dom().contains(name) == theirs.dom().contains(
        name,
    ) by {
        assert(first.get(name) == second.get(name));
    }
    assert(ours =~= theirs);
}

/// A text has its characters and nothing else has any; an array has its items and nothing else
/// has any.
pub proof fn law_texts_and_arrays_are_told_apart(
    json: JsonView,
    s: Seq<char>,
    items: Seq<JsonView>,
)
    ensures
        json.text() == Some(s) <==> json == JsonView::Text(s),
        json.items() == Some(items) <==> json == JsonView::Array(items),
{
}

/// An array means its items, all of them and in order.
pub proof fn law_array_means_its_items(items: Vec<Json>)
    ensures
        ({
            let json = Json::Array(items);
            &&& json@.items() == Some(views(items@))
            &&& views(items@).len() == items@.len()
            &&& forall|i: int|
                0 <= i < items@.len() ==> #[trigger] views(items@)[i] == items@[i]@
        }),
{
    let json = Json::Array(items);
    assert(json@->Array_0 =~= views(items@));
}

/// Of the entries of an object under one name the last one counts; a name without an entry is
/// no field.
pub proof fn law_last_entry_counts(fields: Vec<(String, Json)>, at: int, name: Seq<char>)
    requires
        -1 <= at < fields@.len(),
        at >= 0 ==> fields@[at].0@ == name,
        forall|i: int| at < i < fields@.len() ==> (#[trigger] fields@[i]).0@ != name,
    ensures
        Json::Object(fields)@ is Object,
        at >= 0 ==> Json::Object(fields)@.get(name) == Some(fields@[at].1@),
        at < 0 ==> Json::Object(fields)@.get(name) is None,
{
    lemma_last_entry(fields@, at + 1, name);
    if at >= 0 {
        assert(fields@.take(at + 1).last() == fields@[at]);
    }
}

/// What is plain stays so where more depth is allowed.
pub proof fn law_plain_at_any_greater_depth(document: JsonView, depth: nat, more: nat)
    requires
        is_plain(document, depth),
        depth <= more,
    ensures
        is_plain(document, more),
    decreases depth,
{
    match document {
        JsonView::Array(items) => {
            assert forall|i: int| 0 <= i < items.len() implies is_plain(
                #[trigger] items[i],
                (more - 1) as nat,
            ) by {
                law_plain_at_any_greater_depth(items[i], (depth - 1) as nat, (more - 1) as nat);
            }
        },
        JsonView::Object(fields) => {
            assert forall|name: Seq<char>| fields.contains_key(name) implies is_plain(
                #[trigger] fields[name],
                (more - 1) as nat,
            ) by {
                law_plain_at_any_greater_depth(fields[name], (depth - 1) as nat, (more - 1) as nat);
            }
        },
        _ => {},
    }
}

/// Texts, truth values, null and every integer of 64 bits are plain. A list of plain items and
/// an object of plain fields are plain one level up.
pub proof fn law_plain_is_built_up(
    items: Seq<JsonView>,
    json: JsonView,
    name: Seq<char>,
    value: JsonView,
    s: Seq<char>,
    b: bool,
    n: i128,
    depth: nat,
)
    ensures
        is_plain(JsonView::Null, depth),
        is_plain(JsonView::Bool(b), depth),
        is_plain(JsonView::Text(s), depth),
        i64::MIN <= n <= u64::MAX ==> is_plain(JsonView::Number(integer(n)), depth),
        (forall|i: int| 0 <= i < items.len() ==> is_plain(#[trigger] items[i], depth))
            ==> is_plain(JsonView::Array(items), depth + 1),
        is_plain(JsonView::object(), depth + 1),
        is_plain(json, depth + 1) && is_plain(value, depth) ==> is_plain(
            json.with(name, value),
            depth + 1,
        ),
{
    if i64::MIN <= n <= u64::MAX {
        assert(is_held(n));
    }
    if is_plain(json, depth + 1) && is_plain(value, depth) && json is Object {
        let fields = json->Object_0;
        let set = fields.insert(name, value);
        assert forall|other: Seq<char>| set.contains_key(other) implies is_plain(
            #[trigger] set[other],
            depth,
        ) by {
            if other != name {
                assert(fields.contains_key(other));
                assert(is_plain(fields[other], depth));
            }
        }
    }
}

/// A document that is no container means what it holds.
pub proof fn law_scalar_means_what_it_holds(b: bool, n: serde_json::Number, s: String)
    ensures
        Json::Null@ == JsonView::Null,
        Json::Bool(b)@ == JsonView::Bool(b),
        Json::Number(n)@ == JsonView::Number(n),
        Json::Text(s)@ == JsonView::Text(s@),
{
}

} // verus!
