use vstd::prelude::*;

verus! {

/// A JSON document as the provisioner sends it to ChirpStack and reads its replies.
/// An object is a list of fields: the bodies the provisioner builds keep the order
/// in which they are written, and a reply read by `parse_json` has its fields in
/// serde_json's order (sorted by name). The bodies write counts as `UInt`; every
/// number of a reply read by `parse_json` is a `Number` holding its decimal text.
#[derive(Debug)]
pub enum Json {
    Null,
    Bool(bool),
    UInt(u64),
    Number(String),
    Str(String),
    Array(Vec<Json>),
    Object(Vec<(String, Json)>),
}

/// The mathematical model of a JSON document.
pub enum JsonV {
    Null,
    Bool(bool),
    UInt(u64),
    Number(Seq<char>),
    Str(Seq<char>),
    Array(Seq<JsonV>),
    Object(Seq<(Seq<char>, JsonV)>),
}

impl View for Json {
    type V = JsonV;

    open spec fn view(&self) -> JsonV
        decreases *self, 0nat,
    {
        match self {
            Json::Null => JsonV::Null,
            Json::Bool(b) => JsonV::Bool(*b),
            Json::UInt(n) => JsonV::UInt(*n),
            Json::Number(s) => JsonV::Number(s@),
            Json::Str(s) => JsonV::Str(s@),
            Json::Array(items) => {
                proof {
                    assert(decreases_to!(*self => items@));
                }
                JsonV::Array(view_items(items@))
            },
            Json::Object(fields) => {
                proof {
                    assert(decreases_to!(*self => fields@));
                }
                JsonV::Object(view_fields(fields@))
            },
        }
    }
}

/// The models of a list of array items.
pub open spec fn view_items(s: Seq<Json>) -> Seq<JsonV>
    decreases s, 1nat,
{
    if s.len() == 0 {
        Seq::empty()
    } else {
        proof {
            assert(decreases_to!(s => s[s.len() - 1]));
            assert(decreases_to!(s => s.subrange(0, s.len() - 1)));
        }
        view_items(s.subrange(0, s.len() - 1)).push(s[s.len() - 1].view())
    }
}

/// The models of a list of object fields.
pub open spec fn view_fields(s: Seq<(String, Json)>) -> Seq<(Seq<char>, JsonV)>
    decreases s, 1nat,
{
    if s.len() == 0 {
        Seq::empty()
    } else {
        proof {
            assert(decreases_to!(s => s[s.len() - 1]));
            assert(decreases_to!(s[s.len() - 1] => s[s.len() - 1].1));
            assert(decreases_to!(s => s.subrange(0, s.len() - 1)));
        }
        view_fields(s.subrange(0, s.len() - 1)).push((s[s.len() - 1].0@, s[s.len() - 1].1.view()))
    }
}

/// The model of a list of object fields.
pub open spec fn fields_v(s: Seq<(String, Json)>) -> Seq<(Seq<char>, JsonV)> {
    Seq::new(s.len(), |i: int| (s[i].0@, s[i].1@))
}

/// The model of a list of array items.
pub open spec fn items_v(s: Seq<Json>) -> Seq<JsonV> {
    Seq::new(s.len(), |i: int| s[i]@)
}

/// The item-by-item model of a list of items is the closed form.
pub proof fn lemma_view_items(s: Seq<Json>)
    ensures
        view_items(s) == items_v(s),
    decreases s.len(),
{
    if s.len() > 0 {
        let t = s.subrange(0, s.len() - 1);
        lemma_view_items(t);
        assert(view_items(s) == view_items(t).push(s[s.len() - 1]@));
        assert forall|i: int| 0 <= i < s.len() implies view_items(s)[i] == items_v(s)[i] by {
            if i < s.len() - 1 {
                assert(t[i] == s[i]);
                assert(items_v(t)[i] == t[i]@);
            }
        }
    }
    assert(view_items(s) =~= items_v(s));
}

/// The field-by-field model of a list of fields is the closed form.
pub proof fn lemma_view_fields(s: Seq<(String, Json)>)
    ensures
        view_fields(s) == fields_v(s),
    decreases s.len(),
{
    if s.len() > 0 {
        let t = s.subrange(0, s.len() - 1);
        lemma_view_fields(t);
        assert(view_fields(s) == view_fields(t).push((s[s.len() - 1].0@, s[s.len() - 1].1@)));
        assert forall|i: int| 0 <= i < s.len() implies view_fields(s)[i] == fields_v(s)[i] by {
            if i < s.len() - 1 {
                assert(t[i] == s[i]);
                assert(fields_v(t)[i] == (t[i].0@, t[i].1@));
            }
        }
    }
    assert(view_fields(s) =~= fields_v(s));
}

/// The value of the first field named `key`.
pub open spec fn lookup(fields: Seq<(Seq<char>, JsonV)>, key: Seq<char>) -> Option<JsonV>
    decreases fields.len(),
{
    if fields.len() == 0 {
        None
    } else if fields[0].0 == key {
        Some(fields[0].1)
    } else {
        lookup(fields.drop_first(), key)
    }
}

/// The field `key` of an object; nothing for any other document.
pub open spec fn field_of(j: JsonV, key: Seq<char>) -> Option<JsonV> {
    match j {
        JsonV::Object(fields) => lookup(fields, key),
        _ => None,
    }
}

/// The field `key` of an object, where it is a string.
pub open spec fn str_field(j: JsonV, key: Seq<char>) -> Option<Seq<char>> {
    match field_of(j, key) {
        Some(JsonV::Str(s)) => Some(s),
        _ => None,
    }
}

/// The first item whose string field `name` is `name`.
pub open spec fn first_named(items: Seq<JsonV>, name: Seq<char>) -> Option<JsonV>
    decreases items.len(),
{
    if items.len() == 0 {
        None
    } else if str_field(items[0], "name"@) == Some(name) {
        Some(items[0])
    } else {
        first_named(items.drop_first(), name)
    }
}

/// The identifier of the first item named `name`.
pub open spec fn listed_id(items: Seq<JsonV>, name: Seq<char>) -> Option<Seq<char>> {
    match first_named(items, name) {
        Some(item) => str_field(item, "id"@),
        None => None,
    }
}

/// The identifier of the first entry named `name` in a ChirpStack list reply
/// (`{"result": [{"id": .., "name": ..}, ..]}`).
pub open spec fn result_id_of(reply: JsonV, name: Seq<char>) -> Option<Seq<char>> {
    match field_of(reply, "result"@) {
        Some(JsonV::Array(items)) => listed_id(items, name),
        _ => None,
    }
}

/// The identifier in a ChirpStack create reply: its own `id`, or else the `id`
/// inside the field named after the resource.
pub open spec fn created_id_of(reply: JsonV, wrapper: Seq<char>) -> Option<Seq<char>> {
    match str_field(reply, "id"@) {
        Some(id) => Some(id),
        None => match field_of(reply, wrapper) {
            Some(inner) => str_field(inner, "id"@),
            None => None,
        },
    }
}

pub proof fn lemma_lookup_at(fields: Seq<(Seq<char>, JsonV)>, key: Seq<char>, i: int)
    requires
        0 <= i < fields.len(),
        fields[i].0 == key,
        forall|j: int| 0 <= j < i ==> fields[j].0 != key,
    ensures
        lookup(fields, key) == Some(fields[i].1),
    decreases i,
{
    if i > 0 {
        lemma_lookup_at(fields.drop_first(), key, i - 1);
    }
}

pub proof fn lemma_lookup_none(fields: Seq<(Seq<char>, JsonV)>, key: Seq<char>)
    requires
        forall|j: int| 0 <= j < fields.len() ==> fields[j].0 != key,
    ensures
        lookup(fields, key) is None,
    decreases fields.len(),
{
    if fields.len() > 0 {
        lemma_lookup_none(fields.drop_first(), key);
    }
}

proof fn lemma_first_named_at(items: Seq<JsonV>, name: Seq<char>, i: int)
    requires
        0 <= i < items.len(),
        str_field(items[i], "name"@) == Some(name),
        forall|j: int| 0 <= j < i ==> str_field(items[j], "name"@) != Some(name),
    ensures
        first_named(items, name) == Some(items[i]),
    decreases i,
{
    if i > 0 {
        lemma_first_named_at(items.drop_first(), name, i - 1);
    }
}

proof fn lemma_first_named_none(items: Seq<JsonV>, name: Seq<char>)
    requires
        forall|j: int| 0 <= j < items.len() ==> str_field(items[j], "name"@) != Some(name),
    ensures
        first_named(items, name) is None,
    decreases items.len(),
{
    if items.len() > 0 {
        lemma_first_named_none(items.drop_first(), name);
    }
}

/// A document or nothing, by its model.
pub open spec fn opt_json_view(j: Option<Json>) -> Option<JsonV> {
    match j {
        Some(j) => Some(j@),
        None => None,
    }
}

/// The document that a text holds (nothing where the text is not JSON), as
/// serde_json reads it.
pub uninterp spec fn json_of_text(text: Seq<char>) -> Option<JsonV>;

#[verifier::external_type_specification]
#[verifier::external_body]
pub struct ExJsonValue(serde_json::Value);

/// Turns a document of serde_json into one of this library, value for value: a
/// number keeps the decimal text that serde_json writes for it, an object its
/// fields in serde_json's order.
#[verifier::external_body]
fn json_of_value(v: serde_json::Value) -> Json {
    match v {
        serde_json::Value::Null => Json::Null,
        serde_json::Value::Bool(b) => Json::Bool(b),
        serde_json::Value::Number(n) => Json::Number(n.to_string()),
        serde_json::Value::String(s) => Json::Str(s),
        serde_json::Value::Array(items) => Json::Array(items.into_iter().map(json_of_value).collect()),
        serde_json::Value::Object(m) => Json::Object(m.into_iter().map(|(k, x)| (k, json_of_value(x))).collect()),
    }
}

/// Calls `serde_json::from_str` to read `text` as a JSON document. The contract
/// claims only that the result is a function of the text (named
/// `json_of_text`): nothing where serde_json refuses the text, else the document
/// it read. What JSON serde_json accepts is not written out here.
#[verifier::external_body]
pub(crate) fn parse_json(text: &String) -> (r: Option<Json>)
    ensures
        opt_json_view(r) == json_of_text(text@),
{
    serde_json::from_str::<serde_json::Value>(text.as_str()).ok().map(json_of_value)
}

/// An owned copy of a text.
pub fn text(s: &str) -> (r: String)
    ensures
        r@ == s@,
{
    s.to_owned()
}

/// A string document.
pub fn json_str(s: &str) -> (j: Json)
    ensures
        j@ == JsonV::Str(s@),
{
    Json::Str(s.to_owned())
}

/// An object made of `fields`, in their order.
pub fn object(fields: Vec<(String, Json)>) -> (j: Json)
    ensures
        j@ == JsonV::Object(fields_v(fields@)),
{
    let j = Json::Object(fields);
    proof {
        lemma_view_fields(fields@);
    }
    j
}

/// An array made of `items`, in their order.
pub fn array(items: Vec<Json>) -> (j: Json)
    ensures
        j@ == JsonV::Array(items_v(items@)),
{
    let j = Json::Array(items);
    proof {
        lemma_view_items(items@);
    }
    j
}

/// The field `key` of an object (its first field of that name); nothing for any other document.
pub fn field<'a>(j: &'a Json, key: &String) -> (r: Option<&'a Json>)
    ensures
        match r {
            Some(x) => field_of(j@, key@) == Some(x@),
            None => field_of(j@, key@) is None,
        },
{
    match j {
        Json::Object(fields) => {
            let ghost fv = fields_v(fields@);
            proof {
                lemma_view_fields(fields@);
                assert(j@ == JsonV::Object(view_fields(fields@)));
                assert(j@ == JsonV::Object(fv));
            }
            let mut i: usize = 0;
            while i < fields.len()
                invariant
                    i <= fields@.len(),
                    fv == fields_v(fields@),
                    j@ == JsonV::Object(fv),
                    forall|k: int| 0 <= k < i ==> fv[k].0 != key@,
                decreases fields@.len() - i,
            {
                if fields[i].0 == *key {
                    proof {
                        lemma_lookup_at(fv, key@, i as int);
                        assert(fv[i as int].1 == fields@[i as int].1@);
                    }
                    return Some(&fields[i].1);
                }
                i = i + 1;
            }
            proof {
                lemma_lookup_none(fv, key@);
            }
            None
        },
        _ => None,
    }
}

/// The field `key` of an object, where it is a string.
pub fn string_field<'a>(j: &'a Json, key: &String) -> (r: Option<&'a String>)
    ensures
        match r {
            Some(s) => str_field(j@, key@) == Some(s@),
            None => str_field(j@, key@) is None,
        },
{
    match field(j, key) {
        Some(Json::Str(s)) => Some(s),
        _ => None,
    }
}

/// The identifier of the first item named `name`.
pub fn find_listed_id(items: &Vec<Json>, name: &String) -> (r: Option<String>)
    ensures
        match r {
            Some(id) => listed_id(items_v(items@), name@) == Some(id@),
            None => listed_id(items_v(items@), name@) is None,
        },
{
    let name_key = text("name");
    let id_key = text("id");
    let ghost iv = items_v(items@);
    let mut i: usize = 0;
    while i < items.len()
        invariant
            i <= items@.len(),
            iv == items_v(items@),
            name_key@ == "name"@,
            id_key@ == "id"@,
            forall|k: int| 0 <= k < i ==> str_field(iv[k], "name"@) != Some(name@),
        decreases items@.len() - i,
    {
        let matched = match string_field(&items[i], &name_key) {
            Some(s) => *s == *name,
            None => false,
        };
        if matched {
            proof {
                lemma_first_named_at(iv, name@, i as int);
                assert(iv[i as int] == items@[i as int]@);
            }
            return match string_field(&items[i], &id_key) {
                Some(id) => Some(id.clone()),
                None => None,
            };
        }
        i = i + 1;
    }
    proof {
        lemma_first_named_none(iv, name@);
    }
    None
}

/// The identifier of the first entry named `name` in a ChirpStack list reply.
pub fn find_result_id(reply: &Json, name: &String) -> (r: Option<String>)
    ensures
        match r {
            Some(id) => result_id_of(reply@, name@) == Some(id@),
            None => result_id_of(reply@, name@) is None,
        },
{
    let result_key = text("result");
    match field(reply, &result_key) {
        Some(Json::Array(items)) => {
            proof {
                lemma_view_items(items@);
                assert(Json::Array(*items)@ == JsonV::Array(view_items(items@)));
            }
            find_listed_id(items, name)
        },
        _ => None,
    }
}

/// The identifier in a ChirpStack create reply: its own `id`, or else the `id`
/// inside the field named `wrapper`.
pub fn created_id(reply: &Json, wrapper: &String) -> (r: Option<String>)
    ensures
        match r {
            Some(id) => created_id_of(reply@, wrapper@) == Some(id@),
            None => created_id_of(reply@, wrapper@) is None,
        },
{
    let id_key = text("id");
    match string_field(reply, &id_key) {
        Some(id) => Some(id.clone()),
        None => match field(reply, wrapper) {
            Some(inner) => match string_field(inner, &id_key) {
                Some(id) => Some(id.clone()),
                None => None,
            },
            None => None,
        },
    }
}

} // verus!
