use vstd::prelude::*;
use vstd::string::*;

use crate::model::{PredictionResponse, ServiceError, TrainPrediction, TrainView, view_opt_string};

verus! {

broadcast use
    vstd::seq::group_seq_axioms,
    vstd::std_specs::vec::group_vec_axioms,
    vstd::string::group_string_axioms;

/// A JSON document, as far as this library reads or writes one: null, a
/// boolean, a string, an array, or an object held as its fields in document
/// order. Numeric values never occur in the fields the upstream grammar
/// defines, so they are kept only as an unmodeled scalar.
pub enum JsonValue {
    Null,
    Bool(bool),
    Number,
    Str(String),
    Arr(Vec<JsonValue>),
    Obj(Vec<(String, JsonValue)>),
}

/// Mathematical model of a JSON document.
#[verifier::ext_equal]
pub enum JsonTree {
    Null,
    Bool(bool),
    Number,
    Str(Seq<char>),
    Arr(Seq<JsonTree>),
    Obj(Seq<(Seq<char>, JsonTree)>),
}

impl JsonValue {
    /// The model of this document.
    pub open spec fn deep(self) -> JsonTree
        decreases self,
    {
        match self {
            JsonValue::Null => JsonTree::Null,
            JsonValue::Bool(b) => JsonTree::Bool(b),
            JsonValue::Number => JsonTree::Number,
            JsonValue::Str(s) => JsonTree::Str(s@),
            JsonValue::Arr(items) => JsonTree::Arr(JsonValue::deep_items(items)),
            JsonValue::Obj(fields) => JsonTree::Obj(JsonValue::deep_fields(fields)),
        }
    }

    pub open spec fn deep_items(items: Vec<JsonValue>) -> Seq<JsonTree>
        decreases items,
    {
        Seq::new(
            items@.len(),
            |i: int|
                if 0 <= i < items@.len() {
                    items[i].deep()
                } else {
                    JsonTree::Null
                },
        )
    }

    pub open spec fn deep_fields(fields: Vec<(String, JsonValue)>) -> Seq<(Seq<char>, JsonTree)>
        decreases fields,
    {
        Seq::new(
            fields@.len(),
            |i: int|
                if 0 <= i < fields@.len() {
                    (fields[i].0@, fields[i].1.deep())
                } else {
                    (Seq::empty(), JsonTree::Null)
                },
        )
    }
}

/// What parsing a text as JSON yields: the document's model, or nothing where
/// the text is not valid JSON. The outcome depends on the text alone.
pub uninterp spec fn json_parse(text: Seq<char>) -> Option<JsonTree>;

/// The text that encoding a JSON document yields. It depends on the document
/// alone.
pub uninterp spec fn json_text(tree: JsonTree) -> Seq<char>;

#[verifier::external_type_specification]
#[verifier::external_body]
pub struct ExValue(serde_json::Value);

/// Relies on serde_json::Value: each variant of the parsed document is carried
/// to the library's tree one for one (object fields in the order serde_json
/// hands them out; numeric values are not modeled). Called only from
/// `parse_json_text`, whose contract covers the combined conversion.
#[verifier::external_body]
fn value_to_tree(v: serde_json::Value) -> JsonValue {
    match v {
        serde_json::Value::Null => JsonValue::Null,
        serde_json::Value::Bool(b) => JsonValue::Bool(b),
        serde_json::Value::Number(_) => JsonValue::Number,
        serde_json::Value::String(s) => JsonValue::Str(s),
        serde_json::Value::Array(a) => JsonValue::Arr(a.into_iter().map(value_to_tree).collect()),
        serde_json::Value::Object(m) => JsonValue::Obj(
            m.into_iter().map(|(k, w)| (k, value_to_tree(w))).collect(),
        ),
    }
}

/// Relies on serde_json::from_str::<serde_json::Value>: whether a text parses
/// as JSON, and the document it parses to, are functions of the text alone;
/// an invalid text yields an error.
#[verifier::external_body]
fn parse_json_text(text: &str) -> (r: Option<JsonValue>)
    ensures
        match r {
            Some(v) => json_parse(text@) == Some(v.deep()),
            None => json_parse(text@) is None,
        },
{
    serde_json::from_str::<serde_json::Value>(text).ok().map(value_to_tree)
}

/// Relies on serde_json::Value: rebuilds the outside document from the
/// library's tree, variant for variant (the unmodeled scalar becomes null,
/// which no tree this library renders contains). Called only from
/// `json_text_of_tree`, whose contract covers the combined conversion.
#[verifier::external_body]
fn tree_to_value(t: &JsonValue) -> serde_json::Value {
    match t {
        JsonValue::Null => serde_json::Value::Null,
        JsonValue::Bool(b) => serde_json::Value::Bool(*b),
        JsonValue::Number => serde_json::Value::Null,
        JsonValue::Str(s) => serde_json::Value::String(s.clone()),
        JsonValue::Arr(items) => serde_json::Value::Array(items.iter().map(tree_to_value).collect()),
        JsonValue::Obj(fields) => serde_json::Value::Object(
            fields.iter().map(|p| (p.0.clone(), tree_to_value(&p.1))).collect(),
        ),
    }
}

/// Relies on serde_json::to_string on a serde_json::Value built from the tree:
/// the encoded text is a function of the tree alone (serializing a Value with
/// string keys cannot fail).
#[verifier::external_body]
fn json_text_of_tree(t: &JsonValue) -> (r: String)
    ensures
        r@ == json_text(t.deep()),
{
    serde_json::to_string(&tree_to_value(t)).unwrap_or_default()
}

/// The first field of `fields` named `key`, if any.
pub open spec fn lookup(fields: Seq<(Seq<char>, JsonTree)>, key: Seq<char>) -> Option<JsonTree>
    decreases fields.len(),
{
    if fields.len() == 0 {
        None
    } else if fields[0].0 == key {
        Some(fields[0].1)
    } else {
        lookup(fields.drop_first(), key)
    }
}

/// The field named `key`, provided it is a string.
pub open spec fn str_field(fields: Seq<(Seq<char>, JsonTree)>, key: Seq<char>) -> Option<Seq<char>> {
    match lookup(fields, key) {
        Some(JsonTree::Str(s)) => Some(s),
        _ => None,
    }
}

/// The field named `key`, provided it is a string or null.
pub open spec fn opt_str_field(fields: Seq<(Seq<char>, JsonTree)>, key: Seq<char>) -> Option<
    Option<Seq<char>>,
> {
    match lookup(fields, key) {
        Some(JsonTree::Str(s)) => Some(Some(s)),
        Some(JsonTree::Null) => Some(None),
        _ => None,
    }
}

/// Strict decoding of one record: an object whose nine defined fields are all
/// present with the right types; anything else is rejected whole. Fields
/// beyond the defined nine are ignored.
pub open spec fn record_of_tree(t: JsonTree) -> Option<TrainView> {
    match t {
        JsonTree::Obj(fields) => {
            let car = opt_str_field(fields, "Car"@);
            let destination = str_field(fields, "Destination"@);
            let destination_code = opt_str_field(fields, "DestinationCode"@);
            let destination_name = str_field(fields, "DestinationName"@);
            let group = str_field(fields, "Group"@);
            let line = str_field(fields, "Line"@);
            let location_code = str_field(fields, "LocationCode"@);
            let location_name = str_field(fields, "LocationName"@);
            let min = str_field(fields, "Min"@);
            if car is Some && destination is Some && destination_code is Some
                && destination_name is Some && group is Some && line is Some
                && location_code is Some && location_name is Some && min is Some {
                Some(
                    (TrainView {
                        car: car->0,
                        destination: destination->0,
                        destination_code: destination_code->0,
                        destination_name: destination_name->0,
                        group: group->0,
                        line: line->0,
                        location_code: location_code->0,
                        location_name: location_name->0,
                        min: min->0,
                    }),
                )
            } else {
                None
            }
        },
        _ => None,
    }
}

/// Strict decoding of the record list: every element must decode, or the
/// whole list is rejected.
pub open spec fn records_of_trees(items: Seq<JsonTree>) -> Option<Seq<TrainView>> {
    if forall|i: int| 0 <= i < items.len() ==> record_of_tree(#[trigger] items[i]) is Some {
        Some(Seq::new(items.len(), |i: int| record_of_tree(items[i])->0))
    } else {
        None
    }
}

/// Strict decoding of a whole body: an object whose field named Trains is an
/// array of records.
pub open spec fn body_records(t: JsonTree) -> Option<Seq<TrainView>> {
    match t {
        JsonTree::Obj(fields) => match lookup(fields, "Trains"@) {
            Some(JsonTree::Arr(items)) => records_of_trees(items),
            _ => None,
        },
        _ => None,
    }
}

/// What decoding a body text yields: parse it as JSON, then decode the
/// document strictly.
pub open spec fn spec_decode(text: Seq<char>) -> Option<Seq<TrainView>> {
    match json_parse(text) {
        Some(t) => body_records(t),
        None => None,
    }
}

/// The canonical document for one record: its nine fields, in the order the
/// upstream grammar lists them, optional fields rendered as null when absent.
pub open spec fn tree_of_record(r: TrainView) -> JsonTree {
    JsonTree::Obj(
        seq![
            ("Car"@, opt_tree(r.car)),
            ("Destination"@, JsonTree::Str(r.destination)),
            ("DestinationCode"@, opt_tree(r.destination_code)),
            ("DestinationName"@, JsonTree::Str(r.destination_name)),
            ("Group"@, JsonTree::Str(r.group)),
            ("Line"@, JsonTree::Str(r.line)),
            ("LocationCode"@, JsonTree::Str(r.location_code)),
            ("LocationName"@, JsonTree::Str(r.location_name)),
            ("Min"@, JsonTree::Str(r.min)),
        ],
    )
}

pub open spec fn opt_tree(s: Option<Seq<char>>) -> JsonTree {
    match s {
        Some(t) => JsonTree::Str(t),
        None => JsonTree::Null,
    }
}

/// The canonical documents of a record sequence, in order.
pub open spec fn trees_of_records(rs: Seq<TrainView>) -> Seq<JsonTree> {
    rs.map_values(|r: TrainView| tree_of_record(r))
}

/// The canonical document for a record list: one object holding the list
/// under the field named Trains.
pub open spec fn tree_of_records(rs: Seq<TrainView>) -> JsonTree {
    JsonTree::Obj(seq![("Trains"@, JsonTree::Arr(trees_of_records(rs)))])
}

proof fn lemma_lookup_skip(fields: Seq<(Seq<char>, JsonTree)>, key: Seq<char>, i: int)
    requires
        0 <= i <= fields.len(),
        forall|j: int| 0 <= j < i ==> (#[trigger] fields[j]).0 != key,
    ensures
        lookup(fields, key) == lookup(fields.skip(i), key),
    decreases i,
{
    if i > 0 {
        assert(fields[0].0 != key);
        let rest = fields.drop_first();
        assert forall|j: int| 0 <= j < i - 1 implies (#[trigger] rest[j]).0 != key by {
            assert(rest[j] == fields[j + 1]);
        }
        lemma_lookup_skip(rest, key, i - 1);
        assert(rest.skip(i - 1) =~= fields.skip(i));
        assert(fields.skip(0) =~= fields);
    } else {
        assert(fields.skip(0) =~= fields);
    }
}

fn lookup_field<'a>(fields: &'a Vec<(String, JsonValue)>, key: &String) -> (r: Option<
    &'a JsonValue,
>)
    ensures
        match r {
            Some(v) => lookup(JsonValue::deep_fields(*fields), key@) == Some(v.deep()),
            None => lookup(JsonValue::deep_fields(*fields), key@) is None,
        },
{
    let ghost df = JsonValue::deep_fields(*fields);
    let mut i: usize = 0;
    while i < fields.len()
        invariant
            i <= fields@.len(),
            df == JsonValue::deep_fields(*fields),
            df.len() == fields@.len(),
            forall|j: int| 0 <= j < i ==> (#[trigger] df[j]).0 != key@,
        decreases fields@.len() - i,
    {
        let pair = &fields[i];
        if pair.0 == *key {
            proof {
                lemma_lookup_skip(df, key@, i as int);
                assert(df.skip(i as int)[0] == df[i as int]);
                assert(df.skip(i as int).drop_first() =~= df.skip(i as int + 1));
            }
            return Some(&pair.1);
        }
        i += 1;
    }
    proof {
        lemma_lookup_skip(df, key@, df.len() as int);
        assert(df.skip(df.len() as int) =~= Seq::empty());
    }
    None
}

fn get_str(fields: &Vec<(String, JsonValue)>, key: &String) -> (r: Option<String>)
    ensures
        match r {
            Some(s) => str_field(JsonValue::deep_fields(*fields), key@) == Some(s@),
            None => str_field(JsonValue::deep_fields(*fields), key@) is None,
        },
{
    match lookup_field(fields, key) {
        Some(v) => match v {
            JsonValue::Str(s) => Some(s.clone()),
            _ => None,
        },
        None => None,
    }
}

fn get_opt_str(fields: &Vec<(String, JsonValue)>, key: &String) -> (r: Option<Option<String>>)
    ensures
        match r {
            Some(s) => opt_str_field(JsonValue::deep_fields(*fields), key@) == Some(
                view_opt_string(s),
            ),
            None => opt_str_field(JsonValue::deep_fields(*fields), key@) is None,
        },
{
    match lookup_field(fields, key) {
        Some(v) => match v {
            JsonValue::Str(s) => Some(Some(s.clone())),
            JsonValue::Null => Some(None),
            _ => None,
        },
        None => None,
    }
}

/// Decodes one record from its document, strictly.
pub fn extract_record(t: &JsonValue) -> (r: Option<TrainPrediction>)
    ensures
        match r {
            Some(p) => record_of_tree(t.deep()) == Some(p@),
            None => record_of_tree(t.deep()) is None,
        },
{
    match t {
        JsonValue::Obj(fields) => {
            let car = get_opt_str(fields, &String::from_str("Car"));
            let destination = get_str(fields, &String::from_str("Destination"));
            let destination_code = get_opt_str(fields, &String::from_str("DestinationCode"));
            let destination_name = get_str(fields, &String::from_str("DestinationName"));
            let group = get_str(fields, &String::from_str("Group"));
            let line = get_str(fields, &String::from_str("Line"));
            let location_code = get_str(fields, &String::from_str("LocationCode"));
            let location_name = get_str(fields, &String::from_str("LocationName"));
            let min = get_str(fields, &String::from_str("Min"));
            match (car, destination, destination_code, destination_name, group, line,
                location_code, location_name, min) {
                (
                    Some(car),
                    Some(destination),
                    Some(destination_code),
                    Some(destination_name),
                    Some(group),
                    Some(line),
                    Some(location_code),
                    Some(location_name),
                    Some(min),
                ) => Some(
                    TrainPrediction {
                        car,
                        destination,
                        destination_code,
                        destination_name,
                        group,
                        line,
                        location_code,
                        location_name,
                        min,
                    },
                ),
                _ => None,
            }
        },
        _ => None,
    }
}

/// Decodes a whole body document, strictly: one malformed record, a missing
/// record list, or a top-level shape mismatch rejects the response entire.
pub fn extract_response(t: &JsonValue) -> (r: Result<PredictionResponse, ServiceError>)
    ensures
        match r {
            Ok(resp) => body_records(t.deep()) == Some(resp@),
            Err(e) => body_records(t.deep()) is None && e == ServiceError::Decode,
        },
{
    match t {
        JsonValue::Obj(fields) => {
            match lookup_field(fields, &String::from_str("Trains")) {
                Some(trains_val) => match trains_val {
                    JsonValue::Arr(items) => {
                        let ghost dit = JsonValue::deep_items(*items);
                        proof {
                            assert(trains_val.deep() == JsonTree::Arr(dit));
                            assert(t.deep() == JsonTree::Obj(JsonValue::deep_fields(*fields)));
                        }
                        let mut recs: Vec<TrainPrediction> = Vec::new();
                        let mut i: usize = 0;
                        while i < items.len()
                            invariant
                                i <= items@.len(),
                                dit == JsonValue::deep_items(*items),
                                dit.len() == items@.len(),
                                recs@.len() == i,
                                t.deep() == JsonTree::Obj(JsonValue::deep_fields(*fields)),
                                lookup(JsonValue::deep_fields(*fields), "Trains"@) == Some(
                                    JsonTree::Arr(dit),
                                ),
                                forall|j: int|
                                    0 <= j < i ==> record_of_tree(#[trigger] dit[j]) is Some,
                                forall|j: int|
                                    0 <= j < i ==> record_of_tree(#[trigger] dit[j]) == Some(
                                        recs@[j]@,
                                    ),
                            decreases items@.len() - i,
                        {
                            match extract_record(&items[i]) {
                                Some(p) => {
                                    recs.push(p);
                                    proof {
                                        assert(dit[i as int] == items[i as int].deep());
                                        assert(recs@[i as int] == p);
                                    }
                                },
                                None => {
                                    proof {
                                        assert(dit[i as int] == items[i as int].deep());
                                        assert(records_of_trees(dit) is None);
                                    }
                                    return Err(ServiceError::Decode);
                                },
                            }
                            i += 1;
                        }
                        let resp = PredictionResponse { trains: recs };
                        proof {
                            assert(records_of_trees(dit) is Some);
                            let back = records_of_trees(dit)->0;
                            assert forall|j: int| 0 <= j < back.len() implies #[trigger] back[j]
                                == resp@[j] by {
                                assert(record_of_tree(dit[j]) == Some(recs@[j]@));
                                assert(resp@[j] == recs@[j].deep_view());
                            }
                            assert(back =~= resp@);
                        }
                        Ok(resp)
                    },
                    _ => Err(ServiceError::Decode),
                },
                None => Err(ServiceError::Decode),
            }
        },
        _ => Err(ServiceError::Decode),
    }
}

/// Decodes a body text, strictly: the text must parse as JSON and the
/// document must have the expected shape, or the decoding fails whole.
pub fn decode_body(text: &str) -> (r: Result<PredictionResponse, ServiceError>)
    ensures
        match r {
            Ok(resp) => spec_decode(text@) == Some(resp@),
            Err(e) => spec_decode(text@) is None && e == ServiceError::Decode,
        },
{
    match parse_json_text(text) {
        Some(tree) => extract_response(&tree),
        None => Err(ServiceError::Decode),
    }
}

fn opt_tree_value(s: &Option<String>) -> (v: JsonValue)
    ensures
        v.deep() == opt_tree(view_opt_string(*s)),
{
    match s {
        Some(t) => JsonValue::Str(t.clone()),
        None => JsonValue::Null,
    }
}

fn record_tree(p: &TrainPrediction) -> (v: JsonValue)
    ensures
        v.deep() == tree_of_record(p@),
{
    let mut fields: Vec<(String, JsonValue)> = Vec::new();
    fields.push((String::from_str("Car"), opt_tree_value(&p.car)));
    fields.push((String::from_str("Destination"), JsonValue::Str(p.destination.clone())));
    fields.push((String::from_str("DestinationCode"), opt_tree_value(&p.destination_code)));
    fields.push((String::from_str("DestinationName"), JsonValue::Str(p.destination_name.clone())));
    fields.push((String::from_str("Group"), JsonValue::Str(p.group.clone())));
    fields.push((String::from_str("Line"), JsonValue::Str(p.line.clone())));
    fields.push((String::from_str("LocationCode"), JsonValue::Str(p.location_code.clone())));
    fields.push((String::from_str("LocationName"), JsonValue::Str(p.location_name.clone())));
    fields.push((String::from_str("Min"), JsonValue::Str(p.min.clone())));
    proof {
        let df = JsonValue::deep_fields(fields);
        assert(fields@.len() == 9);
        assert(df[0] == ("Car"@, opt_tree(p@.car)));
        assert(df[1] == ("Destination"@, JsonTree::Str(p@.destination)));
        assert(df[2] == ("DestinationCode"@, opt_tree(p@.destination_code)));
        assert(df[3] == ("DestinationName"@, JsonTree::Str(p@.destination_name)));
        assert(df[4] == ("Group"@, JsonTree::Str(p@.group)));
        assert(df[5] == ("Line"@, JsonTree::Str(p@.line)));
        assert(df[6] == ("LocationCode"@, JsonTree::Str(p@.location_code)));
        assert(df[7] == ("LocationName"@, JsonTree::Str(p@.location_name)));
        assert(df[8] == ("Min"@, JsonTree::Str(p@.min)));
        assert(df =~= seq![
            ("Car"@, opt_tree(p@.car)),
            ("Destination"@, JsonTree::Str(p@.destination)),
            ("DestinationCode"@, opt_tree(p@.destination_code)),
            ("DestinationName"@, JsonTree::Str(p@.destination_name)),
            ("Group"@, JsonTree::Str(p@.group)),
            ("Line"@, JsonTree::Str(p@.line)),
            ("LocationCode"@, JsonTree::Str(p@.location_code)),
            ("LocationName"@, JsonTree::Str(p@.location_name)),
            ("Min"@, JsonTree::Str(p@.min)),
        ]);
    }
    let v = JsonValue::Obj(fields);
    proof {
        assert(v.deep() == tree_of_record(p@));
    }
    v
}

/// Builds the canonical document for a decoded response.
pub fn render_tree(resp: &PredictionResponse) -> (t: JsonValue)
    ensures
        t.deep() == tree_of_records(resp@),
{
    let mut items: Vec<JsonValue> = Vec::new();
    let mut i: usize = 0;
    while i < resp.trains.len()
        invariant
            i <= resp.trains@.len(),
            resp@.len() == resp.trains@.len(),
            items@.len() == i,
            forall|j: int|
                0 <= j < i ==> (#[trigger] items@[j]).deep() == tree_of_record(resp@[j]),
        decreases resp.trains@.len() - i,
    {
        items.push(record_tree(&resp.trains[i]));
        proof {
            assert(resp@[i as int] == resp.trains@[i as int].deep_view());
            assert(items@[i as int].deep() == tree_of_record(resp@[i as int]));
        }
        i += 1;
    }
    proof {
        let dits = JsonValue::deep_items(items);
        assert forall|j: int| 0 <= j < dits.len() implies #[trigger] dits[j] == trees_of_records(
            resp@,
        )[j] by {
            assert(dits[j] == items@[j].deep());
            assert(trees_of_records(resp@)[j] == tree_of_record(resp@[j]));
        }
        assert(JsonValue::deep_items(items) =~= trees_of_records(resp@));
    }
    let mut fields: Vec<(String, JsonValue)> = Vec::new();
    fields.push((String::from_str("Trains"), JsonValue::Arr(items)));
    proof {
        let df = JsonValue::deep_fields(fields);
        assert(fields@.len() == 1);
        assert(df[0] == ("Trains"@, JsonTree::Arr(trees_of_records(resp@))));
        assert(df =~= seq![("Trains"@, JsonTree::Arr(trees_of_records(resp@)))]);
    }
    let v = JsonValue::Obj(fields);
    proof {
        assert(v.deep() == tree_of_records(resp@));
    }
    v
}

/// Re-encodes a decoded response as JSON text, for the passthrough mode.
pub fn encode_response(resp: &PredictionResponse) -> (r: String)
    ensures
        r@ == json_text(tree_of_records(resp@)),
{
    let tree = render_tree(resp);
    json_text_of_tree(&tree)
}

proof fn lemma_key_facts()
    ensures
        "Car"@.len() == 3,
        "Destination"@.len() == 11,
        "DestinationCode"@.len() == 15,
        "DestinationName"@.len() == 15,
        "Group"@.len() == 5,
        "Line"@.len() == 4,
        "LocationCode"@.len() == 12,
        "LocationName"@.len() == 12,
        "Min"@.len() == 3,
        "Car"@ != "Min"@,
        "DestinationCode"@ != "DestinationName"@,
        "LocationCode"@ != "LocationName"@,
{
    reveal_strlit("Car");
    reveal_strlit("Destination");
    reveal_strlit("DestinationCode");
    reveal_strlit("DestinationName");
    reveal_strlit("Group");
    reveal_strlit("Line");
    reveal_strlit("LocationCode");
    reveal_strlit("LocationName");
    reveal_strlit("Min");
    assert("Car"@ != "Min"@) by {
        assert("Car"@[0] == 'C');
        assert("Min"@[0] == 'M');
    }
    assert("DestinationCode"@ != "DestinationName"@) by {
        assert("DestinationCode"@[11] == 'C');
        assert("DestinationName"@[11] == 'N');
    }
    assert("LocationCode"@ != "LocationName"@) by {
        assert("LocationCode"@[8] == 'C');
        assert("LocationName"@[8] == 'N');
    }
}

/// Decoding the canonical document of one record gives that record back.
proof fn lemma_record_roundtrip(r: TrainView)
    ensures
        record_of_tree(tree_of_record(r)) == Some(r),
{
    reveal_with_fuel(lookup, 10);
    lemma_key_facts();
    let fields = seq![
        ("Car"@, opt_tree(r.car)),
        ("Destination"@, JsonTree::Str(r.destination)),
        ("DestinationCode"@, opt_tree(r.destination_code)),
        ("DestinationName"@, JsonTree::Str(r.destination_name)),
        ("Group"@, JsonTree::Str(r.group)),
        ("Line"@, JsonTree::Str(r.line)),
        ("LocationCode"@, JsonTree::Str(r.location_code)),
        ("LocationName"@, JsonTree::Str(r.location_name)),
        ("Min"@, JsonTree::Str(r.min)),
    ];
    assert(tree_of_record(r) == JsonTree::Obj(fields));
    assert(lookup(fields, "Car"@) == Some(fields[0].1));
    assert(lookup(fields, "Destination"@) == Some(fields[1].1));
    assert(lookup(fields, "DestinationCode"@) == Some(fields[2].1));
    assert(lookup(fields, "DestinationName"@) == Some(fields[3].1));
    assert(lookup(fields, "Group"@) == Some(fields[4].1));
    assert(lookup(fields, "Line"@) == Some(fields[5].1));
    assert(lookup(fields, "LocationCode"@) == Some(fields[6].1));
    assert(lookup(fields, "LocationName"@) == Some(fields[7].1));
    assert(lookup(fields, "Min"@) == Some(fields[8].1));
}

/// Round-trip law, the record side: rendering any record sequence as its
/// canonical document and decoding that document strictly gives the same
/// sequence back.
pub proof fn lemma_extract_render_roundtrip(rs: Seq<TrainView>)
    ensures
        body_records(tree_of_records(rs)) == Some(rs),
{
    let ms = trees_of_records(rs);
    let fields = seq![("Trains"@, JsonTree::Arr(ms))];
    assert(tree_of_records(rs) == JsonTree::Obj(fields));
    assert(lookup(fields, "Trains"@) == Some(fields[0].1));
    assert forall|i: int| 0 <= i < ms.len() implies record_of_tree(#[trigger] ms[i]) is Some by {
        lemma_record_roundtrip(rs[i]);
    }
    assert(records_of_trees(ms) is Some);
    let back = records_of_trees(ms)->0;
    assert forall|i: int| 0 <= i < ms.len() implies #[trigger] back[i] == rs[i] by {
        lemma_record_roundtrip(rs[i]);
    }
    assert(back =~= rs);
}

/// Whether a record document is canonical: exactly the nine defined fields,
/// in the order the upstream grammar lists them, the two optional fields a
/// string or null, the rest strings.
pub open spec fn canonical_record(t: JsonTree) -> bool {
    match t {
        JsonTree::Obj(fields) => {
            &&& fields.len() == 9
            &&& fields[0].0 == "Car"@
            &&& (fields[0].1 is Str || fields[0].1 is Null)
            &&& fields[1].0 == "Destination"@
            &&& fields[1].1 is Str
            &&& fields[2].0 == "DestinationCode"@
            &&& (fields[2].1 is Str || fields[2].1 is Null)
            &&& fields[3].0 == "DestinationName"@
            &&& fields[3].1 is Str
            &&& fields[4].0 == "Group"@
            &&& fields[4].1 is Str
            &&& fields[5].0 == "Line"@
            &&& fields[5].1 is Str
            &&& fields[6].0 == "LocationCode"@
            &&& fields[6].1 is Str
            &&& fields[7].0 == "LocationName"@
            &&& fields[7].1 is Str
            &&& fields[8].0 == "Min"@
            &&& fields[8].1 is Str
        },
        _ => false,
    }
}

/// Whether a body document is canonical: one object whose single field, named
/// Trains, holds an array of canonical records.
pub open spec fn canonical_body(t: JsonTree) -> bool {
    match t {
        JsonTree::Obj(fields) => {
            &&& fields.len() == 1
            &&& fields[0].0 == "Trains"@
            &&& fields[0].1 is Arr
            &&& forall|i: int|
                0 <= i < (fields[0].1->Arr_0).len() ==> canonical_record(
                    #[trigger] (fields[0].1->Arr_0)[i],
                )
        },
        _ => false,
    }
}

proof fn lemma_canonical_record_roundtrip(t: JsonTree)
    requires
        canonical_record(t),
    ensures
        record_of_tree(t) is Some,
        tree_of_record(record_of_tree(t)->0) == t,
{
    reveal_with_fuel(lookup, 10);
    lemma_key_facts();
    let fields = t->Obj_0;
    assert(lookup(fields, "Car"@) == Some(fields[0].1));
    lemma_lookup_skip(fields, "Destination"@, 1);
    assert(fields.skip(1)[0] == fields[1]);
    lemma_lookup_skip(fields, "DestinationCode"@, 2);
    assert(fields.skip(2)[0] == fields[2]);
    lemma_lookup_skip(fields, "DestinationName"@, 3);
    assert(fields.skip(3)[0] == fields[3]);
    lemma_lookup_skip(fields, "Group"@, 4);
    assert(fields.skip(4)[0] == fields[4]);
    lemma_lookup_skip(fields, "Line"@, 5);
    assert(fields.skip(5)[0] == fields[5]);
    lemma_lookup_skip(fields, "LocationCode"@, 6);
    assert(fields.skip(6)[0] == fields[6]);
    lemma_lookup_skip(fields, "LocationName"@, 7);
    assert(fields.skip(7)[0] == fields[7]);
    lemma_lookup_skip(fields, "Min"@, 8);
    assert(fields.skip(8)[0] == fields[8]);
    assert(record_of_tree(t) is Some);
    let rv = record_of_tree(t)->0;
    assert(opt_tree(rv.car) == fields[0].1);
    assert(opt_tree(rv.destination_code) == fields[2].1);
    let rebuilt = seq![
        ("Car"@, opt_tree(rv.car)),
        ("Destination"@, JsonTree::Str(rv.destination)),
        ("DestinationCode"@, opt_tree(rv.destination_code)),
        ("DestinationName"@, JsonTree::Str(rv.destination_name)),
        ("Group"@, JsonTree::Str(rv.group)),
        ("Line"@, JsonTree::Str(rv.line)),
        ("LocationCode"@, JsonTree::Str(rv.location_code)),
        ("LocationName"@, JsonTree::Str(rv.location_name)),
        ("Min"@, JsonTree::Str(rv.min)),
    ];
    assert(rebuilt =~= fields);
    assert(tree_of_record(rv) == JsonTree::Obj(fields));
}

/// Round-trip law, the document side: a canonical body — one that holds
/// exactly the defined fields, in canonical order — decodes, and re-encoding
/// the decoded records rebuilds that document unchanged.
pub proof fn lemma_render_extract_roundtrip(t: JsonTree)
    requires
        canonical_body(t),
    ensures
        body_records(t) is Some,
        tree_of_records(body_records(t)->0) == t,
{
    let fields = t->Obj_0;
    let items = fields[0].1->Arr_0;
    assert(lookup(fields, "Trains"@) == Some(fields[0].1));
    assert forall|i: int| 0 <= i < items.len() implies record_of_tree(#[trigger] items[i])
        is Some by {
        lemma_canonical_record_roundtrip(items[i]);
    }
    assert(records_of_trees(items) is Some);
    let back = records_of_trees(items)->0;
    assert(body_records(t) == Some(back));
    assert forall|i: int| 0 <= i < back.len() implies #[trigger] trees_of_records(back)[i]
        == items[i] by {
        lemma_canonical_record_roundtrip(items[i]);
        assert(back[i] == record_of_tree(items[i])->0);
        assert(trees_of_records(back)[i] == tree_of_record(back[i]));
    }
    assert(trees_of_records(back) =~= items);
    assert(seq![("Trains"@, JsonTree::Arr(items))] =~= fields);
    assert(tree_of_records(back) == t);
}

/// Round-trip law, the body side: where a body text decodes, re-encoding the
/// decoded records yields a document that decodes to the same records — every
/// defined field survives the round trip.
pub proof fn lemma_decode_reencode(text: Seq<char>)
    requires
        spec_decode(text) is Some,
    ensures
        body_records(tree_of_records(spec_decode(text)->0)) == spec_decode(text),
{
    lemma_extract_render_roundtrip(spec_decode(text)->0);
}

} // verus!
