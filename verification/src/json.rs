//! JSON values, and the shapes that mining messages have.

use vstd::prelude::*;
use vstd::string::StringExecFns;

use serde_json::Value;

use crate::text::{is_blank_text, is_space};

verus! {

/// What a JSON value holds.
///
/// A number that is a `u64` is seen as that integer; any other number (negative,
/// or with a fraction or an exponent) is seen as the text it is printed as.
pub enum Json {
    Null,
    Bool(bool),
    Uint(u64),
    Number(Seq<char>),
    Str(Seq<char>),
    Arr(Seq<Json>),
    Obj(Map<Seq<char>, Json>),
}

#[verifier::external_type_specification]
#[verifier::external_body]
pub struct ExValue(serde_json::Value);

#[verifier::external_type_specification]
#[verifier::external_body]
pub struct ExJsonError(serde_json::Error);

/// What a `serde_json::Value` holds.
pub uninterp spec fn json_view(v: serde_json::Value) -> Json;

/// What `serde_json::from_str` reads in a text; `None` where it fails.
pub uninterp spec fn json_parse(text: Seq<char>) -> Option<Json>;

/// The text that `serde_json::to_string` prints for a value.
pub uninterp spec fn json_text(value: Json) -> Seq<char>;

/// What the values of a list hold.
pub open spec fn json_items(items: Seq<Value>) -> Seq<Json> {
    items.map_values(|v: Value| json_view(v))
}

/// The object that a list of entries makes, of which no two have one key.
pub open spec fn json_entries(entries: Seq<(String, Value)>) -> Map<Seq<char>, Json>
    decreases entries.len(),
{
    if entries.len() == 0 {
        Map::empty()
    } else {
        let (key, value) = entries.last();
        json_entries(entries.drop_last()).insert(key@, json_view(value))
    }
}

/// How deep arrays and objects may nest in a text for `serde_json` to read it.
pub const MAX_NESTING: u64 = 127;

/// Whether a value has arrays and objects nested no deeper than some levels, and
/// no numbers but integers from zero to `u64::MAX`.
pub open spec fn plain(value: Json, levels: nat) -> bool
    decreases levels,
{
    match value {
        Json::Number(_) => false,
        Json::Arr(items) => levels > 0 && forall|i: int|
            0 <= i < items.len() ==> plain(#[trigger] items[i], (levels - 1) as nat),
        Json::Obj(members) => levels > 0 && forall|key: Seq<char>|
            members.contains_key(key) ==> plain(#[trigger] members[key], (levels - 1) as nat),
        _ => true,
    }
}

/// `serde_json::from_str` into a `Value`: whether it succeeds, and with what,
/// depends on the text alone.
#[verifier::external_body]
pub(crate) fn parse_json(text: &str) -> (r: Result<Value, serde_json::Error>)
    ensures
        match r {
            Ok(v) => json_parse(text@) == Some(json_view(v)),
            Err(_) => json_parse(text@) is None,
        },
{
    serde_json::from_str(text)
}

/// `serde_json::to_string` on a `Value`, which has no value it fails on: the
/// text depends on what the value holds alone, starts with something other than
/// white space and has no control characters below the space, which are escaped
/// in strings. `serde_json::from_str` reads the value back from it where the
/// value nests no deeper than it reads and its numbers are integers from zero to
/// `u64::MAX`; of other numbers nothing is said.
#[verifier::external_body]
pub(crate) fn print_json(value: &Value) -> (r: String)
    ensures
        r@ == json_text(json_view(*value)),
        r@.len() > 0,
        !is_space(r@[0]),
        forall|i: int| 0 <= i < r@.len() ==> ' ' <= #[trigger] r@[i],
        plain(json_view(*value), MAX_NESTING as nat) ==> json_parse(r@) == Some(json_view(*value)),
{
    serde_json::to_string(value).unwrap()
}

/// `serde_json::Value::get` with a string: the member of an object under that
/// key, and `None` for a missing key or another kind of value.
#[verifier::external_body]
pub(crate) fn json_get<'a>(value: &'a Value, key: &str) -> (r: Option<&'a Value>)
    ensures
        match r {
            Some(v) => json_field(json_view(*value), key@) == Some(json_view(*v)),
            None => json_field(json_view(*value), key@) is None,
        },
{
    value.get(key)
}

/// `serde_json::Value::as_str`: the text of a string, `None` for another kind
/// of value.
#[verifier::external_body]
pub(crate) fn json_as_str(value: &Value) -> (r: Option<&str>)
    ensures
        match r {
            Some(s) => json_view(*value) == Json::Str(s@),
            None => !(json_view(*value) is Str),
        },
{
    value.as_str()
}

/// `serde_json::Value::as_array`: the items of an array, `None` for another
/// kind of value.
#[verifier::external_body]
pub(crate) fn json_as_array(value: &Value) -> (r: Option<&Vec<Value>>)
    ensures
        match r {
            Some(a) => json_view(*value) == Json::Arr(json_items(a@)),
            None => !(json_view(*value) is Arr),
        },
{
    value.as_array()
}

/// `serde_json::Value::as_u64`: the integer of a number that is one between
/// zero and `u64::MAX`, `None` for anything else.
#[verifier::external_body]
pub(crate) fn json_as_u64(value: &Value) -> (r: Option<u64>)
    ensures
        match r {
            Some(n) => json_view(*value) == Json::Uint(n),
            None => !(json_view(*value) is Uint),
        },
{
    value.as_u64()
}

/// `serde_json::Value::as_bool`: the value of a boolean, `None` for another kind
/// of value.
#[verifier::external_body]
pub(crate) fn json_as_bool(value: &Value) -> (r: Option<bool>)
    ensures
        match r {
            Some(b) => json_view(*value) == Json::Bool(b),
            None => !(json_view(*value) is Bool),
        },
{
    value.as_bool()
}

/// `serde_json::Value::clone`: a value that holds the same.
#[verifier::external_body]
pub(crate) fn json_clone(value: &Value) -> (r: Value)
    ensures
        json_view(r) == json_view(*value),
{
    value.clone()
}

/// `serde_json::Value::Null`.
#[verifier::external_body]
pub(crate) fn json_null() -> (r: Value)
    ensures
        json_view(r) == Json::Null,
{
    Value::Null
}

/// `serde_json::Value::Bool`.
#[verifier::external_body]
pub(crate) fn json_bool(b: bool) -> (r: Value)
    ensures
        json_view(r) == Json::Bool(b),
{
    Value::Bool(b)
}

/// `serde_json::Value::from` on a `u64`: a number that is that integer.
#[verifier::external_body]
pub(crate) fn json_uint(n: u64) -> (r: Value)
    ensures
        json_view(r) == Json::Uint(n),
{
    Value::from(n)
}

/// `serde_json::Value::String`.
#[verifier::external_body]
pub(crate) fn json_string(s: String) -> (r: Value)
    ensures
        json_view(r) == Json::Str(s@),
{
    Value::String(s)
}

/// `serde_json::Value::Array`.
#[verifier::external_body]
pub(crate) fn json_array(items: Vec<Value>) -> (r: Value)
    ensures
        json_view(r) == Json::Arr(json_items(items@)),
{
    Value::Array(items)
}

/// `serde_json::Value::Object` on a `serde_json::Map` collected from entries with
/// different keys: the object that has these entries. Which of two entries with
/// one key would stay is left open there.
#[verifier::external_body]
pub(crate) fn json_object(entries: Vec<(String, Value)>) -> (r: Value)
    requires
        forall|i: int, j: int|
            0 <= i < j < entries@.len() ==> (#[trigger] entries@[i]).0@ != (
            #[trigger] entries@[j]).0@,
    ensures
        json_view(r) == Json::Obj(json_entries(entries@)),
{
    Value::Object(serde_json::Map::from_iter(entries))
}

/// The member of an object under a key.
pub open spec fn json_field(value: Json, key: Seq<char>) -> Option<Json> {
    match value {
        Json::Obj(members) => if members.contains_key(key) {
            Some(members[key])
        } else {
            None
        },
        _ => None,
    }
}

/// The text of a string, or a default for anything else.
pub open spec fn text_or(value: Json, default: Seq<char>) -> Seq<char> {
    match value {
        Json::Str(s) => s,
        _ => default,
    }
}

/// The method that a message names; empty where it names none.
pub open spec fn method_of(msg: Json) -> Seq<char> {
    match json_field(msg, "method"@) {
        Some(m) => text_or(m, Seq::empty()),
        None => Seq::empty(),
    }
}

/// The identifier of a message; null where it has none.
pub open spec fn id_of(msg: Json) -> Json {
    match json_field(msg, "id"@) {
        Some(id) => id,
        None => Json::Null,
    }
}

/// The array that a message holds under a key.
pub open spec fn list_of(msg: Json, key: Seq<char>) -> Option<Seq<Json>> {
    match json_field(msg, key) {
        Some(Json::Arr(items)) => Some(items),
        _ => None,
    }
}

/// The parameters of a message; none where it holds no list of them.
pub open spec fn params_of(msg: Json) -> Seq<Json> {
    match list_of(msg, "params"@) {
        Some(items) => items,
        None => Seq::empty(),
    }
}

/// A reply: the identifier of the request, a result and an error.
pub open spec fn reply(id: Json, result: Json, error: Json) -> Json {
    Json::Obj(map!["id"@ => id, "result"@ => result, "error"@ => error])
}

/// A call of a method.
pub open spec fn call(id: Json, method: Seq<char>, params: Seq<Json>) -> Json {
    Json::Obj(map!["id"@ => id, "method"@ => Json::Str(method), "params"@ => Json::Arr(params)])
}

/// A call that wants no reply.
pub open spec fn notice(method: Seq<char>, params: Seq<Json>) -> Json {
    call(Json::Null, method, params)
}

/// The error of a refused request: a code, a text and no further data.
pub open spec fn refusal(code: u64, text: Seq<char>) -> Json {
    Json::Arr(seq![Json::Uint(code), Json::Str(text), Json::Null])
}

/// The line that carries a message: its text and a line feed.
pub open spec fn line_of(msg: Json) -> Seq<char> {
    json_text(msg).push('\n')
}

/// Whether a text is read as a message.
pub open spec fn reads_as(text: Seq<char>, msg: Json) -> bool {
    !is_blank_text(text) && json_parse(text) == Some(msg)
}

/// Whether a line is one that the other side reads as a message: a line feed ends
/// it and stands nowhere else, and what precedes it is the text of the message.
pub open spec fn carries(line: Seq<char>, msg: Json) -> bool {
    &&& line.len() > 0
    &&& line.last() == '\n'
    &&& forall|i: int| 0 <= i < line.len() - 1 ==> ' ' <= #[trigger] line[i]
    &&& reads_as(line.drop_last(), msg)
}

/// Whether a line is what is sent for a message: the text of the message and a line
/// feed, and where the message is plain, the other side reads it as the message.
pub open spec fn sent(line: Seq<char>, msg: Json) -> bool {
    line == line_of(msg) && (plain(msg, MAX_NESTING as nat) ==> carries(line, msg))
}

/// Whether lines are what is sent for messages, one for each and in order.
pub open spec fn all_sent(lines: Seq<String>, msgs: Seq<Json>) -> bool {
    lines.len() == msgs.len() && forall|i: int|
        0 <= i < lines.len() ==> sent((#[trigger] lines[i])@, msgs[i])
}

/// The message that tells a miner its difficulty.
pub open spec fn difficulty_notice(difficulty: Json) -> Json {
    notice("mining.set_difficulty"@, seq![difficulty])
}

/// The result of a subscription: the two notices that follow under their
/// subscription names, the miner's extranonce 1 and the size of its extranonce 2.
pub open spec fn subscription(
    difficulty_name: Seq<char>,
    notify_name: Seq<char>,
    extranonce1: Seq<char>,
    extranonce2_size: u64,
) -> Json {
    Json::Arr(
        seq![
            Json::Arr(
                seq![
                    Json::Arr(
                        seq![Json::Str("mining.set_difficulty"@), Json::Str(difficulty_name)],
                    ),
                    Json::Arr(seq![Json::Str("mining.notify"@), Json::Str(notify_name)]),
                ],
            ),
            Json::Str(extranonce1),
            Json::Uint(extranonce2_size),
        ],
    )
}

/// The items of a list of texts.
pub open spec fn text_items(texts: Seq<Seq<char>>) -> Seq<Json> {
    texts.map_values(|t: Seq<char>| Json::Str(t))
}

pub(crate) fn object3(
    k1: &str,
    v1: Value,
    k2: &str,
    v2: Value,
    k3: &str,
    v3: Value,
) -> (r: Value)
    requires
        k1@ != k2@,
        k1@ != k3@,
        k2@ != k3@,
    ensures
        json_view(r) == Json::Obj(
            map![k1@ => json_view(v1), k2@ => json_view(v2), k3@ => json_view(v3)],
        ),
{
    let mut entries: Vec<(String, Value)> = Vec::new();
    entries.push((k1.to_owned(), v1));
    entries.push((k2.to_owned(), v2));
    entries.push((k3.to_owned(), v3));
    proof {
        reveal_with_fuel(json_entries, 4);
        let e = entries@;
        assert(e.drop_last() == seq![e[0], e[1]]);
        assert(e.drop_last().drop_last() == seq![e[0]]);
        assert(e.drop_last().drop_last().drop_last() == Seq::<(String, Value)>::empty());
    }
    json_object(entries)
}

/// The keys of replies and calls are different.
pub proof fn lemma_keys_differ()
    ensures
        "method"@ != "id"@,
        "method"@ != "result"@,
        "method"@ != "error"@,
        "method"@ != "params"@,
        "params"@ != "id"@,
        "result"@ != "id"@,
        "result"@ != "error"@,
        "error"@ != "id"@,
{
    reveal_strlit("method");
    reveal_strlit("id");
    reveal_strlit("result");
    reveal_strlit("error");
    reveal_strlit("params");
    assert("id"@.len() == 2 && "error"@.len() == 5);
    assert("method"@.len() == 6 && "result"@.len() == 6 && "params"@.len() == 6);
    assert("method"@[0] == 'm' && "result"@[0] == 'r' && "params"@[0] == 'p');
}

/// A call with plain parameters under a plain identifier is plain.
pub proof fn lemma_plain_call(id: Json, method: Seq<char>, params: Seq<Json>, levels: nat)
    requires
        plain(id, levels + 1),
        forall|i: int| 0 <= i < params.len() ==> plain(#[trigger] params[i], levels),
    ensures
        plain(call(id, method, params), levels + 2),
{
    assert(plain(Json::Arr(params), levels + 1));
    assert(plain(Json::Str(method), levels + 1));
}

/// A reply with a plain result and error under a plain identifier is plain.
pub proof fn lemma_plain_reply(id: Json, result: Json, error: Json, levels: nat)
    requires
        plain(id, levels),
        plain(result, levels),
        plain(error, levels),
    ensures
        plain(reply(id, result, error), levels + 1),
{
}

/// The error of a refused request is plain.
pub proof fn lemma_plain_refusal(code: u64, text: Seq<char>, levels: nat)
    requires
        levels >= 1,
    ensures
        plain(refusal(code, text), levels),
{
    reveal_with_fuel(plain, 2);
}

/// The result of a subscription is plain.
pub proof fn lemma_plain_subscription(
    difficulty_name: Seq<char>,
    notify_name: Seq<char>,
    extranonce1: Seq<char>,
    extranonce2_size: u64,
    levels: nat,
)
    requires
        levels >= 3,
    ensures
        plain(subscription(difficulty_name, notify_name, extranonce1, extranonce2_size), levels),
{
    reveal_with_fuel(plain, 4);
}

/// Builds a reply.
pub fn make_reply(id: Value, result: Value, error: Value) -> (r: Value)
    ensures
        json_view(r) == reply(json_view(id), json_view(result), json_view(error)),
{
    proof {
        lemma_keys_differ();
    }
    object3("id", id, "result", result, "error", error)
}

/// Builds the reply that grants a request.
pub fn make_grant(id: Value) -> (r: Value)
    ensures
        json_view(r) == reply(json_view(id), Json::Bool(true), Json::Null),
{
    make_reply(id, json_bool(true), json_null())
}

/// Builds a call of a method.
pub fn make_call(id: Value, method: &str, params: Vec<Value>) -> (r: Value)
    ensures
        json_view(r) == call(json_view(id), method@, json_items(params@)),
{
    proof {
        lemma_keys_differ();
    }
    object3("id", id, "method", json_string(method.to_owned()), "params", json_array(params))
}

/// Builds the error of a refused request.
pub fn make_refusal(code: u64, text: &str) -> (r: Value)
    ensures
        json_view(r) == refusal(code, text@),
{
    let items = vec![json_uint(code), json_string(text.to_owned()), json_null()];
    assert(json_items(items@) =~= seq![Json::Uint(code), Json::Str(text@), Json::Null]);
    json_array(items)
}

/// Builds the notice of a difficulty.
pub fn make_difficulty_notice(difficulty: &Value) -> (r: Value)
    ensures
        json_view(r) == difficulty_notice(json_view(*difficulty)),
{
    let params = vec![json_clone(difficulty)];
    assert(json_items(params@) =~= seq![json_view(*difficulty)]);
    make_call(json_null(), "mining.set_difficulty", params)
}

fn pair(a: &str, b: &str) -> (r: Value)
    ensures
        json_view(r) == Json::Arr(seq![Json::Str(a@), Json::Str(b@)]),
{
    let items = vec![json_string(a.to_owned()), json_string(b.to_owned())];
    assert(json_items(items@) =~= seq![Json::Str(a@), Json::Str(b@)]);
    json_array(items)
}

/// Builds the result of a subscription.
pub fn make_subscription(
    difficulty_name: &str,
    notify_name: &str,
    extranonce1: String,
    extranonce2_size: u64,
) -> (r: Value)
    ensures
        json_view(r) == subscription(
            difficulty_name@,
            notify_name@,
            extranonce1@,
            extranonce2_size,
        ),
{
    let names = vec![
        pair("mining.set_difficulty", difficulty_name),
        pair("mining.notify", notify_name),
    ];
    assert(json_items(names@) =~= seq![
        Json::Arr(seq![Json::Str("mining.set_difficulty"@), Json::Str(difficulty_name@)]),
        Json::Arr(seq![Json::Str("mining.notify"@), Json::Str(notify_name@)]),
    ]);
    let items = vec![json_array(names), json_string(extranonce1), json_uint(extranonce2_size)];
    assert(json_items(items@) =~= seq![
        Json::Arr(json_items(names@)),
        Json::Str(extranonce1@),
        Json::Uint(extranonce2_size),
    ]);
    json_array(items)
}

/// Prints a message as a line.
pub fn make_line(msg: &Value) -> (r: String)
    ensures
        sent(r@, json_view(*msg)),
{
    let mut line = print_json(msg);
    let ghost text = line@;
    proof {
        reveal_strlit("\n");
    }
    line.append("\n");
    assert(line@ =~= line_of(json_view(*msg)));
    assert(line@.drop_last() =~= text);
    assert(!is_space(text[0]));
    line
}

/// Reads the text of a string, or a default for anything else.
pub fn read_text(value: &Value, default: &str) -> (r: String)
    ensures
        r@ == text_or(json_view(*value), default@),
{
    match json_as_str(value) {
        Some(s) => s.to_owned(),
        None => default.to_owned(),
    }
}

/// Reads the method of a message.
pub fn read_method(msg: &Value) -> (r: String)
    ensures
        r@ == method_of(json_view(*msg)),
{
    proof {
        reveal_strlit("");
        assert(""@ =~= Seq::<char>::empty());
    }
    match json_get(msg, "method") {
        Some(m) => read_text(m, ""),
        None => String::new(),
    }
}

/// Reads the identifier of a message.
pub fn read_id(msg: &Value) -> (r: Value)
    ensures
        json_view(r) == id_of(json_view(*msg)),
{
    match json_get(msg, "id") {
        Some(id) => json_clone(id),
        None => json_null(),
    }
}

/// Reads the array that a message holds under a key.
pub fn read_list<'a>(msg: &'a Value, key: &str) -> (r: Option<&'a Vec<Value>>)
    ensures
        match r {
            Some(items) => list_of(json_view(*msg), key@) == Some(json_items(items@)),
            None => list_of(json_view(*msg), key@) is None,
        },
{
    match json_get(msg, key) {
        Some(value) => json_as_array(value),
        None => None,
    }
}

}
