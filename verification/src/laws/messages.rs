//! Messages, member by member.

use vstd::prelude::*;

use crate::json::{
    call, carries, difficulty_notice, id_of, json_field, json_parse, json_text, lemma_keys_differ,
    list_of, method_of, notice, params_of, plain, refusal, reply, sent, subscription, text_or, Json,
    MAX_NESTING,
};

verus! {

/// Whether a message has some members and no others.
pub open spec fn has_only(msg: Json, a: Seq<char>, b: Seq<char>, c: Seq<char>) -> bool {
    msg is Obj && forall|key: Seq<char>|
        #[trigger] json_field(msg, key) is Some <==> key == a || key == b || key == c
}

/// Whether a message calls a method.
pub open spec fn says(msg: Json, method: Seq<char>) -> bool {
    json_field(msg, "method"@) == Some(Json::Str(method))
}

/// Whether a message has an identifier, null standing for a missing one.
pub open spec fn under_id(msg: Json, id: Json) -> bool {
    match json_field(msg, "id"@) {
        Some(given) => given == id,
        None => id == Json::Null,
    }
}

/// Whether a message has these parameters, none standing for anything but a list.
pub open spec fn with_params(msg: Json, params: Seq<Json>) -> bool {
    match json_field(msg, "params"@) {
        Some(Json::Arr(given)) => given == params,
        _ => params.len() == 0,
    }
}

/// Whether a message is the reply to a request: the request's identifier, a result
/// and an error.
pub open spec fn replies(msg: Json, id: Json, result: Json, error: Json) -> bool {
    &&& has_only(msg, "id"@, "result"@, "error"@)
    &&& json_field(msg, "id"@) == Some(id)
    &&& json_field(msg, "result"@) == Some(result)
    &&& json_field(msg, "error"@) == Some(error)
}

/// Whether a message grants a request.
pub open spec fn grants(msg: Json, id: Json) -> bool {
    replies(msg, id, Json::Bool(true), Json::Null)
}

/// Whether a message refuses a request with a result, a code and a text.
pub open spec fn refuses(msg: Json, id: Json, result: Json, code: u64, text: Seq<char>) -> bool {
    replies(msg, id, result, Json::Arr(seq![Json::Uint(code), Json::Str(text), Json::Null]))
}

/// Whether a message calls a method with parameters.
pub open spec fn calls(msg: Json, id: Json, method: Seq<char>, params: Seq<Json>) -> bool {
    &&& has_only(msg, "id"@, "method"@, "params"@)
    &&& json_field(msg, "id"@) == Some(id)
    &&& json_field(msg, "method"@) == Some(Json::Str(method))
    &&& json_field(msg, "params"@) == Some(Json::Arr(params))
}

/// Whether a message tells a difficulty.
pub open spec fn tells_difficulty(msg: Json, difficulty: Json) -> bool {
    calls(msg, Json::Null, "mining.set_difficulty"@, seq![difficulty])
}

/// Whether a message answers a subscription: the two notices under their names, the
/// extranonce 1 and the size of extranonce 2.
pub open spec fn subscribes(
    msg: Json,
    id: Json,
    difficulty_name: Seq<char>,
    notify_name: Seq<char>,
    extranonce1: Seq<char>,
    size: u64,
) -> bool {
    let names = seq![
        Json::Arr(seq![Json::Str("mining.set_difficulty"@), Json::Str(difficulty_name)]),
        Json::Arr(seq![Json::Str("mining.notify"@), Json::Str(notify_name)]),
    ];
    replies(
        msg,
        id,
        Json::Arr(seq![Json::Arr(names), Json::Str(extranonce1), Json::Uint(size)]),
        Json::Null,
    )
}

/// A reply has the identifier, the result and the error it was given, and nothing
/// else.
pub proof fn law_reply_has_its_members(id: Json, result: Json, error: Json)
    ensures
        replies(reply(id, result, error), id, result, error),
{
    lemma_keys_differ();
}

/// A call has the identifier, the method and the parameters it was given, and
/// nothing else; a notice is one without an identifier.
pub proof fn law_call_has_its_members(id: Json, method: Seq<char>, params: Seq<Json>)
    ensures
        calls(call(id, method, params), id, method, params),
        calls(notice(method, params), Json::Null, method, params),
{
    lemma_keys_differ();
}

/// The error of a refused request is its code, its text and null.
pub proof fn law_refusal_has_its_parts(id: Json, result: Json, code: u64, text: Seq<char>)
    ensures
        refuses(reply(id, result, refusal(code, text)), id, result, code, text),
{
    lemma_keys_differ();
}

/// The notice of a difficulty has the difficulty as its one parameter.
pub proof fn law_difficulty_is_told(difficulty: Json)
    ensures
        tells_difficulty(difficulty_notice(difficulty), difficulty),
{
    lemma_keys_differ();
}

/// The reply to a subscription has the names, the extranonce 1 and the size it was
/// given.
pub proof fn law_subscription_has_its_parts(
    id: Json,
    difficulty_name: Seq<char>,
    notify_name: Seq<char>,
    extranonce1: Seq<char>,
    size: u64,
)
    ensures
        subscribes(
            reply(
                id,
                subscription(difficulty_name, notify_name, extranonce1, size),
                Json::Null,
            ),
            id,
            difficulty_name,
            notify_name,
            extranonce1,
            size,
        ),
{
    lemma_keys_differ();
}

/// What is read out of a message is what it has: the method it calls, or nothing
/// where that is missing or no text; its identifier, or null; its parameters, or none.
pub proof fn law_message_is_read_as_it_is(
    msg: Json,
    method: Seq<char>,
    id: Json,
    params: Seq<Json>,
    key: Seq<char>,
)
    ensures
        says(msg, method) ==> method_of(msg) == method,
        method.len() > 0 && method_of(msg) == method ==> says(msg, method),
        (forall|m: Seq<char>| !says(msg, m)) ==> method_of(msg).len() == 0,
        under_id(msg, id) ==> id_of(msg) == id,
        under_id(msg, id_of(msg)),
        with_params(msg, params) ==> params_of(msg) == params,
        with_params(msg, params_of(msg)),
        list_of(msg, key) == Some(params) <==> json_field(msg, key) == Some(Json::Arr(params)),
        text_or(Json::Str(method), key) == method,
        !(msg is Str) ==> text_or(msg, key) == key,
{
    if with_params(msg, params) && params.len() == 0 {
        assert(params =~= Seq::empty());
    }
    if let Some(Json::Str(m)) = json_field(msg, "method"@) {
        assert(says(msg, m));
    }
    assert(with_params(msg, params_of(msg)));
}

/// What is sent for a message is its text and one line feed; the other side reads
/// the text as the message where that is plain, and finds no other line feed.
pub proof fn law_line_is_text_and_line_feed(line: Seq<char>, msg: Json, i: int)
    requires
        sent(line, msg),
    ensures
        line == json_text(msg) + seq!['\n'],
        plain(msg, MAX_NESTING as nat) ==> json_parse(json_text(msg)) == Some(msg),
        plain(msg, MAX_NESTING as nat) && 0 <= i < json_text(msg).len() ==> ' ' <= line[i],
{
    assert(line =~= json_text(msg) + seq!['\n']);
    if plain(msg, MAX_NESTING as nat) {
        assert(line.drop_last() =~= json_text(msg));
    }
}

/// A line that carries a message ends in a line feed, and what precedes that is read
/// as the message.
pub proof fn law_carried_message_is_read(line: Seq<char>, msg: Json)
    requires
        carries(line, msg),
    ensures
        line.len() > 0,
        line[line.len() - 1] == '\n',
        json_parse(line.subrange(0, line.len() - 1)) == Some(msg),
{
    assert(line.subrange(0, line.len() - 1) =~= line.drop_last());
}

/// Text, truth values, null and integers are plain, and so are lists of plain values
/// and objects with plain members, one level up.
pub proof fn law_plain_values(
    text: Seq<char>,
    truth: bool,
    n: u64,
    items: Seq<Json>,
    members: Map<Seq<char>, Json>,
    levels: nat,
)
    ensures
        plain(Json::Null, levels),
        plain(Json::Str(text), levels),
        plain(Json::Bool(truth), levels),
        plain(Json::Uint(n), levels),
        (forall|i: int| 0 <= i < items.len() ==> plain(#[trigger] items[i], levels)) ==> plain(
            Json::Arr(items),
            levels + 1,
        ),
        (forall|key: Seq<char>|
            members.contains_key(key) ==> plain(#[trigger] members[key], levels)) ==> plain(
            Json::Obj(members),
            levels + 1,
        ),
{
}

pub proof fn lemma_all_methods_differ()
    ensures
        "mining.subscribe"@ != "mining.authorize"@,
        "mining.subscribe"@ != "mining.submit"@,
        "mining.subscribe"@ != "mining.notify"@,
        "mining.subscribe"@ != "mining.set_difficulty"@,
        "mining.subscribe"@ != "mining.get_transactions"@,
        "mining.subscribe"@ != "mining.extranonce.subscribe"@,
        "mining.authorize"@ != "mining.submit"@,
        "mining.authorize"@ != "mining.get_transactions"@,
        "mining.authorize"@ != "mining.extranonce.subscribe"@,
        "mining.submit"@ != "mining.get_transactions"@,
        "mining.submit"@ != "mining.extranonce.subscribe"@,
        "mining.notify"@ != "mining.set_difficulty"@,
        "mining.get_transactions"@ != "mining.extranonce.subscribe"@,
        "mining.notify"@.len() > 0,
        "mining.set_difficulty"@.len() > 0,
        "mining.submit"@.len() > 0,
        "mining.subscribe"@.len() > 0,
        "mining.authorize"@.len() > 0,
        "mining.get_transactions"@.len() > 0,
        "mining.extranonce.subscribe"@.len() > 0,
{
    reveal_strlit("mining.subscribe");
    reveal_strlit("mining.authorize");
    reveal_strlit("mining.submit");
    reveal_strlit("mining.notify");
    reveal_strlit("mining.set_difficulty");
    reveal_strlit("mining.get_transactions");
    reveal_strlit("mining.extranonce.subscribe");
    assert("mining.subscribe"@.len() == 16 && "mining.authorize"@.len() == 16);
    assert("mining.subscribe"@[7] == 's' && "mining.authorize"@[7] == 'a');
    assert("mining.submit"@.len() == 13 && "mining.notify"@.len() == 13);
    assert("mining.set_difficulty"@.len() == 21);
    assert("mining.get_transactions"@.len() == 23);
    assert("mining.extranonce.subscribe"@.len() == 27);
}

}
