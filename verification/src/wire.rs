//! The protocol's lines: JSON-RPC 2.0, one message to a line.

use serde_json::Value;
use vstd::prelude::*;
use vstd::string::*;
use vstd::utf8::*;

use crate::handlers::{Reply, WireResult};
use crate::json::JsonView;
use crate::{handlers, json, text};

verus! {

/// A message that wants a reply.
pub struct Request {
    pub id: Value,
    pub method: String,
    pub params: Value,
}

/// The request that a message is: its id, its method and its parameters, which may be left
/// out. Without an id it is a notification, which wants no reply.
pub open spec fn request_of(message: JsonView) -> Option<(JsonView, Seq<char>, JsonView)> {
    match (message.member("id"@), json::text_member(message, "method"@)) {
        (Some(id), Some(method)) => Some(
            (
                id,
                method,
                match message.member("params"@) {
                    Some(params) => params,
                    None => JsonView::Obj(Map::empty()),
                },
            ),
        ),
        _ => None,
    }
}

/// What a line asks for: nothing where it is no JSON text.
pub open spec fn asked(message: Option<JsonView>) -> Option<(JsonView, Seq<char>, JsonView)> {
    match message {
        Some(m) => request_of(m),
        None => None,
    }
}

impl Request {
    pub open spec fn view(&self) -> (JsonView, Seq<char>, JsonView) {
        (json::value_view(self.id), self.method@, json::value_view(self.params))
    }

    /// Reads a line, white space around it left off.
    pub fn read(line: &str) -> (r: Option<Request>)
        ensures
            match r {
                Some(request) => asked(
                    json::json_parse(encode_utf8(text::trimmed(line@))),
                ) == Some(request.view()),
                None => asked(json::json_parse(encode_utf8(text::trimmed(line@)))) is None,
            },
    {
        let trimmed = text::trim(line);
        match json::parse(trimmed.as_str().as_bytes()) {
            Some(message) => Request::of(&message),
            None => None,
        }
    }

    /// The request that a message is.
    pub fn of(message: &Value) -> (r: Option<Request>)
        ensures
            match r {
                Some(request) => request_of(json::value_view(*message)) == Some(request.view()),
                None => request_of(json::value_view(*message)) is None,
            },
    {
        let id = match json::member(message, "id") {
            Some(id) => id.clone(),
            None => return None,
        };
        let method = match json::text_of(message, "method") {
            Some(method) => method.to_owned(),
            None => return None,
        };
        let params = match json::member(message, "params") {
            Some(params) => params.clone(),
            None => json::object(),
        };
        Some(Request { id, method, params })
    }
}

/// Whether a line holds nothing but white space.
pub fn is_blank(line: &str) -> (r: bool)
    ensures
        r == (text::trimmed(line@).len() == 0),
{
    text::trim(line).as_str().is_empty()
}

/// The message of a batch that is sent ahead of a reply.
pub open spec fn partial_json(batch: JsonView) -> JsonView {
    JsonView::Obj(
        map![
            "jsonrpc"@ => JsonView::Str("2.0"@),
            "method"@ => JsonView::Str("$/partial"@),
            "params"@ => batch,
        ],
    )
}

/// The message of a reply.
pub open spec fn reply_json(id: JsonView, result: WireResult) -> JsonView {
    let head = map!["jsonrpc"@ => JsonView::Str("2.0"@), "id"@ => id];
    JsonView::Obj(
        match result {
            Ok(v) => head.insert("result"@, json::value_view(v)),
            Err(e) => head.insert("error"@, handlers::error_json(e)),
        },
    )
}

/// The messages that a request is answered with.
pub open spec fn messages(id: JsonView, reply: Reply) -> Seq<JsonView> {
    match reply.partial {
        Some(batch) => seq![
            partial_json(json::value_view(batch)),
            reply_json(id, reply.result),
        ],
        None => seq![reply_json(id, reply.result)],
    }
}

/// A text stands on one line.
pub open spec fn one_line(s: Seq<char>) -> bool {
    forall|i: int| 0 <= i < s.len() ==> (#[trigger] s[i]) >= ' '
}

fn partial_document(batch: Value) -> (v: Value)
    ensures
        json::value_view(v) == partial_json(json::value_view(batch)),
{
    let v = json::with(json::object(), "jsonrpc", json::string("2.0"));
    let v = json::with(v, "method", json::string("$/partial"));
    json::with(v, "params", batch)
}

fn reply_document(id: Value, result: WireResult) -> (v: Value)
    ensures
        json::value_view(v) == reply_json(json::value_view(id), result),
{
    let v = json::with(json::object(), "jsonrpc", json::string("2.0"));
    let v = json::with(v, "id", id);
    match result {
        Ok(result) => json::with(v, "result", result),
        Err(e) => json::with(v, "error", e.to_json()),
    }
}

/// The lines that a request is answered with: the batch, if there is one, and then the
/// reply. None of them holds a line break, and reading one gives its message, as far as
/// reading can: where the message has no double in it and is not nested too deeply.
pub fn transcript(id: Value, reply: Reply) -> (r: Vec<String>)
    ensures
        text::texts(r@) == messages(json::value_view(id), reply).map_values(
            |j: JsonView| json::json_text(j),
        ),
        forall|i: int| 0 <= i < r@.len() ==> one_line((#[trigger] r@[i])@),
        forall|i: int|
            0 <= i < r@.len() && messages(json::value_view(id), reply)[i].exact(127)
                ==> json::json_parse(encode_utf8((#[trigger] r@[i])@)) == Some(
                messages(json::value_view(id), reply)[i],
            ),
{
    let mut lines: Vec<String> = Vec::new();
    if let Some(batch) = reply.partial {
        lines.push(json::to_text(&partial_document(batch)));
    }
    lines.push(json::to_text(&reply_document(id, reply.result)));
    assert(text::texts(lines@) == messages(json::value_view(id), reply).map_values(
        |j: JsonView| json::json_text(j),
    ));
    lines
}

/// The last of the lines that a request is answered with: the reply.
pub fn respond(id: Value, reply: Reply) -> (r: String)
    ensures
        r@ == json::json_text(messages(json::value_view(id), reply).last()),
        one_line(r@),
{
    json::to_text(&reply_document(id, reply.result))
}

// -- laws --------------------------------------------------------------------------------------

/// A message without an id is a notification, and gets no answer.
pub proof fn notifications_get_no_answer(message: JsonView)
    requires
        message.member("id"@) is None,
    ensures
        asked(Some(message)) is None,
{
}

/// A request is answered with one reply, which comes last. It carries the id of the request,
/// and either a result or an error. What comes before it carries no id of its own.
pub proof fn one_reply_comes_last(id: JsonView, reply: Reply)
    ensures
        ({
            let all = messages(id, reply);
            let last = all.last();
            &&& all.len() > 0
            &&& reply.partial is None ==> all.len() == 1
            &&& last.member("id"@) == Some(id)
            &&& last.member("result"@) is Some <==> reply.result is Ok
            &&& last.member("error"@) is Some <==> reply.result is Err
            &&& forall|i: int|
                0 <= i < all.len() - 1 ==> (#[trigger] all[i]).member("id"@) is None
                    && all[i].member("method"@) == Some(JsonView::Str("$/partial"@))
        }),
{
    reveal_strlit("jsonrpc");
    reveal_strlit("id");
    reveal_strlit("method");
    reveal_strlit("params");
    reveal_strlit("result");
    reveal_strlit("error");
    assert("id"@.len() == 2 && "jsonrpc"@.len() == 7 && "error"@.len() == 5);
    assert("method"@[0] == 'm' && "params"@[0] == 'p' && "result"@[0] == 'r');
}

/// A message with an id and a method is a request for them, with its parameters; left out, they
/// are an object without members. A message whose method is missing, or no text, is none.
pub proof fn requests_are_read_member_by_member(message: JsonView)
    ensures
        asked(None) is None,
        asked(Some(message)) is Some <==> message.member("id"@) is Some && message.member(
            "method"@,
        ) is Some && message.member("method"@)->0 is Str,
        asked(Some(message)) is Some ==> {
            let (id, method, params) = asked(Some(message))->0;
            &&& message.member("id"@) == Some(id)
            &&& message.member("method"@) == Some(JsonView::Str(method))
            &&& message.member("params"@) is Some ==> message.member("params"@) == Some(params)
            &&& message.member("params"@) is None ==> params == JsonView::Obj(Map::empty())
        },
{
}

/// A reply is a message of version 2.0 with the id of the request and the result or the error,
/// and nothing else. What comes before it is a notification of a batch.
pub proof fn replies_are_messages(id: JsonView, reply: Reply)
    ensures
        ({
            let last = messages(id, reply).last();
            &&& last.member("jsonrpc"@) == Some(JsonView::Str("2.0"@))
            &&& last.member("id"@) == Some(id)
            &&& match reply.result {
                Ok(v) => {
                    &&& last.member("result"@) == Some(json::value_view(v))
                    &&& last->Obj_0.dom() == set!["jsonrpc"@, "id"@, "result"@]
                },
                Err(e) => {
                    &&& last.member("error"@) == Some(handlers::error_json(e))
                    &&& last->Obj_0.dom() == set!["jsonrpc"@, "id"@, "error"@]
                },
            }
        }),
        messages(id, reply).len() == if reply.partial is Some {
            2int
        } else {
            1
        },
        reply.partial matches Some(batch) ==> {
            let first = messages(id, reply)[0];
            &&& first.member("jsonrpc"@) == Some(JsonView::Str("2.0"@))
            &&& first.member("method"@) == Some(JsonView::Str("$/partial"@))
            &&& first.member("params"@) == Some(json::value_view(batch))
            &&& first->Obj_0.dom() == set!["jsonrpc"@, "method"@, "params"@]
        },
{
    reveal_strlit("jsonrpc");
    reveal_strlit("id");
    reveal_strlit("method");
    reveal_strlit("params");
    reveal_strlit("result");
    reveal_strlit("error");
    assert("id"@.len() == 2 && "jsonrpc"@.len() == 7 && "error"@.len() == 5);
    assert("method"@.len() == 6 && "params"@.len() == 6 && "result"@.len() == 6);
    assert("method"@[0] == 'm' && "params"@[0] == 'p');
    let last = messages(id, reply).last();
    assert(last == reply_json(id, reply.result));
    match reply.result {
        Ok(v) => {
            assert(last->Obj_0.dom() =~= set!["jsonrpc"@, "id"@, "result"@]);
        },
        Err(e) => {
            assert(last->Obj_0.dom() =~= set!["jsonrpc"@, "id"@, "error"@]);
        },
    }
    if let Some(batch) = reply.partial {
        let first = messages(id, reply)[0];
        assert(first->Obj_0.dom() =~= set!["jsonrpc"@, "method"@, "params"@]);
    }
}

} // verus!
