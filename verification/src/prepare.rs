//! `PUT /prepare`: the preparation of a timed write.
//!
//! A controller sends `{"ttl": <ms>, "pid": <n>}` and expects `{"status": 0}`. The time to live is
//! acknowledged and not enforced: a later write is executed whenever it comes.
use crate::http::{
    json_response, json_view, lemma_typed_fields, same_text, HttpResponse, HttpResponseView,
    Method,
};
use crate::outside::{json_document, parse_json};
use vstd::prelude::*;
use vstd::utf8::encode_utf8;

verus! {

/// The value of a member of a JSON object, as far as a preparation request is read.
#[derive(Clone, Copy, Debug, PartialEq, Eq, Structural)]
pub enum JsonValue {
    /// A number; `unsigned` is its value where it is an integer that fits into 64 bits without a
    /// sign.
    Number { unsigned: Option<u64> },
    /// Anything but a number.
    Other,
}

/// A JSON document: the members of an object, or `None` for anything but an object.
#[derive(Debug)]
pub struct JsonDocument {
    pub members: Option<Vec<(String, JsonValue)>>,
}

/// The members of a JSON object by their names and values.
pub open spec fn members_view(members: Seq<(String, JsonValue)>) -> Seq<(Seq<char>, JsonValue)> {
    members.map_values(|member: (String, JsonValue)| (member.0@, member.1))
}

impl View for JsonDocument {
    type V = Option<Seq<(Seq<char>, JsonValue)>>;

    open spec fn view(&self) -> Option<Seq<(Seq<char>, JsonValue)>> {
        match self.members {
            Some(members) => Some(members_view(members@)),
            None => None,
        }
    }
}

/// The value of the member of that name among the members.
pub open spec fn member(members: Seq<(Seq<char>, JsonValue)>, name: Seq<char>) -> Option<JsonValue>
    decreases members.len(),
{
    if members.len() == 0 {
        None
    } else if members[0].0 == name {
        Some(members[0].1)
    } else {
        member(members.skip(1), name)
    }
}

/// The value of the member of that name in the document.
pub open spec fn document_member(
    document: Option<Seq<(Seq<char>, JsonValue)>>,
    name: Seq<char>,
) -> Option<JsonValue> {
    match document {
        Some(members) => member(members, name),
        None => None,
    }
}

/// The document says which write it prepares, by any number, and for how long, by a positive
/// integer.
pub open spec fn well_formed(document: Option<Seq<(Seq<char>, JsonValue)>>) -> bool {
    &&& document_member(document, "pid"@) matches Some(JsonValue::Number { .. })
    &&& document_member(document, "ttl"@) matches Some(JsonValue::Number { unsigned: Some(ttl) })
    &&& ttl > 0
}

/// The answer to a preparation: status `0` for a well-formed `PUT`, and "invalid value in request"
/// for anything else.
pub open spec fn prepare_view(
    method: Method,
    empty: bool,
    document: Option<Seq<(Seq<char>, JsonValue)>>,
) -> HttpResponseView {
    if method is Put && !empty && well_formed(document) {
        json_view("{\"status\":0}"@, 200)
    } else {
        json_view("{\"status\":-70410}"@, 400)
    }
}

impl JsonDocument {
    /// The value of the member of that name.
    pub fn get(&self, name: &str) -> (value: Option<JsonValue>)
        ensures
            value == document_member(self@, name@),
    {
        let members: &Vec<(String, JsonValue)> = match &self.members {
            Some(members) => members,
            None => return None,
        };
        let ghost all = members_view(members@);
        let mut i: usize = 0;
        assert(all.skip(0) =~= all);
        while i < members.len()
            invariant
                i <= members@.len(),
                all == members_view(members@),
                document_member(self@, name@) == member(all.skip(i as int), name@),
            decreases members@.len() - i,
        {
            assert(all.skip(i as int)[0] == (members@[i as int].0@, members@[i as int].1));
            if same_text(members[i].0.as_str(), name) {
                return Some(members[i].1);
            }
            i = i + 1;
            assert(all.skip(i - 1).skip(1) =~= all.skip(i as int));
        }
        None
    }
}

/// Answers a preparation by what its body holds.
pub fn answer_prepare(method: Method, empty: bool, document: &JsonDocument) -> (response:
    HttpResponse)
    ensures
        response@ == prepare_view(method, empty, document@),
{
    let pid: bool = matches!(document.get("pid"), Some(JsonValue::Number { .. }));
    let ttl: u64 = match document.get("ttl") {
        Some(JsonValue::Number { unsigned: Some(ttl) }) => ttl,
        _ => 0,
    };
    if method == Method::Put && !empty && pid && ttl > 0 {
        json_response("{\"status\":0}", 200)
    } else {
        json_response("{\"status\":-70410}", 400)
    }
}

/// Answers a preparation. A body that is not JSON says nothing.
pub fn prepare(method: Method, body: &Vec<u8>) -> (response: HttpResponse)
    ensures
        response@ == prepare_view(
            method,
            body@.len() == 0,
            match json_document(body@) {
                Some(document) => document,
                None => None,
            },
        ),
{
    let document: JsonDocument = match parse_json(body.as_slice()) {
        Some(document) => document,
        None => JsonDocument { members: None },
    };
    answer_prepare(method, body.len() == 0, &document)
}

/// Which write is prepared has no say in the answer: any number will do for `pid`, also one that
/// no signed integer holds.
pub proof fn law_any_number_is_a_pid(
    method: Method,
    ttl: u64,
    pid: Option<u64>,
    other: Option<u64>,
)
    ensures
        prepare_view(method, false, Some(request_members(pid, ttl))) == prepare_view(
            method,
            false,
            Some(request_members(other, ttl)),
        ),
        method is Put && ttl > 0 ==> prepare_view(method, false, Some(request_members(pid, ttl)))
            == json_view("{\"status\":0}"@, 200),
{
    lemma_request_members(pid, ttl);
    lemma_request_members(other, ttl);
}

/// A preparation request of exactly a `pid` and a `ttl`.
pub open spec fn request_members(pid: Option<u64>, ttl: u64) -> Seq<(Seq<char>, JsonValue)> {
    seq![
        ("pid"@, JsonValue::Number { unsigned: pid }),
        ("ttl"@, JsonValue::Number { unsigned: Some(ttl) }),
    ]
}

proof fn lemma_request_members(pid: Option<u64>, ttl: u64)
    ensures
        member(request_members(pid, ttl), "pid"@) == Some(JsonValue::Number { unsigned: pid }),
        member(request_members(pid, ttl), "ttl"@) == Some(
            JsonValue::Number { unsigned: Some(ttl) },
        ),
{
    reveal_strlit("pid");
    reveal_strlit("ttl");
    reveal_with_fuel(member, 3);
    assert("pid"@[0] != "ttl"@[0]);
}

/// Only a `PUT` with a body that names a number for `pid` and a positive integer for `ttl` is
/// accepted; everything else is a bad request with "invalid value in request".
pub proof fn law_only_complete_preparations_are_accepted(
    method: Method,
    empty: bool,
    document: Option<Seq<(Seq<char>, JsonValue)>>,
)
    ensures
        prepare_view(method, empty, document).status == 200 <==> {
            &&& method is Put
            &&& !empty
            &&& document_member(document, "pid"@) is Some
            &&& document_member(document, "pid"@) != Some(JsonValue::Other)
            &&& exists|ttl: u64|
                ttl > 0 && document_member(document, "ttl"@) == Some(
                    #[trigger] unsigned_integer(ttl),
                )
        },
        prepare_view(method, empty, document).status != 200 ==> prepare_view(
            method,
            empty,
            document,
        ) == json_view("{\"status\":-70410}"@, 400),
{
    if let Some(JsonValue::Number { unsigned: Some(ttl) }) = document_member(document, "ttl"@) {
        assert(document_member(document, "ttl"@) == Some(unsigned_integer(ttl)));
    }
}

/// A number that is an integer without a sign.
pub open spec fn unsigned_integer(value: u64) -> JsonValue {
    JsonValue::Number { unsigned: Some(value) }
}

/// A lookup gives the value of the first member of that name, and nothing where no member has it or
/// the document is no object.
pub proof fn law_lookup_finds_the_member(
    document: &JsonDocument,
    name: &str,
    value: Option<JsonValue>,
)
    requires
        call_ensures(JsonDocument::get, (document, name), value),
    ensures
        document.members is None ==> value is None,
        document.members matches Some(members) ==> {
            &&& value is None <==> forall|i: int|
                0 <= i < members@.len() ==> (#[trigger] members@[i]).0@ != name@
            &&& value matches Some(found) ==> exists|i: int|
                {
                    &&& 0 <= i < members@.len()
                    &&& (#[trigger] members@[i]).0@ == name@
                    &&& members@[i].1 == found
                    &&& forall|j: int| 0 <= j < i ==> (#[trigger] members@[j]).0@ != name@
                }
        },
{
    if let Some(members) = document.members {
        let all = members_view(members@);
        lemma_member(all, name@);
        assert forall|i: int| 0 <= i < members@.len() implies (#[trigger] members@[i]).0@
            == all[i].0 by {}
        if value is None {
            assert forall|i: int| 0 <= i < members@.len() implies (#[trigger] members@[i]).0@
                != name@ by {
                assert(all[i].0 != name@);
            }
        } else {
            let i = choose|i: int|
                {
                    &&& 0 <= i < all.len()
                    &&& (#[trigger] all[i]).0 == name@
                    &&& Some(all[i].1) == member(all, name@)
                    &&& forall|j: int| 0 <= j < i ==> (#[trigger] all[j]).0 != name@
                };
            assert(members@[i].0@ == name@ && members@[i].1 == value->0);
            assert forall|j: int| 0 <= j < i implies (#[trigger] members@[j]).0@ != name@ by {
                assert(all[j].0 != name@);
            }
        }
    }
}

proof fn lemma_member(members: Seq<(Seq<char>, JsonValue)>, name: Seq<char>)
    ensures
        member(members, name) is None ==> forall|i: int|
            0 <= i < members.len() ==> (#[trigger] members[i]).0 != name,
        member(members, name) is Some ==> exists|i: int|
            {
                &&& 0 <= i < members.len()
                &&& (#[trigger] members[i]).0 == name
                &&& Some(members[i].1) == member(members, name)
                &&& forall|j: int| 0 <= j < i ==> (#[trigger] members[j]).0 != name
            },
    decreases members.len(),
{
    if members.len() > 0 && members[0].0 != name {
        let rest = members.skip(1);
        lemma_member(rest, name);
        assert forall|i: int| 1 <= i < members.len() implies #[trigger] members[i] == rest[i
            - 1] by {}
        if member(rest, name) is Some {
            let k = choose|k: int|
                {
                    &&& 0 <= k < rest.len()
                    &&& (#[trigger] rest[k]).0 == name
                    &&& Some(rest[k].1) == member(rest, name)
                    &&& forall|j: int| 0 <= j < k ==> (#[trigger] rest[j]).0 != name
                };
            assert(members[k + 1] == rest[k]);
            assert forall|j: int| 0 <= j < k + 1 implies (#[trigger] members[j]).0 != name by {
                if j > 0 {
                    assert(rest[j - 1].0 != name);
                }
            }
        } else {
            assert forall|i: int| 0 <= i < members.len() implies (#[trigger] members[i]).0
                != name by {
                if i > 0 {
                    assert(rest[i - 1].0 != name);
                }
            }
        }
    }
}

/// A preparation is accepted exactly where it is a `PUT` with a body whose `pid` is a number and
/// whose `ttl` is a positive integer, with status `0`; anything else is a bad request, with
/// "invalid value in request".
pub proof fn law_preparation_is_answered_by_its_members(
    method: Method,
    empty: bool,
    document: &JsonDocument,
    pid: Option<JsonValue>,
    ttl: Option<JsonValue>,
    response: HttpResponse,
)
    requires
        call_ensures(JsonDocument::get, (document, "pid"), pid),
        call_ensures(JsonDocument::get, (document, "ttl"), ttl),
        call_ensures(answer_prepare, (method, empty, document), response),
    ensures
        response.headers@.len() == 2,
        response.headers@[0].0@ == "content-type"@,
        response.headers@[0].1@ == "application/hap+json"@,
        ({
            let accepted = {
                &&& method is Put
                &&& !empty
                &&& pid matches Some(JsonValue::Number { .. })
                &&& ttl matches Some(JsonValue::Number { unsigned: Some(time) })
                &&& time > 0
            };
            &&& accepted ==> response.status == 200 && response.body@ == encode_utf8(
                "{\"status\":0}"@,
            )
            &&& !accepted ==> response.status == 400 && response.body@ == encode_utf8(
                "{\"status\":-70410}"@,
            )
        }),
{
    lemma_prepare_fields(method, empty, document@, response);
}

proof fn lemma_prepare_fields(
    method: Method,
    empty: bool,
    document: Option<Seq<(Seq<char>, JsonValue)>>,
    response: HttpResponse,
)
    requires
        response@ == prepare_view(method, empty, document),
    ensures
        response.headers@.len() == 2,
        response.headers@[0].0@ == "content-type"@,
        response.headers@[0].1@ == "application/hap+json"@,
        ({
            let accepted = method is Put && !empty && well_formed(document);
            &&& accepted ==> response.status == 200 && response.body@ == encode_utf8(
                "{\"status\":0}"@,
            )
            &&& !accepted ==> response.status == 400 && response.body@ == encode_utf8(
                "{\"status\":-70410}"@,
            )
        }),
{
    if method is Put && !empty && well_formed(document) {
        lemma_typed_fields(
            response,
            200,
            "application/hap+json"@,
            encode_utf8("{\"status\":0}"@),
        );
    } else {
        lemma_typed_fields(
            response,
            400,
            "application/hap+json"@,
            encode_utf8("{\"status\":-70410}"@),
        );
    }
}

/// A preparation is answered by the members of the JSON object in its body. An empty body, and one
/// that is not JSON, is a bad request.
pub proof fn law_preparation_is_answered_by_its_body(
    method: Method,
    body: &Vec<u8>,
    response: HttpResponse,
    document: &JsonDocument,
    pid: Option<JsonValue>,
    ttl: Option<JsonValue>,
)
    requires
        call_ensures(prepare, (method, body), response),
        call_ensures(JsonDocument::get, (document, "pid"), pid),
        call_ensures(JsonDocument::get, (document, "ttl"), ttl),
    ensures
        body@.len() == 0 || json_document(body@) is None || !(method is Put) ==> response.status
            == 400 && response.body@ == encode_utf8("{\"status\":-70410}"@),
        json_document(body@) == Some(document@) ==> {
            let accepted = {
                &&& method is Put
                &&& body@.len() > 0
                &&& pid matches Some(JsonValue::Number { .. })
                &&& ttl matches Some(JsonValue::Number { unsigned: Some(time) })
                &&& time > 0
            };
            &&& accepted ==> response.status == 200 && response.body@ == encode_utf8(
                "{\"status\":0}"@,
            )
            &&& !accepted ==> response.status == 400 && response.body@ == encode_utf8(
                "{\"status\":-70410}"@,
            )
        },
{
    lemma_prepare_fields(
        method,
        body@.len() == 0,
        match json_document(body@) {
            Some(found) => found,
            None => None,
        },
        response,
    );
}

} // verus!
