//! Answers to HTTP requests.
use crate::numeral::{law_numeral_reads_back, numeral, numeral_value, to_decimal};
use vstd::prelude::*;
use vstd::string::StrSliceExecFns;
use vstd::utf8::encode_utf8;

verus! {

/// The method of a request, as far as the routes tell methods apart.
#[derive(Clone, Copy, Debug, PartialEq, Eq, Structural)]
pub enum Method {
    Get,
    Post,
    Put,
    Other,
}

/// An answer to a request.
#[derive(Debug, PartialEq, Eq)]
pub struct HttpResponse {
    pub status: u16,
    pub headers: Vec<(String, String)>,
    pub body: Vec<u8>,
}

/// An answer, by what it holds.
#[verifier::ext_equal]
pub struct HttpResponseView {
    pub status: u16,
    pub headers: Seq<(Seq<char>, Seq<char>)>,
    pub body: Seq<u8>,
}

impl View for HttpResponse {
    type V = HttpResponseView;

    open spec fn view(&self) -> HttpResponseView {
        HttpResponseView {
            status: self.status,
            headers: self.headers@.map_values(|header: (String, String)| (header.0@, header.1@)),
            body: self.body@,
        }
    }
}

/// The HTTP method of the given name. Names are told apart by letter case.
pub open spec fn method_named(name: Seq<char>) -> Method {
    if name == "GET"@ {
        Method::Get
    } else if name == "POST"@ {
        Method::Post
    } else if name == "PUT"@ {
        Method::Put
    } else {
        Method::Other
    }
}

/// An answer with a body of the given type.
pub open spec fn typed_view(status: u16, content_type: Seq<char>, body: Seq<u8>) -> HttpResponseView {
    HttpResponseView {
        status,
        headers: seq![
            ("content-type"@, content_type),
            ("content-length"@, numeral(body.len(), 10)),
        ],
        body,
    }
}

/// An answer in HAP's flavour of JSON.
pub open spec fn json_view(body: Seq<char>, status: u16) -> HttpResponseView {
    typed_view(status, "application/hap+json"@, encode_utf8(body))
}

/// An answer that is nothing but its status.
pub open spec fn status_view(status: u16) -> HttpResponseView {
    HttpResponseView { status, headers: Seq::empty(), body: Seq::empty() }
}

/// Whether two texts are the same.
pub(crate) fn same_text(a: &str, b: &str) -> (same: bool)
    ensures
        same == (a@ == b@),
{
    a.to_owned() == b.to_owned()
}

impl Method {
    /// The method of the given name.
    pub fn from_name(name: &str) -> (method: Method)
        ensures
            method == method_named(name@),
    {
        proof {
            reveal_strlit("GET");
            reveal_strlit("POST");
            reveal_strlit("PUT");
        }
        if same_text(name, "GET") {
            Method::Get
        } else if same_text(name, "POST") {
            Method::Post
        } else if same_text(name, "PUT") {
            Method::Put
        } else {
            Method::Other
        }
    }
}

/// An answer with a body of the given type.
pub fn typed_response(status: u16, content_type: &str, body: Vec<u8>) -> (response: HttpResponse)
    ensures
        response@ == typed_view(status, content_type@, body@),
{
    let mut headers: Vec<(String, String)> = Vec::new();
    headers.push(("content-type".to_owned(), content_type.to_owned()));
    headers.push(("content-length".to_owned(), to_decimal(body.len() as u64)));
    let response: HttpResponse = HttpResponse { status, headers, body };
    assert(response@ =~= typed_view(status, content_type@, body@));
    response
}

/// An answer in HAP's flavour of JSON.
pub fn json_response(body: &str, status: u16) -> (response: HttpResponse)
    ensures
        response@ == json_view(body@, status),
{
    typed_response(status, "application/hap+json", body.as_bytes_vec())
}

/// An answer that is nothing but its status.
pub fn status_response(status: u16) -> (response: HttpResponse)
    ensures
        response@ == status_view(status),
{
    let response: HttpResponse = HttpResponse { status, headers: Vec::new(), body: Vec::new() };
    assert(response@ =~= status_view(status));
    response
}

/// The announced length of an answer's body is the length of the body.
pub proof fn law_announced_length_is_the_length(status: u16, content_type: Seq<char>, body: Seq<u8>)
    ensures
        numeral_value(typed_view(status, content_type, body).headers[1].1, 10) == body.len(),
{
    law_numeral_reads_back(body.len(), 10);
}

/// A request's method is known by its name, letter for letter.
pub proof fn law_method_is_known_by_its_name(name: &str, method: Method)
    requires
        call_ensures(Method::from_name, (name,), method),
    ensures
        method is Get <==> name@ == seq!['G', 'E', 'T'],
        method is Post <==> name@ == seq!['P', 'O', 'S', 'T'],
        method is Put <==> name@ == seq!['P', 'U', 'T'],
{
    reveal_strlit("GET");
    reveal_strlit("POST");
    reveal_strlit("PUT");
    assert("GET"@ =~= seq!['G', 'E', 'T']);
    assert("POST"@ =~= seq!['P', 'O', 'S', 'T']);
    assert("PUT"@ =~= seq!['P', 'U', 'T']);
    assert("GET"@.len() == 3 && "POST"@.len() == 4 && "PUT"@.len() == 3);
    assert("GET"@[0] != "PUT"@[0]);
}

/// An answer with a body has the given status, names the body's type and its length in bytes, in
/// decimal, and has the body byte for byte.
pub proof fn law_answer_holds_its_body(
    status: u16,
    content_type: &str,
    body: Vec<u8>,
    response: HttpResponse,
)
    requires
        call_ensures(typed_response, (status, content_type, body), response),
    ensures
        response.status == status,
        response.body@ == body@,
        response.headers@.len() == 2,
        response.headers@[0].0@ == "content-type"@,
        response.headers@[0].1@ == content_type@,
        response.headers@[1].0@ == "content-length"@,
        response.headers@[1].1@ == numeral(body@.len(), 10),
{
    lemma_typed_fields(response, status, content_type@, body@);
}

/// An answer in HAP's flavour of JSON has the text as its body, in UTF-8.
pub proof fn law_json_answer_holds_its_text(body: &str, status: u16, response: HttpResponse)
    requires
        call_ensures(json_response, (body, status), response),
    ensures
        response.status == status,
        response.body@ == encode_utf8(body@),
        response.headers@.len() == 2,
        response.headers@[0].0@ == "content-type"@,
        response.headers@[0].1@ == "application/hap+json"@,
        response.headers@[1].0@ == "content-length"@,
        response.headers@[1].1@ == numeral(encode_utf8(body@).len(), 10),
{
    lemma_typed_fields(response, status, "application/hap+json"@, encode_utf8(body@));
}

/// An answer that is nothing but its status has no headers and no body.
pub proof fn law_status_answer_is_empty(status: u16, response: HttpResponse)
    requires
        call_ensures(status_response, (status,), response),
    ensures
        response.status == status,
        response.headers@.len() == 0,
        response.body@.len() == 0,
{
    assert(response@.headers.len() == response.headers@.len());
}

/// What the view of an answer says of its fields.
pub(crate) proof fn lemma_typed_fields(
    response: HttpResponse,
    status: u16,
    content_type: Seq<char>,
    body: Seq<u8>,
)
    requires
        response@ == typed_view(status, content_type, body),
    ensures
        response.status == status,
        response.body@ == body,
        response.headers@.len() == 2,
        response.headers@[0].0@ == "content-type"@,
        response.headers@[0].1@ == content_type,
        response.headers@[1].0@ == "content-length"@,
        response.headers@[1].1@ == numeral(body.len(), 10),
{
    assert(response@.headers.len() == response.headers@.len());
    assert(response@.headers[0] == (response.headers@[0].0@, response.headers@[0].1@));
    assert(response@.headers[1] == (response.headers@[1].0@, response.headers@[1].1@));
}

} // verus!
