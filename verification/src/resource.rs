//! `POST /resource`: the still image that every camera has to serve.
//!
//! The image comes from a snapshot provider, because only the accessory knows where its frames come
//! from. Where there is no provider, or it fails, the answer says that the resource does not exist.
use crate::http::{
    json_response, json_view, lemma_typed_fields, typed_response, typed_view, HttpResponse,
    HttpResponseView,
};
use crate::numeral::numeral;
use vstd::prelude::*;
use vstd::utf8::encode_utf8;

verus! {

/// What a controller asks for, e.g.
/// `{"aid":1,"image-width":640,"image-height":360,"resource-type":"image"}`.
#[derive(Debug)]
pub struct SnapshotRequest {
    pub resource_type: Option<String>,
    pub image_width: Option<u16>,
    pub image_height: Option<u16>,
}

/// The size to ask the provider for. It is only a hint, so what was not said is made up for.
pub open spec fn dimensions_of(request: &SnapshotRequest) -> (u16, u16) {
    (
        match request.image_width {
            Some(width) => width,
            None => 1920,
        },
        match request.image_height {
            Some(height) => height,
            None => 1080,
        },
    )
}

/// The answer with the image.
pub open spec fn image_view(image: Seq<u8>) -> HttpResponseView {
    typed_view(200, "image/jpeg"@, image)
}

/// The answer that there is no image.
pub open spec fn no_resource_view() -> HttpResponseView {
    json_view("{\"status\":-70409}"@, 500)
}

/// The answer to what the provider made of the request.
pub open spec fn snapshot_view<E>(outcome: Result<Vec<u8>, E>) -> HttpResponseView {
    match outcome {
        Ok(image) => image_view(image@),
        Err(_) => no_resource_view(),
    }
}

impl SnapshotRequest {
    /// What the request body says, or nothing at all where the body is absent or unparseable.
    pub fn or_unspecified(received: Option<SnapshotRequest>) -> (request: SnapshotRequest)
        ensures
            received matches Some(said) ==> request == said,
            received is None ==> request == (SnapshotRequest {
                resource_type: None,
                image_width: None,
                image_height: None,
            }),
    {
        match received {
            Some(said) => said,
            None => SnapshotRequest { resource_type: None, image_width: None, image_height: None },
        }
    }

    /// Falls back to 1920x1080 rather than refusing, since the size is only a hint.
    pub fn dimensions(&self) -> (r: (u16, u16))
        ensures
            r == dimensions_of(self),
    {
        (self.image_width.unwrap_or(1920), self.image_height.unwrap_or(1080))
    }
}

/// Wraps JPEG bytes in the answer that a controller expects.
pub fn image_response(image: Vec<u8>) -> (response: HttpResponse)
    ensures
        response@ == image_view(image@),
        response.status == 200,
        response.body@ == image@,
{
    typed_response(200, "image/jpeg", image)
}

/// Says that the resource does not exist.
pub fn no_resource_response() -> (response: HttpResponse)
    ensures
        response@ == no_resource_view(),
{
    json_response("{\"status\":-70409}", 500)
}

/// The answer to what the provider made of the request.
pub fn snapshot_response<E>(outcome: Result<Vec<u8>, E>) -> (response: HttpResponse)
    ensures
        response@ == snapshot_view(outcome),
{
    match outcome {
        Ok(image) => image_response(image),
        Err(_) => no_resource_response(),
    }
}

/// Asks the provider, if there is one, once, for an image of the requested size and answers with
/// it.
pub fn take_snapshot<P, E>(request: &SnapshotRequest, provider: Option<P>) -> (response:
    HttpResponse) where P: FnOnce(u16, u16) -> Result<Vec<u8>, E>
    requires
        provider matches Some(provider) ==> call_requires(provider, dimensions_of(request)),
    ensures
        provider is None ==> response@ == no_resource_view(),
        provider matches Some(provider) ==> exists|outcome: Result<Vec<u8>, E>|
            #[trigger] call_ensures(provider, dimensions_of(request), outcome) && response@
                == snapshot_view(outcome),
{
    let (width, height) = request.dimensions();
    match provider {
        Some(provider) => {
            let outcome: Result<Vec<u8>, E> = provider(width, height);
            snapshot_response(outcome)
        },
        None => no_resource_response(),
    }
}

/// The provider is asked for the width and the height that the request names, and for 1920 or 1080
/// where it does not name them.
pub proof fn law_dimensions_are_those_asked_for(request: &SnapshotRequest, size: (u16, u16))
    requires
        call_ensures(SnapshotRequest::dimensions, (request,), size),
    ensures
        request.image_width matches Some(width) ==> size.0 == width,
        request.image_width is None ==> size.0 == 1920,
        request.image_height matches Some(height) ==> size.1 == height,
        request.image_height is None ==> size.1 == 1080,
{
}

/// The answer with an image is a success, holds the image byte for byte, and says that it is a
/// JPEG and how long it is.
pub proof fn law_image_is_answered_whole(image: Vec<u8>, response: HttpResponse)
    requires
        call_ensures(image_response, (image,), response),
    ensures
        response.status == 200,
        response.body@ == image@,
        response.headers@.len() == 2,
        response.headers@[0].0@ == "content-type"@,
        response.headers@[0].1@ == "image/jpeg"@,
        response.headers@[1].0@ == "content-length"@,
        response.headers@[1].1@ == numeral(image@.len(), 10),
{
    lemma_typed_fields(response, 200, "image/jpeg"@, image@);
}

/// The answer that there is no image is an error of the server and says so in its body.
pub proof fn law_missing_image_is_an_error(response: HttpResponse)
    requires
        call_ensures(no_resource_response, (), response),
    ensures
        response.status == 500,
        response.body@ == encode_utf8("{\"status\":-70409}"@),
        response.headers@.len() == 2,
        response.headers@[0].0@ == "content-type"@,
        response.headers@[0].1@ == "application/hap+json"@,
        response.headers@[1].0@ == "content-length"@,
        response.headers@[1].1@ == numeral(encode_utf8("{\"status\":-70409}"@).len(), 10),
{
    lemma_typed_fields(
        response,
        500,
        "application/hap+json"@,
        encode_utf8("{\"status\":-70409}"@),
    );
}

/// An image that the provider made is answered whole; a failure is answered like a missing
/// provider.
pub proof fn law_outcome_is_answered<E>(outcome: Result<Vec<u8>, E>, response: HttpResponse)
    requires
        call_ensures(snapshot_response::<E>, (outcome,), response),
    ensures
        outcome matches Ok(image) ==> {
            &&& response.status == 200
            &&& response.body@ == image@
            &&& response.headers@.len() == 2
            &&& response.headers@[0].0@ == "content-type"@
            &&& response.headers@[0].1@ == "image/jpeg"@
            &&& response.headers@[1].0@ == "content-length"@
            &&& response.headers@[1].1@ == numeral(image@.len(), 10)
        },
        outcome is Err ==> {
            &&& response.status == 500
            &&& response.body@ == encode_utf8("{\"status\":-70409}"@)
            &&& response.headers@.len() == 2
            &&& response.headers@[0].0@ == "content-type"@
            &&& response.headers@[0].1@ == "application/hap+json"@
            &&& response.headers@[1].0@ == "content-length"@
            &&& response.headers@[1].1@ == numeral(
                encode_utf8("{\"status\":-70409}"@).len(),
                10,
            )
        },
{
    lemma_snapshot_fields(outcome, response);
}

proof fn lemma_snapshot_fields<E>(outcome: Result<Vec<u8>, E>, response: HttpResponse)
    requires
        response@ == snapshot_view(outcome),
    ensures
        outcome matches Ok(image) ==> {
            &&& response.status == 200
            &&& response.body@ == image@
            &&& response.headers@.len() == 2
            &&& response.headers@[0].0@ == "content-type"@
            &&& response.headers@[0].1@ == "image/jpeg"@
            &&& response.headers@[1].0@ == "content-length"@
            &&& response.headers@[1].1@ == numeral(image@.len(), 10)
        },
        outcome is Err ==> {
            &&& response.status == 500
            &&& response.body@ == encode_utf8("{\"status\":-70409}"@)
            &&& response.headers@.len() == 2
            &&& response.headers@[0].0@ == "content-type"@
            &&& response.headers@[0].1@ == "application/hap+json"@
            &&& response.headers@[1].0@ == "content-length"@
            &&& response.headers@[1].1@ == numeral(
                encode_utf8("{\"status\":-70409}"@).len(),
                10,
            )
        },
{
    match outcome {
        Ok(image) => {
            lemma_typed_fields(response, 200, "image/jpeg"@, image@);
        },
        Err(_) => {
            lemma_typed_fields(
                response,
                500,
                "application/hap+json"@,
                encode_utf8("{\"status\":-70409}"@),
            );
        },
    }
}

/// A snapshot is what the provider makes of the size asked for: its image, whole and as a JPEG, or
/// the answer that there is none, which is also what comes where there is no provider.
pub proof fn law_snapshot_is_what_the_provider_gives<P, E>(
    request: &SnapshotRequest,
    provider: Option<P>,
    response: HttpResponse,
) where P: FnOnce(u16, u16) -> Result<Vec<u8>, E>
    requires
        call_ensures(take_snapshot::<P, E>, (request, provider), response),
    ensures
        provider is None ==> response.status == 500 && response.body@ == encode_utf8(
            "{\"status\":-70409}"@,
        ),
        provider matches Some(asked) ==> exists|width: u16, height: u16, outcome: Result<Vec<u8>, E>|
            {
                &&& #[trigger] call_ensures(asked, (width, height), outcome)
                &&& width == (if request.image_width is Some {
                    request.image_width->0
                } else {
                    1920
                })
                &&& height == (if request.image_height is Some {
                    request.image_height->0
                } else {
                    1080
                })
                &&& outcome matches Ok(image) ==> {
                    &&& response.status == 200
                    &&& response.body@ == image@
                    &&& response.headers@.len() == 2
                    &&& response.headers@[0].0@ == "content-type"@
                    &&& response.headers@[0].1@ == "image/jpeg"@
                    &&& response.headers@[1].0@ == "content-length"@
                    &&& response.headers@[1].1@ == numeral(image@.len(), 10)
                }
                &&& outcome is Err ==> response.status == 500 && response.body@ == encode_utf8(
                    "{\"status\":-70409}"@,
                )
            },
{
    match provider {
        Some(asked) => {
            let outcome = choose|outcome: Result<Vec<u8>, E>|
                #[trigger] call_ensures(asked, dimensions_of(request), outcome) && response@
                    == snapshot_view(outcome);
            lemma_snapshot_fields(outcome, response);
            let (width, height) = dimensions_of(request);
            assert(call_ensures(asked, (width, height), outcome));
        },
        None => {
            lemma_typed_fields(
                response,
                500,
                "application/hap+json"@,
                encode_utf8("{\"status\":-70409}"@),
            );
        },
    }
}

} // verus!
