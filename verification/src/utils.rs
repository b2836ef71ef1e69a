//! The steps of the pipeline around the transform: taking the image and the
//! parameters out of a form, decoding, encoding, and wrapping the answer.
use vstd::prelude::*;
use crate::multipart::{named, Field, FieldStream};
use crate::imaging::{decode, decoded, encode_png, encoding_is_png, png_encoded};
use crate::request::{
    collected, default_border_color, default_crop, image_position, last_text,
    lemma_image_position, lemma_last_text_step, signed_or, text_or, unsigned_or,
    OperationRequest, DEFAULT_BORDER_WIDTH, DEFAULT_SIDE, DEFAULT_VALUE,
};
use crate::response::{Response, ResponseModel, StatusCode};
use crate::text::{decode_text, parse_i32, parse_u32, same_text};

verus! {

/// No two of the names that the pipeline looks for are the same.
proof fn lemma_names_differ()
    ensures
        "operation"@ != "value"@,
        "operation"@ != "height"@,
        "operation"@ != "width"@,
        "operation"@ != "border_width"@,
        "operation"@ != "border_color"@,
        "operation"@ != "crop"@,
        "value"@ != "height"@,
        "value"@ != "width"@,
        "value"@ != "border_width"@,
        "value"@ != "border_color"@,
        "value"@ != "crop"@,
        "height"@ != "width"@,
        "height"@ != "border_width"@,
        "height"@ != "border_color"@,
        "height"@ != "crop"@,
        "width"@ != "border_width"@,
        "width"@ != "border_color"@,
        "width"@ != "crop"@,
        "border_width"@ != "border_color"@,
        "border_width"@ != "crop"@,
        "border_color"@ != "crop"@,
{
    reveal_strlit("operation");
    reveal_strlit("value");
    reveal_strlit("height");
    reveal_strlit("width");
    reveal_strlit("border_width");
    reveal_strlit("border_color");
    reveal_strlit("crop");
    assert("operation"@.len() == 9 && "value"@.len() == 5 && "height"@.len() == 6);
    assert("width"@.len() == 5 && "border_width"@.len() == 12 && "crop"@.len() == 4);
    assert("border_color"@.len() == 12);
    assert("value"@[0] != "width"@[0]);
    assert("border_width"@[7] != "border_color"@[7]);
}

/// Whether `field` declares the name `name`.
fn is_named(field: &Field, name: &str) -> (r: bool)
    ensures
        r == named(field@, name@),
{
    match &field.name {
        Some(n) => same_text(n.as_str(), name),
        None => false,
    }
}

/// Reads `stream` up to and with the first field called `image`, and returns
/// that field's payload. Where no such field is left, the stream is read to
/// its end and the request is a bad one.
pub fn extract_image(stream: &mut FieldStream) -> (r: Result<Vec<u8>, StatusCode>)
    ensures
        final(stream).fields() == old(stream).fields(),
        match r {
            Ok(bytes) => {
                let at = image_position(old(stream).remaining());
                &&& at < old(stream).remaining().len()
                &&& bytes@ == old(stream).remaining()[at].data
                &&& final(stream).remaining() == old(stream).remaining().skip(at + 1)
            },
            Err(status) => {
                &&& status == StatusCode::BadRequest
                &&& image_position(old(stream).remaining()) == old(stream).remaining().len()
                &&& final(stream).remaining().len() == 0
            },
        },
{
    let ghost all = stream.remaining();
    let ghost mut k: int = 0;
    proof {
        lemma_image_position(all);
        assert(all.skip(0) =~= all);
    }
    while !stream.is_exhausted()
        invariant
            0 <= k <= all.len(),
            all == old(stream).remaining(),
            stream.fields() == old(stream).fields(),
            stream.remaining() == all.skip(k),
            k <= image_position(all),
            image_position(all) <= all.len(),
            forall|j: int| 0 <= j < image_position(all) ==> !named(#[trigger] all[j], "image"@),
            image_position(all) < all.len() ==> named(all[image_position(all)], "image"@),
        decreases all.len() - k,
    {
        let field = stream.peek();
        assert(field@ == all[k]);
        if is_named(field, "image") {
            let bytes = field.data.clone();
            assert(bytes@ =~= field.data@);
            stream.advance();
            assert(all.skip(k).drop_first() =~= all.skip(k + 1));
            assert(image_position(all) == k);
            return Ok(bytes);
        }
        stream.advance();
        proof {
            assert(all.skip(k).drop_first() =~= all.skip(k + 1));
            k = k + 1;
        }
    }
    Err(StatusCode::BadRequest)
}

/// Reads `stream` to its end and collects the request that its fields make.
/// Of several fields of one name the last counts. A parameter that is left
/// out or does not parse takes its default; only an operation that is
/// missing or empty makes the request a bad one.
pub fn find_operation_value(stream: &mut FieldStream) -> (r: Result<OperationRequest, StatusCode>)
    ensures
        final(stream).fields() == old(stream).fields(),
        final(stream).remaining().len() == 0,
        match collected(old(stream).remaining()) {
            Some(request) => r matches Ok(found) && found@ == request,
            None => r matches Err(status) && status == StatusCode::BadRequest,
        },
        r matches Ok(found) ==> found@.operation.len() > 0,
{
    let ghost all = stream.remaining();
    let ghost mut k: int = 0;
    let mut operation: Option<String> = None;
    let mut value: i32 = DEFAULT_VALUE;
    let mut height: u32 = DEFAULT_SIDE;
    let mut width: u32 = DEFAULT_SIDE;
    let mut border_width: u32 = DEFAULT_BORDER_WIDTH;
    let mut border_color: String = "000000".to_owned();
    let mut crop_data: String =
        "{{\"x\":33.42135868591466,\"y\":4.530004678323855e-15,\"width\":37.03703703703704,\"height\":32.03203203203203}}".to_owned();
    proof {
        assert(all.skip(0) =~= all);
        assert(all.take(0).len() == 0);
    }
    while !stream.is_exhausted()
        invariant
            0 <= k <= all.len(),
            stream.fields() == old(stream).fields(),
            stream.remaining() == all.skip(k),
            match operation {
                Some(text) => last_text(all.take(k), "operation"@) == Some(text@),
                None => last_text(all.take(k), "operation"@) is None,
            },
            value == signed_or(last_text(all.take(k), "value"@), DEFAULT_VALUE),
            height == unsigned_or(last_text(all.take(k), "height"@), DEFAULT_SIDE),
            width == unsigned_or(last_text(all.take(k), "width"@), DEFAULT_SIDE),
            border_width == unsigned_or(
                last_text(all.take(k), "border_width"@),
                DEFAULT_BORDER_WIDTH,
            ),
            border_color@ == text_or(
                last_text(all.take(k), "border_color"@),
                default_border_color(),
            ),
            crop_data@ == text_or(last_text(all.take(k), "crop"@), default_crop()),
        decreases all.len() - k,
    {
        let field = stream.peek();
        proof {
            assert(field@ == all[k]);
            lemma_names_differ();
            lemma_last_text_step(all, k, "operation"@);
            lemma_last_text_step(all, k, "value"@);
            lemma_last_text_step(all, k, "height"@);
            lemma_last_text_step(all, k, "width"@);
            lemma_last_text_step(all, k, "border_width"@);
            lemma_last_text_step(all, k, "border_color"@);
            lemma_last_text_step(all, k, "crop"@);
        }
        if is_named(field, "operation") {
            if let Some(text) = decode_text(&field.data) {
                operation = Some(text);
            }
        } else if is_named(field, "value") {
            if let Some(text) = decode_text(&field.data) {
                value = match parse_i32(text.as_str()) {
                    Some(v) => v,
                    None => DEFAULT_VALUE,
                };
            }
        } else if is_named(field, "height") {
            if let Some(text) = decode_text(&field.data) {
                height = match parse_u32(text.as_str()) {
                    Some(v) => v,
                    None => DEFAULT_SIDE,
                };
            }
        } else if is_named(field, "width") {
            if let Some(text) = decode_text(&field.data) {
                width = match parse_u32(text.as_str()) {
                    Some(v) => v,
                    None => DEFAULT_SIDE,
                };
            }
        } else if is_named(field, "border_width") {
            if let Some(text) = decode_text(&field.data) {
                border_width = match parse_u32(text.as_str()) {
                    Some(v) => v,
                    None => DEFAULT_BORDER_WIDTH,
                };
            }
        } else if is_named(field, "border_color") {
            if let Some(text) = decode_text(&field.data) {
                border_color = text;
            }
        } else if is_named(field, "crop") {
            if let Some(text) = decode_text(&field.data) {
                crop_data = text;
            }
        }
        stream.advance();
        proof {
            assert(all.skip(k).drop_first() =~= all.skip(k + 1));
            k = k + 1;
        }
    }
    assert(all.take(k) =~= all);
    match operation {
        Some(operation) => {
            if operation.as_str().is_empty() {
                Err(StatusCode::BadRequest)
            } else {
                Ok(
                    OperationRequest {
                        operation,
                        value,
                        height,
                        width,
                        border_width,
                        border_color,
                        crop_data,
                    },
                )
            }
        },
        None => Err(StatusCode::BadRequest),
    }
}

/// The answer that carries an encoded image.
///
/// The body is PNG and the declared type is `image/jpeg`. The two do not
/// agree; clients have come to know the service by either, so neither is
/// changed here.
pub open spec fn image_response(body: Seq<u8>) -> ResponseModel {
    ResponseModel { status: StatusCode::Okay, content_type: Some("image/jpeg"@), body }
}

/// Encodes `image` as PNG, whatever format it was uploaded in. An image that
/// the encoder refuses is a fault of the service; it refuses every image
/// without pixels. What it returns begins with the PNG signature.
pub fn image_to_bytes(image: image::DynamicImage) -> (r: Result<Vec<u8>, StatusCode>)
    ensures
        match png_encoded(image) {
            Some(bytes) => r matches Ok(found) && found@ == bytes,
            None => r matches Err(status) && status == StatusCode::InternalServerError,
        },
        encoding_is_png(image),
{
    match encode_png(&image) {
        Ok(bytes) => Ok(bytes),
        Err(_) => Err(StatusCode::InternalServerError),
    }
}

/// Wraps an encoded image into the answer that carries it.
pub fn send_image_response(image_vec: Vec<u8>) -> (r: Response)
    ensures
        r@ == image_response(image_vec@),
{
    Response {
        status: StatusCode::Okay,
        content_type: Some("image/jpeg".to_owned()),
        body: image_vec,
    }
}

/// Decodes an uploaded image, telling its format from its bytes. Bytes that
/// decode to no image make the request a bad one.
pub fn load_image(image_vec: &[u8]) -> (r: Result<image::DynamicImage, StatusCode>)
    ensures
        match decoded(image_vec@) {
            Some(image) => r matches Ok(found) && found == image,
            None => r matches Err(status) && status == StatusCode::BadRequest,
        },
{
    match decode(image_vec) {
        Ok(image) => Ok(image),
        Err(_) => Err(StatusCode::BadRequest),
    }
}

} // verus!
