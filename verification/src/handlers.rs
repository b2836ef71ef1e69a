//! The two endpoints: the greeting, and the image pipeline from a form to an
//! answer.
//!
//! The pipeline runs here as far as it can. Two things it leaves to whoever
//! calls it, and says so in a [`Step`]: reading the rectangle of a crop out
//! of its JSON text, and carrying out a [`Filter`], which computes in
//! floating-point numbers or in sums that may pass the integers.
use vstd::prelude::*;
use vstd::string::*;
use crate::imaging::{
    begins_png, crop, cropped, cut_out, decoded, encoding_is_png, image_extent, png_encoded,
};
use crate::img_ops::{direct, filter_for, handed_out, in_range, transform, transformed};
use crate::models::{CropData, User, UserResponse};
use crate::multipart::{form_of, Field, FieldModel, FieldStream};
use crate::operation::{operation_named, Filter, Operation};
use crate::request::{
    collected, has_image, has_operation, image_payload, last_text, lemma_collected,
    lemma_image_position, lemma_passed_over_field, passed_over, OperationRequest, RequestModel,
    DEFAULT_VALUE,
};
use crate::response::{bare, Response, ResponseModel, StatusCode};
use crate::text::{append_decimal, decimal_i32, decimal_text};
use crate::utils::{
    extract_image, find_operation_value, image_response, image_to_bytes, load_image,
    send_image_response,
};

verus! {

/// How far the pipeline got with a request.
#[derive(Debug)]
pub enum Step {
    /// The request is answered.
    Reply(Result<Response, StatusCode>),
    /// The request asks for a crop of `image`. The rectangle is to be read
    /// from `text`, and [`complete_crop`] called with what was read.
    Crop { image: image::DynamicImage, text: String },
    /// The request asks for `filter` on `image` by `amount`. The filter is
    /// to be carried out, and [`respond`] called with what it gives.
    Filter { image: image::DynamicImage, filter: Filter, amount: i32 },
    /// The operation cannot be carried out with these parameters on this
    /// image: a size or a sum would pass the limits of the machine.
    OutOfRange,
}

/// What the pipeline made of a form.
#[derive(Debug)]
pub struct Processed {
    /// How far the pipeline got.
    pub step: Step,
    /// The request that the form made, where the pipeline got as far as
    /// routing it: the form brought an image that decodes and named an
    /// operation.
    pub request: Option<OperationRequest>,
}

/// A [`Step`] as contracts see it.
pub ghost enum StepModel {
    Reply(Result<ResponseModel, StatusCode>),
    Crop { image: image::DynamicImage, text: Seq<char> },
    Filter { image: image::DynamicImage, filter: Filter, amount: i32 },
    OutOfRange,
}

/// An answer, or the status that stands for one, as contracts see it.
pub open spec fn reply_model(reply: Result<Response, StatusCode>) -> Result<
    ResponseModel,
    StatusCode,
> {
    match reply {
        Ok(response) => Ok(response@),
        Err(status) => Err(status),
    }
}

/// The status that a reply goes out with.
pub open spec fn status_of(reply: Result<ResponseModel, StatusCode>) -> StatusCode {
    match reply {
        Ok(response) => response.status,
        Err(status) => status,
    }
}

impl View for Step {
    type V = StepModel;

    open spec fn view(&self) -> StepModel {
        match *self {
            Step::Reply(reply) => StepModel::Reply(reply_model(reply)),
            Step::Crop { image, text } => StepModel::Crop { image, text: text@ },
            Step::Filter { image, filter, amount } => StepModel::Filter { image, filter, amount },
            Step::OutOfRange => StepModel::OutOfRange,
        }
    }
}

/// The reply to a request whose transform gave `out`: the image encoded,
/// or a fault of the service where the encoder refuses it.
pub open spec fn answered(out: image::DynamicImage) -> Result<ResponseModel, StatusCode> {
    match png_encoded(out) {
        Some(bytes) => Ok(image_response(bytes)),
        None => Err(StatusCode::InternalServerError),
    }
}

/// What becomes of a decoded image and the request that came with it.
///
/// An unknown operation is a bad request. A crop and the filters go back to
/// the caller with what they need. Every other operation is carried out and
/// its result encoded, unless it is out of range. An encoded result begins
/// with the PNG signature.
pub open spec fn dispatched(
    image: image::DynamicImage,
    request: RequestModel,
    step: StepModel,
) -> bool {
    match operation_named(request.operation) {
        None => step == StepModel::Reply(Ok(bare(StatusCode::BadRequest))),
        Some(operation) => if operation == Operation::Crop {
            step == (StepModel::Crop { image, text: request.crop_data })
        } else if let Some(filter) = handed_out(image, operation, request) {
            step == (StepModel::Filter { image, filter, amount: request.value })
        } else if !in_range(image, operation, request) {
            step == StepModel::OutOfRange
        } else {
            exists|out: image::DynamicImage|
                #[trigger] transformed(image, operation, request, out) && encoding_is_png(out)
                    && step == StepModel::Reply(answered(out))
        },
    }
}

/// The image that a form uploads: what the payload of its first field called
/// `image` decodes to. `None` where there is no such field or its payload
/// decodes to no image.
pub open spec fn uploaded(fields: Seq<FieldModel>) -> Option<image::DynamicImage> {
    match image_payload(fields) {
        Some(bytes) => decoded(bytes),
        None => None,
    }
}

/// The operation that a form asks for: `None` where it gives no operation
/// or gives a name that no operation goes by.
pub open spec fn operation_asked(fields: Seq<FieldModel>) -> Option<Operation> {
    match collected(fields) {
        Some(request) => operation_named(request.operation),
        None => None,
    }
}

/// What becomes of a form.
///
/// The image is the payload of the first field called `image`. The request
/// is collected from all fields, wherever the image stands among them.
/// Without an image, with an image that does not decode, or without an
/// operation, the request is a bad one.
pub open spec fn processed(fields: Seq<FieldModel>, step: StepModel) -> bool {
    match (uploaded(fields), collected(fields)) {
        (Some(image), Some(request)) => dispatched(image, request, step),
        _ => step == StepModel::Reply(Err(StatusCode::BadRequest)),
    }
}

/// Encodes the result of a transform and wraps it into the answer.
pub fn respond(image: image::DynamicImage) -> (r: Result<Response, StatusCode>)
    ensures
        reply_model(r) == answered(image),
        encoding_is_png(image),
        r matches Ok(response) ==> begins_png(response.body@),
{
    match image_to_bytes(image) {
        Ok(bytes) => Ok(send_image_response(bytes)),
        Err(status) => Err(status),
    }
}

/// Routes a decoded image with its request to the operation that the
/// request names.
pub fn dispatch(image: image::DynamicImage, request: OperationRequest) -> (step: Step)
    ensures
        dispatched(image, request@, step@),
        operation_named(request@.operation) is None ==> step@ == StepModel::Reply(
            Ok(bare(StatusCode::BadRequest)),
        ),
{
    match Operation::from_name(request.operation.as_str()) {
        None => Step::Reply(Ok(Response::from_status(StatusCode::BadRequest))),
        Some(Operation::Crop) => Step::Crop { image, text: request.crop_data },
        Some(operation) => {
            match filter_for(&image, operation, &request) {
                Some(filter) => Step::Filter { image, filter, amount: request.value },
                None => match transform(image, operation, &request) {
                    Some(out) => {
                        let reply = respond(out);
                        Step::Reply(reply)
                    },
                    None => Step::OutOfRange,
                },
            }
        },
    }
}

/// Ends a request for a crop. `rectangle` is the rectangle read from the text
/// that [`Step::Crop`] handed out, or `None` where the text holds none:
/// then the request is a bad one, and no default takes the rectangle's
/// place. The rectangle is clipped to the image.
pub fn complete_crop(image: image::DynamicImage, rectangle: Option<CropData>) -> (r: Result<
    Response,
    StatusCode,
>)
    ensures
        reply_model(r) == match rectangle {
            Some(c) => answered(cropped(image, c.x, c.y, c.width, c.height)),
            None => Ok(bare(StatusCode::BadRequest)),
        },
        rectangle matches Some(c) ==> cut_out(
            image,
            c.x,
            c.y,
            c.width,
            c.height,
            cropped(image, c.x, c.y, c.width, c.height),
        ) && encoding_is_png(cropped(image, c.x, c.y, c.width, c.height)),
        r matches Ok(response) ==> response.status == StatusCode::BadRequest || begins_png(
            response.body@,
        ),
{
    match rectangle {
        Some(c) => {
            let mut image = image;
            let out = crop(&mut image, c.x, c.y, c.width, c.height);
            respond(out)
        },
        None => Ok(Response::from_status(StatusCode::BadRequest)),
    }
}

/// Runs the pipeline on a form: takes the image out and decodes it, goes
/// over the form a second time for the request, and routes both.
pub fn process_image(fields: Vec<Field>) -> (r: Processed)
    ensures
        processed(form_of(fields@), r.step@),
        match (uploaded(form_of(fields@)), collected(form_of(fields@))) {
            (Some(_), Some(request)) => r.request matches Some(found) && found@ == request,
            _ => r.request is None,
        },
        !has_image(form_of(fields@)) ==> r.step@ == StepModel::Reply(
            Err(StatusCode::BadRequest),
        ),
        !has_operation(form_of(fields@)) ==> r.step@ == StepModel::Reply(
            Err(StatusCode::BadRequest),
        ),
        operation_asked(form_of(fields@)) is None ==> (r.step@ matches StepModel::Reply(reply)
            && status_of(reply) == StatusCode::BadRequest),
{
    let ghost form = form_of(fields@);
    let mut stream = FieldStream::new(fields);
    proof {
        lemma_image_position(form);
        lemma_collected(form);
    }
    let image_vec = match extract_image(&mut stream) {
        Ok(bytes) => bytes,
        Err(status) => {
            return Processed { step: Step::Reply(Err(status)), request: None };
        },
    };
    let image = match load_image(image_vec.as_slice()) {
        Ok(image) => image,
        Err(status) => {
            return Processed { step: Step::Reply(Err(status)), request: None };
        },
    };
    stream.rewind();
    let request = match find_operation_value(&mut stream) {
        Ok(request) => request,
        Err(status) => {
            return Processed { step: Step::Reply(Err(status)), request: None };
        },
    };
    let kept = request.duplicate();
    let step = dispatch(image, request);
    Processed { step, request: Some(kept) }
}

/// A form is answered where it brings an image that decodes and names an
/// operation that is carried out on the spot and is in range. The answer is
/// the encoded result with status 200, and its body begins with the PNG
/// signature; only where the encoder refuses the result, as it does every
/// result without pixels, is it a fault of the service. It is never a bad
/// request.
pub proof fn lemma_direct_operation_is_answered(
    fields: Seq<FieldModel>,
    step: StepModel,
    image: image::DynamicImage,
    request: RequestModel,
    operation: Operation,
)
    requires
        processed(fields, step),
        uploaded(fields) == Some(image),
        collected(fields) == Some(request),
        operation_named(request.operation) == Some(operation),
        direct(image, operation, request),
        in_range(image, operation, request),
    ensures
        step is Reply,
        status_of(step->Reply_0) != StatusCode::BadRequest,
        step->Reply_0 is Ok ==> begins_png(step->Reply_0->Ok_0.body),
        exists|out: image::DynamicImage|
            {
                &&& #[trigger] transformed(image, operation, request, out)
                &&& step->Reply_0 == answered(out)
                &&& (status_of(step->Reply_0) == StatusCode::Okay <==> png_encoded(out) is Some)
                &&& (step->Reply_0 is Ok ==> step->Reply_0->Ok_0 == image_response(
                    png_encoded(out)->0,
                ))
                &&& (image_extent(out).0 < 1 || image_extent(out).1 < 1 ==> status_of(
                    step->Reply_0,
                ) == StatusCode::InternalServerError)
            },
{
    lemma_image_position(fields);
    let out = choose|out: image::DynamicImage|
        #[trigger] transformed(image, operation, request, out) && encoding_is_png(out) && step
            == StepModel::Reply(answered(out));
    assert(transformed(image, operation, request, out));
}

/// A form that names a crop, or an operation that is left to the caller as a
/// filter, with an image that decodes, goes back to the caller with the
/// image and with what the operation reads: the text of the rectangle, or
/// the filter and its amount.
pub proof fn lemma_deferred_operation(
    fields: Seq<FieldModel>,
    step: StepModel,
    image: image::DynamicImage,
    request: RequestModel,
    operation: Operation,
)
    requires
        processed(fields, step),
        uploaded(fields) == Some(image),
        collected(fields) == Some(request),
        operation_named(request.operation) == Some(operation),
        !direct(image, operation, request),
    ensures
        operation == Operation::Crop ==> step == (StepModel::Crop {
            image,
            text: request.crop_data,
        }),
        operation != Operation::Crop ==> step == (StepModel::Filter {
            image,
            filter: handed_out(image, operation, request)->0,
            amount: request.value,
        }),
{
    lemma_image_position(fields);
}

/// A `value` that writes no number counts as 50: of a form with such a
/// value becomes what becomes of the form that writes 50 in its place and is
/// the same in the upload and in every other parameter.
pub proof fn lemma_unreadable_value_is_fifty(
    fields: Seq<FieldModel>,
    plain: Seq<FieldModel>,
    step: StepModel,
)
    requires
        last_text(fields, "value"@) is Some,
        decimal_i32(last_text(fields, "value"@)->0) is None,
        last_text(plain, "value"@) is Some,
        decimal_i32(last_text(plain, "value"@)->0) == Some(DEFAULT_VALUE),
        image_payload(fields) == image_payload(plain),
        last_text(fields, "operation"@) == last_text(plain, "operation"@),
        last_text(fields, "height"@) == last_text(plain, "height"@),
        last_text(fields, "width"@) == last_text(plain, "width"@),
        last_text(fields, "border_width"@) == last_text(plain, "border_width"@),
        last_text(fields, "border_color"@) == last_text(plain, "border_color"@),
        last_text(fields, "crop"@) == last_text(plain, "crop"@),
    ensures
        collected(fields) == collected(plain),
        collected(fields) matches Some(request) ==> request.value == DEFAULT_VALUE,
        processed(fields, step) == processed(plain, step),
{
}

/// A field that the pipeline passes over, put anywhere into a form, changes
/// nothing of what becomes of the form.
pub proof fn lemma_other_fields_are_ignored(
    fields: Seq<FieldModel>,
    at: int,
    field: FieldModel,
    step: StepModel,
)
    requires
        0 <= at <= fields.len(),
        passed_over(field),
    ensures
        processed(fields.insert(at, field), step) == processed(fields, step),
{
    lemma_passed_over_field(fields, at, field);
}

/// A request is a bad one exactly where the form lacks an image that
/// decodes, lacks an operation, or names an operation that there is none
/// of. No parameter, however it is written, makes a request a bad one.
pub proof fn lemma_bad_request(fields: Seq<FieldModel>, step: StepModel)
    requires
        processed(fields, step),
    ensures
        (step is Reply && status_of(step->Reply_0) == StatusCode::BadRequest) <==> (uploaded(fields)
            is None || operation_asked(fields) is None),
{
    lemma_image_position(fields);
    if uploaded(fields) is Some && operation_asked(fields) is Some {
        let image = uploaded(fields)->0;
        let request = collected(fields)->0;
        let operation = operation_asked(fields)->0;
        if direct(image, operation, request) && in_range(image, operation, request) {
            lemma_direct_operation_is_answered(fields, step, image, request, operation);
        }
    }
}

/// The greeting for a visitor called `name` of `age` years.
pub open spec fn greeting(name: Seq<char>, age: u32) -> Seq<char> {
    "Hello, "@ + name + "! You are "@ + decimal_text(age as nat) + " years old."@
}

/// Greets a visitor.
pub fn test_process(user: User) -> (r: (StatusCode, UserResponse))
    ensures
        r.0 == StatusCode::Okay,
        r.1.message@ == greeting(user.name@, user.age),
{
    let mut message = "Hello, ".to_owned();
    message.append(user.name.as_str());
    message.append("! You are ");
    append_decimal(&mut message, user.age);
    message.append(" years old.");
    (StatusCode::Okay, UserResponse { message })
}

} // verus!
