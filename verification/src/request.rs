//! The operation request: what a form asks for, with a default in the place
//! of every parameter that it leaves out or writes badly.
use vstd::prelude::*;
use vstd::string::*;
use vstd::utf8::*;
use crate::multipart::{named, FieldModel};
use crate::text::{decimal_i32, decimal_u32, same_text};

verus! {

/// What a form asks for. Every parameter is there whether the chosen
/// operation reads it or not.
#[derive(Clone, Debug, PartialEq, Eq)]
pub struct OperationRequest {
    /// The operation's name as the form gave it. It is never empty in a
    /// request that was collected from a form; it need not be a known name.
    pub operation: String,
    pub value: i32,
    pub height: u32,
    pub width: u32,
    pub border_width: u32,
    /// Hexadecimal RGB, with or without `#` in front.
    pub border_color: String,
    /// The crop rectangle as JSON text, not yet read.
    pub crop_data: String,
}

/// An [`OperationRequest`] as contracts see it.
pub ghost struct RequestModel {
    pub operation: Seq<char>,
    pub value: i32,
    pub height: u32,
    pub width: u32,
    pub border_width: u32,
    pub border_color: Seq<char>,
    pub crop_data: Seq<char>,
}

impl View for OperationRequest {
    type V = RequestModel;

    open spec fn view(&self) -> RequestModel {
        RequestModel {
            operation: self.operation@,
            value: self.value,
            height: self.height,
            width: self.width,
            border_width: self.border_width,
            border_color: self.border_color@,
            crop_data: self.crop_data@,
        }
    }
}

impl RequestModel {
    /// Whether the request names an operation: the name is not empty.
    pub open spec fn well_formed(self) -> bool {
        self.operation.len() > 0
    }
}

impl OperationRequest {
    /// Whether the request names an operation: the name is not empty.
    pub open spec fn well_formed(&self) -> bool {
        self@.well_formed()
    }

    /// Whether the request names an operation.
    pub fn is_well_formed(&self) -> (r: bool)
        ensures
            r == self.well_formed(),
    {
        !self.operation.as_str().is_empty()
    }

    /// A second request that asks for the same.
    pub fn duplicate(&self) -> (r: OperationRequest)
        ensures
            r@ == self@,
    {
        OperationRequest {
            operation: self.operation.clone(),
            value: self.value,
            height: self.height,
            width: self.width,
            border_width: self.border_width,
            border_color: self.border_color.clone(),
            crop_data: self.crop_data.clone(),
        }
    }
}

/// The `value` of a form that gives none.
pub const DEFAULT_VALUE: i32 = 50;

/// The `height` and the `width` of a form that gives none.
pub const DEFAULT_SIDE: u32 = 500;

/// The `border_width` of a form that gives none.
pub const DEFAULT_BORDER_WIDTH: u32 = 5;

/// The `border_color` of a form that gives none: black.
pub open spec fn default_border_color() -> Seq<char> {
    "000000"@
}

/// The `crop` of a form that gives none. It stands for no rectangle: a form
/// that asks for a crop has to bring its own.
pub open spec fn default_crop() -> Seq<char> {
    "{{\"x\":33.42135868591466,\"y\":4.530004678323855e-15,\"width\":37.03703703703704,\"height\":32.03203203203203}}"@
}

/// Whether the pipeline reads the payload of a field called `name`: the
/// image and the seven parameters. Any other field it passes over.
pub open spec fn is_read(name: Seq<char>) -> bool {
    ||| name == "image"@
    ||| name == "operation"@
    ||| name == "value"@
    ||| name == "height"@
    ||| name == "width"@
    ||| name == "border_width"@
    ||| name == "border_color"@
    ||| name == "crop"@
}

/// Whether the pipeline reads the payload of a field called `name`.
pub fn reads_payload_of(name: &str) -> (r: bool)
    ensures
        r == is_read(name@),
{
    same_text(name, "image")
        || same_text(name, "operation")
        || same_text(name, "value")
        || same_text(name, "height")
        || same_text(name, "width")
        || same_text(name, "border_width")
        || same_text(name, "border_color")
        || same_text(name, "crop")
}

/// The text of the last field called `name` whose payload is UTF-8, if there
/// is such a field. A later field overrides an earlier one; a payload that is
/// no UTF-8 overrides nothing.
pub open spec fn last_text(fields: Seq<FieldModel>, name: Seq<char>) -> Option<Seq<char>>
    decreases fields.len(),
{
    if fields.len() == 0 {
        None
    } else if named(fields.last(), name) && valid_utf8(fields.last().data) {
        Some(decode_utf8(fields.last().data))
    } else {
        last_text(fields.drop_last(), name)
    }
}

/// A signed parameter: what `text` writes, or `default` where there is no
/// text or it writes no `i32`.
pub open spec fn signed_or(text: Option<Seq<char>>, default: i32) -> i32 {
    match text {
        Some(t) => match decimal_i32(t) {
            Some(v) => v,
            None => default,
        },
        None => default,
    }
}

/// An unsigned parameter: what `text` writes, or `default` where there is no
/// text or it writes no `u32`.
pub open spec fn unsigned_or(text: Option<Seq<char>>, default: u32) -> u32 {
    match text {
        Some(t) => match decimal_u32(t) {
            Some(v) => v,
            None => default,
        },
        None => default,
    }
}

/// A textual parameter: `text`, or `default` where there is none.
pub open spec fn text_or(text: Option<Seq<char>>, default: Seq<char>) -> Seq<char> {
    match text {
        Some(t) => t,
        None => default,
    }
}

/// The operation that `fields` name: the text of the last field called
/// `operation` that holds UTF-8, unless that text is empty. An empty name is
/// no name.
pub open spec fn operation_text(fields: Seq<FieldModel>) -> Option<Seq<char>> {
    match last_text(fields, "operation"@) {
        Some(text) => if text.len() > 0 {
            Some(text)
        } else {
            None
        },
        None => None,
    }
}

/// The request that `fields` make: `None` where they name no operation.
/// No parameter can make the request fail; a bad one counts as its default.
pub open spec fn collected(fields: Seq<FieldModel>) -> Option<RequestModel> {
    match operation_text(fields) {
        Some(operation) => Some(
            RequestModel {
                operation,
                value: signed_or(last_text(fields, "value"@), DEFAULT_VALUE),
                height: unsigned_or(last_text(fields, "height"@), DEFAULT_SIDE),
                width: unsigned_or(last_text(fields, "width"@), DEFAULT_SIDE),
                border_width: unsigned_or(
                    last_text(fields, "border_width"@),
                    DEFAULT_BORDER_WIDTH,
                ),
                border_color: text_or(last_text(fields, "border_color"@), default_border_color()),
                crop_data: text_or(last_text(fields, "crop"@), default_crop()),
            },
        ),
        None => None,
    }
}

/// How many fields come before the first one called `image`; the number of
/// all fields where none is called so.
pub open spec fn image_position(fields: Seq<FieldModel>) -> int
    decreases fields.len(),
{
    if fields.len() == 0 {
        0
    } else if named(fields[0], "image"@) {
        0
    } else {
        1 + image_position(fields.drop_first())
    }
}

/// Whether a field of `fields` is called `image`.
pub open spec fn has_image(fields: Seq<FieldModel>) -> bool {
    exists|i: int| 0 <= i < fields.len() && named(#[trigger] fields[i], "image"@)
}

/// Whether a field of `fields` is called `operation` and holds UTF-8.
pub open spec fn has_operation(fields: Seq<FieldModel>) -> bool {
    exists|i: int|
        0 <= i < fields.len() && named(#[trigger] fields[i], "operation"@) && valid_utf8(
            fields[i].data,
        )
}

/// `image_position` is the place of the first field called `image`.
pub proof fn lemma_image_position(fields: Seq<FieldModel>)
    ensures
        0 <= image_position(fields) <= fields.len(),
        forall|j: int| 0 <= j < image_position(fields) ==> !named(#[trigger] fields[j], "image"@),
        image_position(fields) < fields.len() ==> named(
            fields[image_position(fields)],
            "image"@,
        ),
        has_image(fields) <==> image_position(fields) < fields.len(),
    decreases fields.len(),
{
    if fields.len() == 0 {
    } else if named(fields[0], "image"@) {
    } else {
        let rest = fields.drop_first();
        lemma_image_position(rest);
        assert forall|j: int| 0 <= j < image_position(fields) implies !named(
            #[trigger] fields[j],
            "image"@,
        ) by {
            if j > 0 {
                assert(fields[j] == rest[j - 1]);
            }
        }
        if image_position(fields) < fields.len() {
            assert(fields[image_position(fields)] == rest[image_position(rest)]);
        }
        if has_image(fields) {
            let i = choose|i: int| 0 <= i < fields.len() && named(#[trigger] fields[i], "image"@);
            assert(rest[i - 1] == fields[i]);
        }
    }
}

/// A request is collected exactly where the fields name an operation. It
/// then bears that name, which is not empty, and some field is called
/// `operation`.
pub proof fn lemma_collected(fields: Seq<FieldModel>)
    ensures
        collected(fields) is Some <==> operation_text(fields) is Some,
        collected(fields) is Some ==> has_operation(fields),
        collected(fields) matches Some(request) ==> request.well_formed() && Some(
            request.operation,
        ) == operation_text(fields),
{
    lemma_last_text_some(fields, "operation"@);
}

/// `last_text` finds a text exactly where a field of that name holds UTF-8.
pub proof fn lemma_last_text_some(fields: Seq<FieldModel>, name: Seq<char>)
    ensures
        last_text(fields, name) is Some <==> exists|i: int|
            0 <= i < fields.len() && named(#[trigger] fields[i], name) && valid_utf8(
                fields[i].data,
            ),
    decreases fields.len(),
{
    if fields.len() == 0 {
    } else {
        let front = fields.drop_last();
        lemma_last_text_some(front, name);
        if named(fields.last(), name) && valid_utf8(fields.last().data) {
            assert(named(fields[fields.len() - 1], name));
        } else {
            if last_text(front, name) is Some {
                let i = choose|i: int|
                    0 <= i < front.len() && named(#[trigger] front[i], name) && valid_utf8(
                        front[i].data,
                    );
                assert(fields[i] == front[i]);
            }
            if exists|i: int|
                0 <= i < fields.len() && named(#[trigger] fields[i], name) && valid_utf8(
                    fields[i].data,
                ) {
                let i = choose|i: int|
                    0 <= i < fields.len() && named(#[trigger] fields[i], name) && valid_utf8(
                        fields[i].data,
                    );
                assert(front[i] == fields[i]);
            }
        }
    }
}

/// A numeric parameter that is written badly counts as its default, and the
/// request is collected all the same.
pub proof fn lemma_unreadable_parameter_is_default(fields: Seq<FieldModel>)
    requires
        operation_text(fields) is Some,
    ensures
        collected(fields) is Some,
        last_text(fields, "value"@) matches Some(text) && decimal_i32(text) is None ==> collected(
            fields,
        )->0.value == DEFAULT_VALUE,
        last_text(fields, "height"@) matches Some(text) && decimal_u32(text) is None ==> collected(
            fields,
        )->0.height == DEFAULT_SIDE,
        last_text(fields, "width"@) matches Some(text) && decimal_u32(text) is None ==> collected(
            fields,
        )->0.width == DEFAULT_SIDE,
        last_text(fields, "border_width"@) matches Some(text) && decimal_u32(text) is None
            ==> collected(fields)->0.border_width == DEFAULT_BORDER_WIDTH,
{
    lemma_collected(fields);
}

/// The payload of the first field called `image`, where there is one.
pub open spec fn image_payload(fields: Seq<FieldModel>) -> Option<Seq<u8>> {
    if image_position(fields) < fields.len() {
        Some(fields[image_position(fields)].data)
    } else {
        None
    }
}

/// Whether the pipeline passes over `field`: it declares no name, or one
/// that the pipeline does not read.
pub open spec fn passed_over(field: FieldModel) -> bool {
    match field.name {
        Some(name) => !is_read(name),
        None => true,
    }
}

/// A field of another name, put anywhere into a form, leaves the text of
/// `name` as it was.
pub proof fn lemma_last_text_insert(
    fields: Seq<FieldModel>,
    at: int,
    field: FieldModel,
    name: Seq<char>,
)
    requires
        0 <= at <= fields.len(),
        !named(field, name),
    ensures
        last_text(fields.insert(at, field), name) == last_text(fields, name),
    decreases fields.len(),
{
    let longer = fields.insert(at, field);
    if at == fields.len() {
        assert(longer.drop_last() =~= fields);
    } else {
        assert(longer.last() == fields.last());
        assert(longer.drop_last() =~= fields.drop_last().insert(at, field));
        lemma_last_text_insert(fields.drop_last(), at, field, name);
    }
}

/// A field that is not called `image`, put anywhere into a form, leaves the
/// uploaded payload as it was.
pub proof fn lemma_image_insert(fields: Seq<FieldModel>, at: int, field: FieldModel)
    requires
        0 <= at <= fields.len(),
        !named(field, "image"@),
    ensures
        image_payload(fields.insert(at, field)) == image_payload(fields),
    decreases fields.len(),
{
    let longer = fields.insert(at, field);
    lemma_image_position(fields);
    lemma_image_position(longer);
    if at == 0 {
        assert(longer.drop_first() =~= fields);
        if image_position(fields) < fields.len() {
            assert(longer[image_position(fields) + 1] == fields[image_position(fields)]);
        }
    } else {
        assert(longer[0] == fields[0]);
        if !named(fields[0], "image"@) {
            let rest = fields.drop_first();
            assert(longer.drop_first() =~= rest.insert(at - 1, field));
            lemma_image_insert(rest, at - 1, field);
            lemma_image_position(rest);
            lemma_image_position(rest.insert(at - 1, field));
            if image_position(rest) < rest.len() {
                assert(fields[image_position(rest) + 1] == rest[image_position(rest)]);
            }
            let shifted = rest.insert(at - 1, field);
            if image_position(shifted) < shifted.len() {
                assert(longer[image_position(shifted) + 1] == shifted[image_position(shifted)]);
            }
        }
    }
}

/// A field that the pipeline passes over, put anywhere into a form, changes
/// neither the upload nor the request.
pub proof fn lemma_passed_over_field(fields: Seq<FieldModel>, at: int, field: FieldModel)
    requires
        0 <= at <= fields.len(),
        passed_over(field),
    ensures
        image_payload(fields.insert(at, field)) == image_payload(fields),
        collected(fields.insert(at, field)) == collected(fields),
{
    lemma_image_insert(fields, at, field);
    lemma_last_text_insert(fields, at, field, "operation"@);
    lemma_last_text_insert(fields, at, field, "value"@);
    lemma_last_text_insert(fields, at, field, "height"@);
    lemma_last_text_insert(fields, at, field, "width"@);
    lemma_last_text_insert(fields, at, field, "border_width"@);
    lemma_last_text_insert(fields, at, field, "border_color"@);
    lemma_last_text_insert(fields, at, field, "crop"@);
}

/// Reading one more field: it sets the text where it bears the name and
/// holds UTF-8, and leaves it as it was where not.
pub proof fn lemma_last_text_step(fields: Seq<FieldModel>, k: int, name: Seq<char>)
    requires
        0 <= k < fields.len(),
    ensures
        last_text(fields.take(k + 1), name) == if named(fields[k], name) && valid_utf8(
            fields[k].data,
        ) {
            Some(decode_utf8(fields[k].data))
        } else {
            last_text(fields.take(k), name)
        },
{
    assert(fields.take(k + 1).drop_last() =~= fields.take(k));
    assert(fields.take(k + 1).last() == fields[k]);
}

} // verus!
