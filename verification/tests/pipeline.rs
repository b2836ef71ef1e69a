use image::{DynamicImage, GenericImageView, ImageFormat, Rgb, RgbImage, Rgba, RgbaImage};
use image_service::handlers::{complete_crop, dispatch, process_image, respond, Step};
use image_service::img_ops::transform;
use image_service::models::CropData;
use image_service::multipart::Field;
use image_service::operation::{Filter, Operation};
use image_service::request::OperationRequest;
use image_service::response::{Response, StatusCode};
use image_service::utils::{image_to_bytes, load_image, send_image_response};
use std::io::Cursor;

fn field(name: &str, data: &[u8]) -> Field {
    Field { name: Some(name.to_string()), data: data.to_vec() }
}

fn sample() -> DynamicImage {
    let mut img = RgbImage::new(4, 3);
    for x in 0..4u32 {
        for y in 0..3u32 {
            img.put_pixel(x, y, Rgb([(40 * x + 10) as u8, (60 * y + 20) as u8, (x * y * 20) as u8]));
        }
    }
    DynamicImage::ImageRgb8(img)
}

fn encoded(img: &DynamicImage, format: ImageFormat) -> Vec<u8> {
    let mut bytes = Vec::new();
    img.write_to(&mut Cursor::new(&mut bytes), format).unwrap();
    bytes
}

fn form(operation: &str, extra: &[(&str, &str)]) -> Vec<Field> {
    let mut fields = vec![field("image", &encoded(&sample(), ImageFormat::Png))];
    fields.push(field("operation", operation.as_bytes()));
    for (name, value) in extra {
        fields.push(field(name, value.as_bytes()));
    }
    fields
}

fn request(operation: &str) -> OperationRequest {
    OperationRequest {
        operation: operation.to_string(),
        value: 50,
        height: 500,
        width: 500,
        border_width: 5,
        border_color: "000000".to_string(),
        crop_data: String::new(),
    }
}

fn image_of(step: Step) -> DynamicImage {
    match step {
        Step::Reply(Ok(response)) => {
            assert_eq!(response.status, StatusCode::Okay);
            assert_eq!(response.content_type.as_deref(), Some("image/jpeg"));
            assert!(!response.body.is_empty());
            assert_eq!(image::guess_format(&response.body).unwrap(), ImageFormat::Png);
            image::load_from_memory(&response.body).unwrap()
        },
        _ => panic!("the request is not answered with an image"),
    }
}

fn same_pixels(a: &DynamicImage, b: &DynamicImage) {
    assert_eq!(a.dimensions(), b.dimensions());
    for (x, y, p) in a.pixels() {
        assert_eq!(p, b.get_pixel(x, y), "pixel ({}, {})", x, y);
    }
}

fn is_bare(response: &Response, status: StatusCode) -> bool {
    response.status == status && response.content_type.is_none() && response.body.is_empty()
}

#[test]
fn every_direct_operation_answers_with_a_png() {
    for name in [
        "grayscale", "brightness", "huerotate", "flip_horizontal", "flip_vertical", "rotate90",
        "rotate180", "rotate270", "resize", "border",
    ] {
        let out = image_of(process_image(form(name, &[])).step);
        assert!(out.width() > 0, "{}", name);
    }
}

#[test]
fn grayscale_is_the_grayscale_of_the_upload() {
    let out = image_of(process_image(form("grayscale", &[])).step);
    same_pixels(&out, &sample().grayscale());
    assert_ne!(out.to_rgba8(), sample().to_rgba8());
}

#[test]
fn brightness_adds_the_value() {
    let out = image_of(process_image(form("brightness", &[("value", "-30")])).step);
    same_pixels(&out, &sample().brighten(-30));
    assert_eq!(out.get_pixel(0, 0), Rgba([0, 0, 0, 255]));
    assert_eq!(out.get_pixel(3, 2), Rgba([100, 110, 90, 255]));
}

#[test]
fn brightness_with_a_value_that_is_no_number_uses_fifty() {
    let out = image_of(process_image(form("brightness", &[("value", "abc")])).step);
    same_pixels(&out, &sample().brighten(50));
    assert_eq!(out.get_pixel(0, 0), Rgba([60, 70, 50, 255]));
}

#[test]
fn huerotate_turns_the_hue_by_the_value() {
    let out = image_of(process_image(form("huerotate", &[("value", "90")])).step);
    same_pixels(&out, &sample().huerotate(90));
    assert_ne!(out.to_rgba8(), sample().to_rgba8());
}

#[test]
fn flips_mirror_the_upload() {
    let source = sample();
    let out = image_of(process_image(form("flip_horizontal", &[])).step);
    assert_eq!(out.dimensions(), (4, 3));
    for (x, y, p) in out.pixels() {
        assert_eq!(p, source.get_pixel(3 - x, y));
    }
    let out = image_of(process_image(form("flip_vertical", &[])).step);
    assert_eq!(out.dimensions(), (4, 3));
    for (x, y, p) in out.pixels() {
        assert_eq!(p, source.get_pixel(x, 2 - y));
    }
}

#[test]
fn rotations_turn_clockwise() {
    let source = sample();
    let out = image_of(process_image(form("rotate90", &[])).step);
    assert_eq!(out.dimensions(), (3, 4));
    for (x, y, p) in out.pixels() {
        assert_eq!(p, source.get_pixel(y, 2 - x));
    }
    let out = image_of(process_image(form("rotate180", &[])).step);
    assert_eq!(out.dimensions(), (4, 3));
    for (x, y, p) in out.pixels() {
        assert_eq!(p, source.get_pixel(3 - x, 2 - y));
    }
    let out = image_of(process_image(form("rotate270", &[])).step);
    assert_eq!(out.dimensions(), (3, 4));
    for (x, y, p) in out.pixels() {
        assert_eq!(p, source.get_pixel(3 - y, x));
    }
}

#[test]
fn resize_gives_exactly_the_size_asked_for() {
    let out = image_of(process_image(form("resize", &[("width", "8"), ("height", "2")])).step);
    assert_eq!(out.dimensions(), (8, 2));
    same_pixels(&out, &sample().resize_exact(8, 2, image::imageops::FilterType::Triangle));
    let out = image_of(process_image(form("resize", &[])).step);
    assert_eq!(out.dimensions(), (500, 500));
}

#[test]
fn border_reads_its_width_and_its_colour() {
    let fields = form("border", &[("border_width", "5"), ("border_color", "FF0000")]);
    let out = image_of(process_image(fields).step);
    assert_eq!(out.dimensions(), (14, 13));
    let source = sample();
    for (x, y, p) in out.pixels() {
        if x >= 5 && x < 9 && y >= 5 && y < 8 {
            assert_eq!(p, source.get_pixel(x - 5, y - 5));
        } else {
            assert_eq!(p, Rgba([255, 0, 0, 255]));
        }
    }
    let out = image_of(process_image(form("border", &[])).step);
    assert_eq!(out.dimensions(), (14, 13));
    assert_eq!(out.get_pixel(0, 0), Rgba([0, 0, 0, 255]));
}

#[test]
fn border_of_width_zero_returns_the_upload() {
    let out = image_of(process_image(form("border", &[("border_width", "0")])).step);
    same_pixels(&out, &sample());
}

#[test]
fn unknown_operation_is_a_bad_request() {
    for name in ["sepia", "Grayscale", "grayscale ", " blur", "rotate", "rotate45", "crop\n"] {
        match process_image(form(name, &[])).step {
            Step::Reply(Ok(response)) => assert!(is_bare(&response, StatusCode::BadRequest)),
            _ => panic!("{:?} is taken for an operation", name),
        }
    }
}

#[test]
fn missing_image_is_a_bad_request() {
    let fields = vec![
        field("operation", b"grayscale"),
        field("value", b"1"),
        field("file", &encoded(&sample(), ImageFormat::Png)),
    ];
    assert!(matches!(process_image(fields).step, Step::Reply(Err(StatusCode::BadRequest))));
    assert!(matches!(process_image(Vec::new()).step, Step::Reply(Err(StatusCode::BadRequest))));
}

#[test]
fn missing_operation_is_a_bad_request() {
    let fields = vec![field("image", &encoded(&sample(), ImageFormat::Png)), field("value", b"1")];
    assert!(matches!(process_image(fields).step, Step::Reply(Err(StatusCode::BadRequest))));
}

#[test]
fn empty_operation_is_a_bad_request() {
    assert!(matches!(
        process_image(form("", &[])).step,
        Step::Reply(Err(StatusCode::BadRequest))
    ));
    let later = [("operation", "")];
    assert!(matches!(
        process_image(form("grayscale", &later)).step,
        Step::Reply(Err(StatusCode::BadRequest))
    ));
}

#[test]
fn image_that_does_not_decode_is_a_bad_request() {
    for payload in [&b""[..], b"not an image", &[0x89, b'P', b'N', b'G', 0x0d, 0x0a, 0x1a, 0x0a]] {
        let fields = vec![field("image", payload), field("operation", b"grayscale")];
        assert!(matches!(process_image(fields).step, Step::Reply(Err(StatusCode::BadRequest))));
    }
}

#[test]
fn the_first_image_is_the_upload() {
    let mut other = RgbImage::new(1, 1);
    other.put_pixel(0, 0, Rgb([9, 9, 9]));
    let fields = vec![
        field("image", &encoded(&sample(), ImageFormat::Png)),
        field("image", &encoded(&DynamicImage::ImageRgb8(other), ImageFormat::Png)),
        field("operation", b"rotate180"),
    ];
    let out = image_of(process_image(fields).step);
    assert_eq!(out.dimensions(), (4, 3));
}

#[test]
fn parameters_count_wherever_the_image_stands() {
    let fields = vec![
        field("operation", b"brightness"),
        field("value", b"10"),
        field("image", &encoded(&sample(), ImageFormat::Png)),
    ];
    let out = image_of(process_image(fields).step);
    same_pixels(&out, &sample().brighten(10));
}

#[test]
fn the_format_of_the_upload_is_told_from_its_bytes() {
    for format in [ImageFormat::Png, ImageFormat::Bmp, ImageFormat::Gif, ImageFormat::Tiff] {
        let fields = vec![
            field("image", &encoded(&sample(), format)),
            field("operation", b"flip_vertical"),
        ];
        let out = image_of(process_image(fields).step);
        assert_eq!(out.dimensions(), (4, 3));
    }
    let fields = vec![
        field("image", &encoded(&sample(), ImageFormat::Jpeg)),
        field("operation", b"grayscale"),
    ];
    assert_eq!(image_of(process_image(fields).step).dimensions(), (4, 3));
}

#[test]
fn crop_hands_the_rectangle_text_back() {
    let text = "{\"x\":1,\"y\":1,\"width\":2,\"height\":2}";
    match process_image(form("crop", &[("crop", text)])).step {
        Step::Crop { image, text: found } => {
            assert_eq!(found, text);
            same_pixels(&image, &sample());
        },
        _ => panic!("a crop is not handed back"),
    }
    match process_image(form("crop", &[("crop", "not json")])).step {
        Step::Crop { text, .. } => assert_eq!(text, "not json"),
        _ => panic!("a crop is not handed back"),
    }
}

#[test]
fn crop_without_rectangle_text_hands_the_placeholder_back() {
    match process_image(form("crop", &[])).step {
        Step::Crop { text, .. } => {
            assert!(text.starts_with("{{\"x\":33.42135868591466,"));
            assert!(text.ends_with("\"height\":32.03203203203203}}"));
        },
        _ => panic!("a crop is not handed back"),
    }
}

#[test]
fn crop_with_a_rectangle_cuts_it_out() {
    let rectangle = CropData { x: 1, y: 1, width: 2, height: 2 };
    let reply = complete_crop(sample(), Some(rectangle));
    let out = image_of(Step::Reply(reply));
    assert_eq!(out.dimensions(), (2, 2));
    let source = sample();
    for (x, y, p) in out.pixels() {
        assert_eq!(p, source.get_pixel(x + 1, y + 1));
    }
}

#[test]
fn crop_clips_the_rectangle_to_the_image() {
    let rectangle = CropData { x: 2, y: 1, width: 100, height: 100 };
    let out = image_of(Step::Reply(complete_crop(sample(), Some(rectangle))));
    assert_eq!(out.dimensions(), (2, 2));
    assert_eq!(out.get_pixel(0, 0), sample().get_pixel(2, 1));
}

#[test]
fn crop_without_a_rectangle_is_a_bad_request() {
    match complete_crop(sample(), None) {
        Ok(response) => assert!(is_bare(&response, StatusCode::BadRequest)),
        Err(_) => panic!("the reply is no response"),
    }
}

#[test]
fn crop_to_nothing_is_a_fault_of_the_encoder() {
    let rectangle = CropData { x: 0, y: 0, width: 0, height: 0 };
    assert!(matches!(
        complete_crop(sample(), Some(rectangle)),
        Err(StatusCode::InternalServerError)
    ));
}

#[test]
fn filters_are_handed_back_with_their_amount() {
    let expected = [
        ("unsharpen", Filter::Unsharpen { threshold: 2 }),
        ("blur", Filter::Blur),
        ("contrast", Filter::Contrast),
    ];
    for (name, filter) in expected {
        match process_image(form(name, &[("value", "-7")])).step {
            Step::Filter { image, filter: found, amount } => {
                assert_eq!(found, filter);
                assert_eq!(amount, -7);
                same_pixels(&image, &sample());
            },
            _ => panic!("{} is not handed back", name),
        }
        match process_image(form(name, &[])).step {
            Step::Filter { amount, .. } => assert_eq!(amount, 50),
            _ => panic!("{} is not handed back", name),
        }
    }
}

#[test]
fn respond_encodes_and_wraps() {
    let reply = respond(sample());
    let out = image_of(Step::Reply(reply));
    same_pixels(&out, &sample());
    let body = respond(sample()).unwrap().body;
    assert_eq!(&body[..8], &[137, 80, 78, 71, 13, 10, 26, 10]);
    assert!(matches!(
        respond(DynamicImage::new_rgba8(0, 7)),
        Err(StatusCode::InternalServerError)
    ));
    assert!(matches!(
        respond(DynamicImage::new_luma8(7, 0)),
        Err(StatusCode::InternalServerError)
    ));
}

#[test]
fn operations_beyond_the_limits_are_out_of_range() {
    let huge = [("border_width", "2147483648")];
    assert!(matches!(process_image(form("border", &huge)).step, Step::OutOfRange));
    let huge = [("border_width", "4294967295")];
    assert!(matches!(process_image(form("border", &huge)).step, Step::OutOfRange));
    let huge = [("width", "4294967295"), ("height", "4294967295")];
    assert!(matches!(process_image(form("resize", &huge)).step, Step::OutOfRange));
}

#[test]
fn brightness_at_the_edge_of_the_range() {
    let out = image_of(process_image(form("brightness", &[("value", "2147418112")])).step);
    assert_eq!(out.get_pixel(0, 0), Rgba([255, 255, 255, 255]));
    let out = image_of(process_image(form("brightness", &[("value", "-2147483648")])).step);
    assert_eq!(out.get_pixel(3, 2), Rgba([0, 0, 0, 255]));
}

#[test]
fn brightness_of_float_samples_is_handed_back() {
    let image = DynamicImage::new_rgb32f(2, 2);
    match dispatch(image, request("brightness")) {
        Step::Filter { image, filter, amount } => {
            assert_eq!(filter, Filter::Brightness);
            assert_eq!(amount, 50);
            assert_eq!(image, DynamicImage::new_rgb32f(2, 2));
        },
        _ => panic!("brightness of float samples is not handed back"),
    }
    let image = DynamicImage::new_rgb16(2, 2);
    assert!(matches!(dispatch(image, request("brightness")), Step::Reply(Ok(_))));
}

#[test]
fn brightness_beyond_the_integers_is_handed_back() {
    for value in ["2147483647", "2147418113"] {
        match process_image(form("brightness", &[("value", value)])).step {
            Step::Filter { image, filter, amount } => {
                assert_eq!(filter, Filter::Brightness);
                assert_eq!(amount.to_string(), value);
                same_pixels(&image, &sample());
            },
            _ => panic!("brightness by {} is not handed back", value),
        }
    }
}

#[test]
fn the_request_comes_back_with_the_step() {
    let done = process_image(form("resize", &[("width", "8"), ("value", "x")]));
    let request = done.request.unwrap();
    assert_eq!(request.operation, "resize");
    assert_eq!(request.width, 8);
    assert_eq!(request.height, 500);
    assert_eq!(request.value, 50);
    assert!(matches!(done.step, Step::Reply(Ok(_))));
    let done = process_image(form("sepia", &[]));
    assert_eq!(done.request.unwrap().operation, "sepia");
    let done = process_image(vec![field("operation", b"blur")]);
    assert!(done.request.is_none());
    let done = process_image(vec![field("image", b"junk"), field("operation", b"blur")]);
    assert!(done.request.is_none());
    let done = process_image(vec![field("image", &encoded(&sample(), ImageFormat::Png))]);
    assert!(done.request.is_none());
}

#[test]
fn huerotate_keeps_the_kind_of_the_image() {
    let out = transform(sample(), Operation::HueRotate, &request("huerotate")).unwrap();
    assert_eq!(out.color(), sample().color());
    assert_eq!(out.dimensions(), (4, 3));
    let rgba = DynamicImage::ImageRgba8(sample().to_rgba8());
    let out = transform(rgba, Operation::HueRotate, &request("huerotate")).unwrap();
    assert!(out.as_rgba8().is_some());
}

#[test]
fn resize_to_nothing_is_a_fault_of_the_encoder() {
    let fields = form("resize", &[("width", "0"), ("height", "0")]);
    assert!(matches!(process_image(fields).step, Step::Reply(Err(StatusCode::InternalServerError))));
}

#[test]
fn transform_carries_out_direct_operations_only() {
    let r = request("whatever");
    assert!(transform(sample(), Operation::Crop, &r).is_none());
    assert!(transform(sample(), Operation::Blur, &r).is_none());
    assert!(transform(sample(), Operation::Unsharpen, &r).is_none());
    assert!(transform(sample(), Operation::Contrast, &r).is_none());
    assert!(transform(DynamicImage::new_rgba32f(1, 1), Operation::Brightness, &r).is_none());
    let out = transform(sample(), Operation::Rotate90, &r).unwrap();
    assert_eq!(out.dimensions(), (3, 4));
    let out = transform(sample(), Operation::Resize, &r).unwrap();
    assert_eq!(out.dimensions(), (500, 500));
}

#[test]
fn operation_names_are_exact() {
    let table = [
        ("grayscale", Operation::Grayscale),
        ("brightness", Operation::Brightness),
        ("unsharpen", Operation::Unsharpen),
        ("huerotate", Operation::HueRotate),
        ("blur", Operation::Blur),
        ("contrast", Operation::Contrast),
        ("flip_horizontal", Operation::FlipHorizontal),
        ("flip_vertical", Operation::FlipVertical),
        ("rotate90", Operation::Rotate90),
        ("rotate180", Operation::Rotate180),
        ("rotate270", Operation::Rotate270),
        ("resize", Operation::Resize),
        ("crop", Operation::Crop),
        ("border", Operation::Border),
    ];
    for (name, operation) in table {
        assert_eq!(Operation::from_name(name), Some(operation));
        assert_eq!(Operation::from_name(&name.to_uppercase()), None);
        assert_eq!(Operation::from_name(&format!("{} ", name)), None);
    }
    assert_eq!(Operation::from_name(""), None);
    assert_eq!(Operation::from_name("invert"), None);
}

#[test]
fn load_image_decodes_or_calls_the_request_bad() {
    let image = load_image(&encoded(&sample(), ImageFormat::Png)).unwrap();
    same_pixels(&image, &sample());
    assert!(matches!(load_image(b"GIF89a"), Err(StatusCode::BadRequest)));
    assert!(matches!(load_image(&[]), Err(StatusCode::BadRequest)));
}

#[test]
fn image_to_bytes_writes_png() {
    let bytes = image_to_bytes(sample()).unwrap();
    assert_eq!(&bytes[..8], &[0x89, b'P', b'N', b'G', 0x0d, 0x0a, 0x1a, 0x0a]);
    assert_eq!(bytes, encoded(&sample(), ImageFormat::Png));
    assert!(matches!(
        image_to_bytes(DynamicImage::new_rgb8(0, 0)),
        Err(StatusCode::InternalServerError)
    ));
}

#[test]
fn encoding_and_decoding_gives_the_pixels_back() {
    let mut rgba = RgbaImage::new(3, 2);
    rgba.put_pixel(0, 0, Rgba([1, 2, 3, 4]));
    rgba.put_pixel(2, 1, Rgba([250, 251, 252, 0]));
    let images = [
        sample(),
        DynamicImage::ImageRgba8(rgba),
        sample().grayscale(),
        DynamicImage::ImageRgb16(sample().to_rgb16()),
        sample().rotate90(),
    ];
    for image in images {
        let bytes = image_to_bytes(image.clone()).unwrap();
        let back = load_image(&bytes).unwrap();
        assert_eq!(back, image);
    }
}

#[test]
fn the_answer_is_labelled_jpeg() {
    let response = send_image_response(vec![1, 2, 3]);
    assert_eq!(response.status, StatusCode::Okay);
    assert_eq!(response.status.as_u16(), 200);
    assert_eq!(response.content_type.as_deref(), Some("image/jpeg"));
    assert_eq!(response.body, vec![1, 2, 3]);
    let empty = send_image_response(Vec::new());
    assert_eq!(empty.status, StatusCode::Okay);
    assert!(empty.body.is_empty());
}

#[test]
fn statuses_have_their_numbers() {
    assert_eq!(StatusCode::Okay.as_u16(), 200);
    assert_eq!(StatusCode::BadRequest.as_u16(), 400);
    assert_eq!(StatusCode::InternalServerError.as_u16(), 500);
    let bare = Response::from_status(StatusCode::BadRequest);
    assert!(is_bare(&bare, StatusCode::BadRequest));
}
