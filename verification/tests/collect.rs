use image_service::multipart::{Field, FieldStream};
use image_service::response::StatusCode;
use image_service::utils::{extract_image, find_operation_value};

fn field(name: &str, data: &[u8]) -> Field {
    Field { name: Some(name.to_string()), data: data.to_vec() }
}

const PLACEHOLDER_CROP: &str = "{{\"x\":33.42135868591466,\"y\":4.530004678323855e-15,\"width\":37.03703703703704,\"height\":32.03203203203203}}";

#[test]
fn extract_image_returns_the_first_image_and_stops_behind_it() {
    let mut stream = FieldStream::new(vec![
        field("operation", b"blur"),
        field("image", b"first"),
        field("value", b"7"),
        field("image", b"second"),
    ]);
    assert_eq!(extract_image(&mut stream), Ok(b"first".to_vec()));
    assert!(!stream.is_exhausted());
    assert_eq!(stream.peek().data, b"7".to_vec());
    assert_eq!(extract_image(&mut stream), Ok(b"second".to_vec()));
    assert!(stream.is_exhausted());
    assert_eq!(extract_image(&mut stream), Err(StatusCode::BadRequest));
}

#[test]
fn extract_image_without_image_is_a_bad_request() {
    let mut stream = FieldStream::new(vec![
        field("operation", b"grayscale"),
        field("Image", b"x"),
        field("images", b"x"),
        Field { name: None, data: b"x".to_vec() },
    ]);
    assert_eq!(extract_image(&mut stream), Err(StatusCode::BadRequest));
    assert!(stream.is_exhausted());
    let mut empty = FieldStream::new(Vec::new());
    assert_eq!(extract_image(&mut empty), Err(StatusCode::BadRequest));
}

#[test]
fn extract_image_takes_an_empty_payload_as_it_is() {
    let mut stream = FieldStream::new(vec![field("image", b"")]);
    assert_eq!(extract_image(&mut stream), Ok(Vec::new()));
}

#[test]
fn rewind_makes_every_field_unread() {
    let mut stream = FieldStream::new(vec![field("a", b"1"), field("image", b"2")]);
    assert_eq!(extract_image(&mut stream), Ok(b"2".to_vec()));
    assert!(stream.is_exhausted());
    stream.rewind();
    assert!(!stream.is_exhausted());
    assert_eq!(stream.peek().data, b"1".to_vec());
    stream.advance();
    assert_eq!(stream.peek().data, b"2".to_vec());
    stream.advance();
    stream.advance();
    assert!(stream.is_exhausted());
}

#[test]
fn request_takes_defaults_for_what_is_left_out() {
    let mut stream = FieldStream::new(vec![field("operation", b"grayscale")]);
    let request = find_operation_value(&mut stream).unwrap();
    assert_eq!(request.operation, "grayscale");
    assert_eq!(request.value, 50);
    assert_eq!(request.height, 500);
    assert_eq!(request.width, 500);
    assert_eq!(request.border_width, 5);
    assert_eq!(request.border_color, "000000");
    assert_eq!(request.crop_data, PLACEHOLDER_CROP);
    assert!(stream.is_exhausted());
}

#[test]
fn request_reads_every_parameter() {
    let mut stream = FieldStream::new(vec![
        field("value", b"-20"),
        field("height", b"30"),
        field("width", b"40"),
        field("border_width", b"9"),
        field("border_color", b"#00FF00"),
        field("crop", b"{\"x\":1,\"y\":2,\"width\":3,\"height\":4}"),
        field("operation", b"border"),
        field("unknown", b"ignored"),
        field("image", b"ignored too"),
    ]);
    let request = find_operation_value(&mut stream).unwrap();
    assert_eq!(request.operation, "border");
    assert_eq!(request.value, -20);
    assert_eq!(request.height, 30);
    assert_eq!(request.width, 40);
    assert_eq!(request.border_width, 9);
    assert_eq!(request.border_color, "#00FF00");
    assert_eq!(request.crop_data, "{\"x\":1,\"y\":2,\"width\":3,\"height\":4}");
}

#[test]
fn request_without_operation_is_a_bad_request() {
    let mut stream = FieldStream::new(vec![field("value", b"1"), field("Operation", b"blur")]);
    assert!(matches!(find_operation_value(&mut stream), Err(StatusCode::BadRequest)));
    assert!(stream.is_exhausted());
    let mut empty = FieldStream::new(Vec::new());
    assert!(matches!(find_operation_value(&mut empty), Err(StatusCode::BadRequest)));
}

#[test]
fn an_empty_operation_is_no_operation() {
    let mut stream = FieldStream::new(vec![field("operation", b"")]);
    assert!(matches!(find_operation_value(&mut stream), Err(StatusCode::BadRequest)));
    assert!(stream.is_exhausted());
    let mut stream = FieldStream::new(vec![field("operation", b"blur"), field("operation", b"")]);
    assert!(matches!(find_operation_value(&mut stream), Err(StatusCode::BadRequest)));
    let mut stream = FieldStream::new(vec![field("operation", b""), field("operation", b"blur")]);
    assert_eq!(find_operation_value(&mut stream).unwrap().operation, "blur");
    let mut stream = FieldStream::new(vec![field("operation", b" ")]);
    let request = find_operation_value(&mut stream).unwrap();
    assert_eq!(request.operation, " ");
    assert!(request.is_well_formed());
}

#[test]
fn a_duplicate_asks_for_the_same() {
    let mut stream = FieldStream::new(vec![
        field("operation", b"border"),
        field("value", b"-3"),
        field("border_color", b"#abc"),
        field("crop", b"{}"),
    ]);
    let request = find_operation_value(&mut stream).unwrap();
    assert_eq!(request.duplicate(), request);
}

#[test]
fn a_parameter_that_does_not_parse_counts_as_its_default() {
    let mut stream = FieldStream::new(vec![
        field("operation", b"brightness"),
        field("value", b"abc"),
        field("height", b"-1"),
        field("width", b"4294967296"),
        field("border_width", b"5.0"),
    ]);
    let request = find_operation_value(&mut stream).unwrap();
    assert_eq!(request.value, 50);
    assert_eq!(request.height, 500);
    assert_eq!(request.width, 500);
    assert_eq!(request.border_width, 5);
}

#[test]
fn a_bad_parameter_resets_an_earlier_good_one() {
    let mut stream = FieldStream::new(vec![
        field("operation", b"brightness"),
        field("value", b"7"),
        field("value", b"seven"),
        field("width", b"10"),
        field("width", b""),
    ]);
    let request = find_operation_value(&mut stream).unwrap();
    assert_eq!(request.value, 50);
    assert_eq!(request.width, 500);
}

#[test]
fn of_several_fields_of_one_name_the_last_counts() {
    let mut stream = FieldStream::new(vec![
        field("operation", b"blur"),
        field("value", b"1"),
        field("operation", b"resize"),
        field("value", b"2"),
        field("border_color", b"111111"),
        field("border_color", b"222222"),
    ]);
    let request = find_operation_value(&mut stream).unwrap();
    assert_eq!(request.operation, "resize");
    assert_eq!(request.value, 2);
    assert_eq!(request.border_color, "222222");
}

#[test]
fn a_payload_that_is_no_utf8_changes_nothing() {
    let mut stream = FieldStream::new(vec![
        field("operation", b"blur"),
        field("operation", &[0xff, 0xfe]),
        field("value", b"7"),
        field("value", &[0x80]),
        field("border_color", b"abcdef"),
        field("border_color", &[0xc3, 0x28]),
        field("crop", &[0xed, 0xa0, 0x80]),
        field("height", &[0xf8, 0x88, 0x80, 0x80]),
    ]);
    let request = find_operation_value(&mut stream).unwrap();
    assert_eq!(request.operation, "blur");
    assert_eq!(request.value, 7);
    assert_eq!(request.border_color, "abcdef");
    assert_eq!(request.crop_data, PLACEHOLDER_CROP);
    assert_eq!(request.height, 500);
}

#[test]
fn an_operation_that_is_no_utf8_is_no_operation() {
    let mut stream = FieldStream::new(vec![field("operation", &[0xff])]);
    assert!(matches!(find_operation_value(&mut stream), Err(StatusCode::BadRequest)));
}

#[test]
fn text_parameters_keep_text_beyond_ascii() {
    let mut stream = FieldStream::new(vec![
        field("operation", "größe".as_bytes()),
        field("border_color", "rot".as_bytes()),
    ]);
    let request = find_operation_value(&mut stream).unwrap();
    assert_eq!(request.operation, "größe");
    assert_eq!(request.border_color, "rot");
}

#[test]
fn the_request_is_collected_from_where_the_stream_stands() {
    let mut stream = FieldStream::new(vec![
        field("operation", b"blur"),
        field("image", b"x"),
        field("value", b"3"),
    ]);
    assert!(extract_image(&mut stream).is_ok());
    assert!(matches!(find_operation_value(&mut stream), Err(StatusCode::BadRequest)));
    stream.rewind();
    let request = find_operation_value(&mut stream).unwrap();
    assert_eq!(request.operation, "blur");
    assert_eq!(request.value, 3);
}
