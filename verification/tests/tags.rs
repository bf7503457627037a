use photo_catalog::tags::{
    exif_record, get_exif_data, gps_angle, read_tags, ExifData, ExifTag, FieldValue, GpsAngle,
    RawField, Ratio, TagContext, TagReadings, PRIMARY_IMAGE,
};

const ASCII: u16 = 2;
const SHORT: u16 = 3;
const LONG: u16 = 4;
const RATIONAL: u16 = 5;
const EXIF_POINTER: u16 = 0x8769;
const GPS_POINTER: u16 = 0x8825;

struct Entry {
    tag: u16,
    kind: u16,
    count: u32,
    data: Vec<u8>,
}

fn ascii(tag: u16, text: &str) -> Entry {
    let mut data = text.as_bytes().to_vec();
    data.push(0);
    Entry { tag, kind: ASCII, count: data.len() as u32, data }
}

fn shorts(tag: u16, values: &[u16]) -> Entry {
    let data = values.iter().flat_map(|v| v.to_be_bytes()).collect();
    Entry { tag, kind: SHORT, count: values.len() as u32, data }
}

fn longs(tag: u16, values: &[u32]) -> Entry {
    let data = values.iter().flat_map(|v| v.to_be_bytes()).collect();
    Entry { tag, kind: LONG, count: values.len() as u32, data }
}

fn rationals(tag: u16, values: &[(u32, u32)]) -> Entry {
    let mut data = Vec::new();
    for (num, denom) in values {
        data.extend_from_slice(&num.to_be_bytes());
        data.extend_from_slice(&denom.to_be_bytes());
    }
    Entry { tag, kind: RATIONAL, count: values.len() as u32, data }
}

fn directory_size(entries: &[Entry]) -> usize {
    let outside: usize = entries.iter().filter(|e| e.data.len() > 4).map(|e| e.data.len()).sum();
    2 + 12 * entries.len() + 4 + outside
}

fn write_directory(out: &mut Vec<u8>, entries: &[Entry]) {
    let start = out.len();
    let mut outside = start + 2 + 12 * entries.len() + 4;
    let mut tail: Vec<u8> = Vec::new();
    out.extend_from_slice(&(entries.len() as u16).to_be_bytes());
    for entry in entries {
        out.extend_from_slice(&entry.tag.to_be_bytes());
        out.extend_from_slice(&entry.kind.to_be_bytes());
        out.extend_from_slice(&entry.count.to_be_bytes());
        if entry.data.len() <= 4 {
            let mut inline = entry.data.clone();
            inline.resize(4, 0);
            out.extend_from_slice(&inline);
        } else {
            out.extend_from_slice(&(outside as u32).to_be_bytes());
            outside += entry.data.len();
            tail.extend_from_slice(&entry.data);
        }
    }
    out.extend_from_slice(&0u32.to_be_bytes());
    out.extend_from_slice(&tail);
}

/// A big-endian TIFF file with these fields in its image, exposure and
/// position directories.
fn tiff(image: Vec<Entry>, exposure: Vec<Entry>, position: Vec<Entry>) -> Vec<u8> {
    let mut image = image;
    let pointers = (!exposure.is_empty()) as usize + (!position.is_empty()) as usize;
    let image_size = directory_size(&image) + 12 * pointers;
    let exposure_at = 8 + image_size;
    let position_at = exposure_at + if exposure.is_empty() { 0 } else { directory_size(&exposure) };
    if !exposure.is_empty() {
        image.push(longs(EXIF_POINTER, &[exposure_at as u32]));
    }
    if !position.is_empty() {
        image.push(longs(GPS_POINTER, &[position_at as u32]));
    }
    let mut out = vec![0x4d, 0x4d, 0x00, 0x2a, 0x00, 0x00, 0x00, 0x08];
    write_directory(&mut out, &image);
    if !exposure.is_empty() {
        assert_eq!(out.len(), exposure_at);
        write_directory(&mut out, &exposure);
    }
    if !position.is_empty() {
        assert_eq!(out.len(), position_at);
        write_directory(&mut out, &position);
    }
    out
}

fn full_photo() -> Vec<u8> {
    tiff(
        vec![
            ascii(0x10f, "Canon"),
            ascii(0x110, "EOS R5"),
            ascii(0x132, "2024:03:04 05:06:07"),
        ],
        vec![
            rationals(0x829a, &[(1, 250)]),
            rationals(0x829d, &[(28, 10)]),
            shorts(0x8827, &[200, 400]),
            ascii(0x9003, "2024:01:02 03:04:05"),
            rationals(0x920a, &[(50, 1)]),
            longs(0xa002, &[4000]),
            shorts(0xa003, &[3000]),
        ],
        vec![
            ascii(0x1, "S"),
            rationals(0x2, &[(40, 1), (26, 1), (46, 1)]),
            ascii(0x3, "E"),
            rationals(0x4, &[(79, 1), (58, 1), (5594, 100)]),
        ],
    )
}

fn field(text: &str, value: FieldValue) -> Option<RawField> {
    Some(RawField { text: text.to_string(), value })
}

fn no_readings() -> TagReadings {
    TagReadings {
        date_time_original: None,
        date_time: None,
        make: None,
        model: None,
        photographic_sensitivity: None,
        f_number: None,
        exposure_time: None,
        focal_length: None,
        gps_latitude_ref: None,
        gps_latitude: None,
        gps_longitude_ref: None,
        gps_longitude: None,
        pixel_x_dimension: None,
        pixel_y_dimension: None,
    }
}

fn ratio(num: u32, denom: u32) -> Ratio {
    Ratio { num, denom }
}

fn decimal_degrees(angle: &GpsAngle) -> f64 {
    let degrees = angle.degrees.num as f64 / angle.degrees.denom as f64;
    let minutes = angle.minutes.num as f64 / angle.minutes.denom as f64;
    let seconds = angle.seconds.num as f64 / angle.seconds.denom as f64;
    let decimal = degrees + minutes / 60.0 + seconds / 3600.0;
    if angle.negative {
        -decimal
    } else {
        decimal
    }
}

fn dms(degrees: u32, minutes: u32, seconds: u32) -> FieldValue {
    FieldValue::Rational(vec![ratio(degrees, 1), ratio(minutes, 1), ratio(seconds, 1)])
}

#[test]
fn a_file_without_a_tag_container_has_the_absent_record() {
    assert_eq!(get_exif_data(b"this is no image at all"), ExifData::absent());
    assert_eq!(get_exif_data(&[]), ExifData::absent());
    assert_eq!(read_tags(b"this is no image at all"), None);
}

#[test]
fn a_jpeg_without_tags_has_the_absent_record() {
    let jpeg = [0xff, 0xd8, 0xff, 0xdb, 0x00, 0x04, 0x00, 0x00, 0xff, 0xd9];
    assert_eq!(get_exif_data(&jpeg), ExifData::absent());
}

#[test]
fn a_truncated_container_has_the_absent_record() {
    let mut bytes = full_photo();
    bytes.truncate(40);
    assert_eq!(get_exif_data(&bytes), ExifData::absent());
}

#[test]
fn the_absent_record_has_no_field() {
    let record = ExifData::absent();
    assert_eq!(record.date_taken, None);
    assert_eq!(record.camera_make, None);
    assert_eq!(record.camera_model, None);
    assert_eq!(record.iso, None);
    assert_eq!(record.aperture, None);
    assert_eq!(record.shutter_speed, None);
    assert_eq!(record.focal_length, None);
    assert_eq!(record.gps_lat, None);
    assert_eq!(record.gps_lon, None);
    assert_eq!(record.width, None);
    assert_eq!(record.height, None);
    assert_eq!(exif_record(no_readings()), record);
}

#[test]
fn the_record_of_a_photo_with_all_tags() {
    let record = get_exif_data(&full_photo());
    assert_eq!(
        record,
        ExifData {
            date_taken: Some("2024-01-02 03:04:05".to_string()),
            camera_make: Some("\"Canon\"".to_string()),
            camera_model: Some("\"EOS R5\"".to_string()),
            iso: Some(200),
            aperture: Some("2.8".to_string()),
            shutter_speed: Some("1/250".to_string()),
            focal_length: Some("50".to_string()),
            gps_lat: Some(GpsAngle {
                degrees: ratio(40, 1),
                minutes: ratio(26, 1),
                seconds: ratio(46, 1),
                negative: true,
            }),
            gps_lon: Some(GpsAngle {
                degrees: ratio(79, 1),
                minutes: ratio(58, 1),
                seconds: ratio(5594, 100),
                negative: false,
            }),
            width: Some(4000),
            height: Some(3000),
        }
    );
}

#[test]
fn the_readings_of_a_photo_hold_text_and_numbers() {
    let readings = read_tags(&full_photo()).unwrap();
    assert_eq!(readings.make, field("\"Canon\"", FieldValue::Other));
    assert_eq!(
        readings.photographic_sensitivity,
        field("200, 400", FieldValue::Short(vec![200, 400]))
    );
    assert_eq!(readings.pixel_x_dimension, field("4000", FieldValue::Long(vec![4000])));
    assert_eq!(readings.gps_latitude_ref, field("S", FieldValue::Other));
    assert_eq!(readings.gps_latitude, field("40 deg 26 min 46 sec", dms(40, 26, 46)));
    assert_eq!(readings.exposure_time, field("1/250", FieldValue::Rational(vec![ratio(1, 250)])));
}

#[test]
fn a_little_endian_container_reads_the_same() {
    let bytes = [
        0x49, 0x49, 0x2a, 0x00, 0x08, 0x00, 0x00, 0x00, // header
        0x01, 0x00, // one field
        0x0f, 0x01, 0x02, 0x00, 0x04, 0x00, 0x00, 0x00, b'F', b'u', b'j', 0x00, // Make
        0x00, 0x00, 0x00, 0x00, // no further image
    ];
    let record = get_exif_data(&bytes);
    assert_eq!(record.camera_make, Some("\"Fuj\"".to_string()));
    assert_eq!(record.camera_model, None);
}

#[test]
fn only_the_primary_image_is_read() {
    // The make stands in the second image of the file, not in the first.
    let mut bytes = vec![0x4d, 0x4d, 0x00, 0x2a, 0x00, 0x00, 0x00, 0x08];
    write_directory(&mut bytes, &[ascii(0x110, "M")]);
    let second_at = bytes.len() as u32;
    let link = 8 + 2 + 12;
    bytes[link..link + 4].copy_from_slice(&second_at.to_be_bytes());
    write_directory(&mut bytes, &[ascii(0x10f, "X")]);
    let record = get_exif_data(&bytes);
    assert_eq!(record.camera_model, Some("\"M\"".to_string()));
    assert_eq!(record.camera_make, None);
    assert_eq!(PRIMARY_IMAGE, 0);
}

#[test]
fn the_date_falls_back_to_the_time_of_change() {
    let bytes = tiff(vec![ascii(0x132, "2024:03:04 05:06:07")], vec![], vec![]);
    assert_eq!(get_exif_data(&bytes).date_taken, Some("2024-03-04 05:06:07".to_string()));
    let mut readings = no_readings();
    readings.date_time = field("2024-03-04 05:06:07", FieldValue::Other);
    assert_eq!(exif_record(readings).date_taken, Some("2024-03-04 05:06:07".to_string()));
}

#[test]
fn the_time_of_capture_is_preferred() {
    let mut readings = no_readings();
    readings.date_time = field("changed", FieldValue::Other);
    readings.date_time_original = field("taken", FieldValue::Other);
    assert_eq!(exif_record(readings).date_taken, Some("taken".to_string()));
}

#[test]
fn the_first_of_several_numbers_is_taken() {
    let mut readings = no_readings();
    readings.photographic_sensitivity = field("100, 200", FieldValue::Short(vec![100, 200]));
    readings.pixel_x_dimension = field("70000, 1", FieldValue::Long(vec![70000, 1]));
    readings.pixel_y_dimension = field("65535", FieldValue::Short(vec![65535]));
    let record = exif_record(readings);
    assert_eq!(record.iso, Some(100));
    assert_eq!(record.width, Some(70000));
    assert_eq!(record.height, Some(65535));
}

#[test]
fn a_number_of_another_kind_is_absent() {
    let mut readings = no_readings();
    readings.photographic_sensitivity = field("100", FieldValue::Other);
    readings.pixel_x_dimension = field("4000/1", FieldValue::Rational(vec![ratio(4000, 1)]));
    readings.pixel_y_dimension = field("", FieldValue::Long(vec![]));
    let record = exif_record(readings);
    assert_eq!(record.iso, None);
    assert_eq!(record.width, None);
    assert_eq!(record.height, None);
}

#[test]
fn a_number_stored_as_text_is_absent() {
    let bytes = tiff(vec![], vec![ascii(0x8827, "200"), ascii(0xa002, "4000")], vec![]);
    let record = get_exif_data(&bytes);
    assert_eq!(record.iso, None);
    assert_eq!(record.width, None);
}

#[test]
fn forty_degrees_south_is_negative() {
    let angle = gps_angle(&field("", dms(40, 26, 46)), &field("S", FieldValue::Other)).unwrap();
    assert_eq!(
        angle,
        GpsAngle {
            degrees: ratio(40, 1),
            minutes: ratio(26, 1),
            seconds: ratio(46, 1),
            negative: true,
        }
    );
    assert!((decimal_degrees(&angle) - (-40.446111)).abs() < 1e-6);
}

#[test]
fn north_and_east_are_positive_south_and_west_negative() {
    let coordinate = field("", dms(10, 30, 0));
    let signs: Vec<bool> = ["N", "E", "S", "W"]
        .iter()
        .map(|reference| {
            gps_angle(&coordinate, &field(reference, FieldValue::Other)).unwrap().negative
        })
        .collect();
    assert_eq!(signs, vec![false, false, true, true]);
    let north = gps_angle(&coordinate, &field("N", FieldValue::Other)).unwrap();
    assert!((decimal_degrees(&north) - 10.5).abs() < 1e-12);
}

#[test]
fn a_reference_is_searched_for_its_letter() {
    let coordinate = field("", dms(1, 2, 3));
    assert!(gps_angle(&coordinate, &field("\"SW\"", FieldValue::Other)).unwrap().negative);
    assert!(gps_angle(&coordinate, &field("West", FieldValue::Other)).unwrap().negative);
    assert!(!gps_angle(&coordinate, &field("s", FieldValue::Other)).unwrap().negative);
    assert!(!gps_angle(&coordinate, &field("", FieldValue::Other)).unwrap().negative);
}

#[test]
fn a_coordinate_of_fewer_than_three_parts_is_absent() {
    let reference = field("S", FieldValue::Other);
    let two = field("", FieldValue::Rational(vec![ratio(40, 1), ratio(26, 1)]));
    assert_eq!(gps_angle(&two, &reference), None);
    assert_eq!(gps_angle(&field("", FieldValue::Rational(vec![])), &reference), None);
    assert_eq!(gps_angle(&field("", FieldValue::Long(vec![40, 26, 46])), &reference), None);
}

#[test]
fn a_coordinate_of_more_than_three_parts_keeps_the_first_three() {
    let four = field(
        "",
        FieldValue::Rational(vec![ratio(1, 1), ratio(2, 1), ratio(3, 1), ratio(4, 1)]),
    );
    let angle = gps_angle(&four, &field("N", FieldValue::Other)).unwrap();
    assert_eq!(angle.seconds, ratio(3, 1));
}

#[test]
fn a_coordinate_without_its_reference_is_absent() {
    assert_eq!(gps_angle(&field("", dms(40, 26, 46)), &None), None);
    assert_eq!(gps_angle(&None, &field("S", FieldValue::Other)), None);
    assert_eq!(gps_angle(&None, &None), None);
    let bytes = tiff(vec![], vec![], vec![rationals(0x2, &[(40, 1), (26, 1), (46, 1)])]);
    assert_eq!(get_exif_data(&bytes).gps_lat, None);
}

#[test]
fn the_axes_are_converted_each_by_itself() {
    let bytes = tiff(
        vec![],
        vec![],
        vec![ascii(0x3, "W"), rationals(0x4, &[(8, 1), (30, 1), (0, 1)])],
    );
    let record = get_exif_data(&bytes);
    assert_eq!(record.gps_lat, None);
    let longitude = record.gps_lon.unwrap();
    assert!(longitude.negative);
    assert!((decimal_degrees(&longitude) - (-8.5)).abs() < 1e-12);
}

#[test]
fn the_tags_have_the_numbers_of_the_standard() {
    let expected = [
        (ExifTag::DateTimeOriginal, exif::Tag::DateTimeOriginal),
        (ExifTag::DateTime, exif::Tag::DateTime),
        (ExifTag::Make, exif::Tag::Make),
        (ExifTag::Model, exif::Tag::Model),
        (ExifTag::PhotographicSensitivity, exif::Tag::PhotographicSensitivity),
        (ExifTag::FNumber, exif::Tag::FNumber),
        (ExifTag::ExposureTime, exif::Tag::ExposureTime),
        (ExifTag::FocalLength, exif::Tag::FocalLength),
        (ExifTag::GpsLatitudeRef, exif::Tag::GPSLatitudeRef),
        (ExifTag::GpsLatitude, exif::Tag::GPSLatitude),
        (ExifTag::GpsLongitudeRef, exif::Tag::GPSLongitudeRef),
        (ExifTag::GpsLongitude, exif::Tag::GPSLongitude),
        (ExifTag::PixelXDimension, exif::Tag::PixelXDimension),
        (ExifTag::PixelYDimension, exif::Tag::PixelYDimension),
    ];
    for (ours, theirs) in expected {
        let (context, number) = ours.place();
        let scope = match context {
            TagContext::Tiff => exif::Context::Tiff,
            TagContext::Exif => exif::Context::Exif,
            TagContext::Gps => exif::Context::Gps,
        };
        assert_eq!(exif::Tag(scope, number), theirs, "for {:?}", ours);
    }
}
