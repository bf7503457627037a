//! What a photo's embedded tags say: the record made of the tags that the
//! browser shows, and the reading of a file's tag container.

use vstd::prelude::*;
use crate::text::contains_char;

verus! {

/// The part of the tag container in which a tag number is looked up.
#[derive(Debug, Clone, Copy, PartialEq, Eq)]
pub enum TagContext {
    /// The image's own attributes.
    Tiff,
    /// The attributes of the exposure.
    Exif,
    /// The attributes of the position.
    Gps,
}

/// The tags that the record is made of.
#[derive(Debug, Clone, Copy, PartialEq, Eq)]
pub enum ExifTag {
    DateTimeOriginal,
    DateTime,
    Make,
    Model,
    PhotographicSensitivity,
    FNumber,
    ExposureTime,
    FocalLength,
    GpsLatitudeRef,
    GpsLatitude,
    GpsLongitudeRef,
    GpsLongitude,
    PixelXDimension,
    PixelYDimension,
}

impl ExifTag {
    /// Where the tag is looked up.
    pub open spec fn context(self) -> TagContext {
        match self {
            ExifTag::DateTime | ExifTag::Make | ExifTag::Model => TagContext::Tiff,
            ExifTag::GpsLatitudeRef
            | ExifTag::GpsLatitude
            | ExifTag::GpsLongitudeRef
            | ExifTag::GpsLongitude => TagContext::Gps,
            _ => TagContext::Exif,
        }
    }

    /// The tag's number there.
    pub open spec fn number(self) -> u16 {
        match self {
            ExifTag::DateTimeOriginal => 0x9003,
            ExifTag::DateTime => 0x132,
            ExifTag::Make => 0x10f,
            ExifTag::Model => 0x110,
            ExifTag::PhotographicSensitivity => 0x8827,
            ExifTag::FNumber => 0x829d,
            ExifTag::ExposureTime => 0x829a,
            ExifTag::FocalLength => 0x920a,
            ExifTag::GpsLatitudeRef => 0x1,
            ExifTag::GpsLatitude => 0x2,
            ExifTag::GpsLongitudeRef => 0x3,
            ExifTag::GpsLongitude => 0x4,
            ExifTag::PixelXDimension => 0xa002,
            ExifTag::PixelYDimension => 0xa003,
        }
    }

    /// The tag's place among the fields of the primary image.
    pub open spec fn key(self) -> FieldKey {
        FieldKey { context: self.context(), number: self.number(), image: PRIMARY_IMAGE }
    }

    /// The context and number of the tag.
    pub fn place(self) -> (place: (TagContext, u16))
        ensures
            place.0 == self.context(),
            place.1 == self.number(),
    {
        match self {
            ExifTag::DateTimeOriginal => (TagContext::Exif, 0x9003),
            ExifTag::DateTime => (TagContext::Tiff, 0x132),
            ExifTag::Make => (TagContext::Tiff, 0x10f),
            ExifTag::Model => (TagContext::Tiff, 0x110),
            ExifTag::PhotographicSensitivity => (TagContext::Exif, 0x8827),
            ExifTag::FNumber => (TagContext::Exif, 0x829d),
            ExifTag::ExposureTime => (TagContext::Exif, 0x829a),
            ExifTag::FocalLength => (TagContext::Exif, 0x920a),
            ExifTag::GpsLatitudeRef => (TagContext::Gps, 0x1),
            ExifTag::GpsLatitude => (TagContext::Gps, 0x2),
            ExifTag::GpsLongitudeRef => (TagContext::Gps, 0x3),
            ExifTag::GpsLongitude => (TagContext::Gps, 0x4),
            ExifTag::PixelXDimension => (TagContext::Exif, 0xa002),
            ExifTag::PixelYDimension => (TagContext::Exif, 0xa003),
        }
    }
}

/// The number of the primary image among the images of a container.
pub const PRIMARY_IMAGE: u16 = 0;

/// Where a field stands in a tag container.
pub struct FieldKey {
    pub context: TagContext,
    pub number: u16,
    pub image: u16,
}

/// The key made of its three parts.
pub open spec fn key_of(context: TagContext, number: u16, image: u16) -> FieldKey {
    FieldKey { context, number, image }
}

/// An unsigned rational number as a tag container stores it.
#[derive(Debug, Clone, Copy, PartialEq, Eq)]
pub struct Ratio {
    pub num: u32,
    pub denom: u32,
}

/// The numbers of a field, as far as the record reads them.
#[derive(Debug, PartialEq, Eq)]
pub enum FieldValue {
    /// 16-bit unsigned integers.
    Short(Vec<u16>),
    /// 32-bit unsigned integers.
    Long(Vec<u32>),
    /// Unsigned rationals.
    Rational(Vec<Ratio>),
    /// Anything else.
    Other,
}

/// The value of a `FieldValue`.
pub enum FieldNumbers {
    Short(Seq<u16>),
    Long(Seq<u32>),
    Rational(Seq<Ratio>),
    Other,
}

impl View for FieldValue {
    type V = FieldNumbers;

    open spec fn view(&self) -> FieldNumbers {
        match self {
            FieldValue::Short(numbers) => FieldNumbers::Short(numbers@),
            FieldValue::Long(numbers) => FieldNumbers::Long(numbers@),
            FieldValue::Rational(numbers) => FieldNumbers::Rational(numbers@),
            FieldValue::Other => FieldNumbers::Other,
        }
    }
}

/// One field of a tag container: its value in display form, and its numbers.
#[derive(Debug, PartialEq, Eq)]
pub struct RawField {
    pub text: String,
    pub value: FieldValue,
}

/// The value of a `RawField`.
pub struct RawFieldView {
    pub text: Seq<char>,
    pub value: FieldNumbers,
}

impl View for RawField {
    type V = RawFieldView;

    open spec fn view(&self) -> RawFieldView {
        RawFieldView { text: self.text@, value: self.value@ }
    }
}

/// The view of a field that may be absent.
pub open spec fn field_view(field: Option<RawField>) -> Option<RawFieldView> {
    match field {
        Some(field) => Some(field@),
        None => None,
    }
}

/// An angle in degrees, minutes and seconds, and whether it lies south of
/// the equator or west of the prime meridian. In decimal degrees it is
/// degrees + minutes / 60 + seconds / 3600, negated where `negative`.
#[derive(Debug, Clone, Copy, PartialEq, Eq)]
pub struct GpsAngle {
    pub degrees: Ratio,
    pub minutes: Ratio,
    pub seconds: Ratio,
    pub negative: bool,
}

/// The tags of one photo that the browser shows, each present or absent by
/// itself.
#[derive(Debug, PartialEq, Eq)]
pub struct ExifData {
    pub date_taken: Option<String>,
    pub camera_make: Option<String>,
    pub camera_model: Option<String>,
    pub iso: Option<u32>,
    pub aperture: Option<String>,
    pub shutter_speed: Option<String>,
    pub focal_length: Option<String>,
    pub gps_lat: Option<GpsAngle>,
    pub gps_lon: Option<GpsAngle>,
    pub width: Option<u32>,
    pub height: Option<u32>,
}

/// The value of an `ExifData`.
pub struct ExifRecord {
    pub date_taken: Option<Seq<char>>,
    pub camera_make: Option<Seq<char>>,
    pub camera_model: Option<Seq<char>>,
    pub iso: Option<u32>,
    pub aperture: Option<Seq<char>>,
    pub shutter_speed: Option<Seq<char>>,
    pub focal_length: Option<Seq<char>>,
    pub gps_lat: Option<GpsAngle>,
    pub gps_lon: Option<GpsAngle>,
    pub width: Option<u32>,
    pub height: Option<u32>,
}

/// The view of a text that may be absent.
pub open spec fn text_view(text: Option<String>) -> Option<Seq<char>> {
    match text {
        Some(text) => Some(text@),
        None => None,
    }
}

impl View for ExifData {
    type V = ExifRecord;

    open spec fn view(&self) -> ExifRecord {
        ExifRecord {
            date_taken: text_view(self.date_taken),
            camera_make: text_view(self.camera_make),
            camera_model: text_view(self.camera_model),
            iso: self.iso,
            aperture: text_view(self.aperture),
            shutter_speed: text_view(self.shutter_speed),
            focal_length: text_view(self.focal_length),
            gps_lat: self.gps_lat,
            gps_lon: self.gps_lon,
            width: self.width,
            height: self.height,
        }
    }
}

/// The record of a photo without tags: every field absent.
pub open spec fn absent_record() -> ExifRecord {
    ExifRecord {
        date_taken: None,
        camera_make: None,
        camera_model: None,
        iso: None,
        aperture: None,
        shutter_speed: None,
        focal_length: None,
        gps_lat: None,
        gps_lon: None,
        width: None,
        height: None,
    }
}

/// The display form of a field, if the field is there.
pub open spec fn text_of(field: Option<RawFieldView>) -> Option<Seq<char>> {
    match field {
        Some(field) => Some(field.text),
        None => None,
    }
}

/// The first number of a field of 16-bit or 32-bit unsigned integers.
pub open spec fn first_number(field: Option<RawFieldView>) -> Option<u32> {
    match field {
        Some(field) => match field.value {
            FieldNumbers::Short(numbers) => if numbers.len() > 0 {
                Some(numbers[0] as u32)
            } else {
                None
            },
            FieldNumbers::Long(numbers) => if numbers.len() > 0 {
                Some(numbers[0])
            } else {
                None
            },
            _ => None,
        },
        None => None,
    }
}

/// Whether a hemisphere reference names the south or the west.
pub open spec fn is_south_or_west(reference: Seq<char>) -> bool {
    reference.contains('S') || reference.contains('W')
}

/// The angle that a coordinate field and its hemisphere reference give: the
/// first three rationals of the coordinate, negative where the reference
/// names the south or the west. Absent where either field is absent or the
/// coordinate holds fewer than three rationals.
pub open spec fn angle_of(
    coordinate: Option<RawFieldView>,
    reference: Option<RawFieldView>,
) -> Option<GpsAngle> {
    match (coordinate, reference) {
        (Some(coordinate), Some(reference)) => match coordinate.value {
            FieldNumbers::Rational(parts) => if parts.len() >= 3 {
                Some(
                    GpsAngle {
                        degrees: parts[0],
                        minutes: parts[1],
                        seconds: parts[2],
                        negative: is_south_or_west(reference.text),
                    },
                )
            } else {
                None
            },
            _ => None,
        },
        _ => None,
    }
}

/// The fields that the record is made of, each as the container holds it.
#[derive(Debug, PartialEq, Eq)]
pub struct TagReadings {
    pub date_time_original: Option<RawField>,
    pub date_time: Option<RawField>,
    pub make: Option<RawField>,
    pub model: Option<RawField>,
    pub photographic_sensitivity: Option<RawField>,
    pub f_number: Option<RawField>,
    pub exposure_time: Option<RawField>,
    pub focal_length: Option<RawField>,
    pub gps_latitude_ref: Option<RawField>,
    pub gps_latitude: Option<RawField>,
    pub gps_longitude_ref: Option<RawField>,
    pub gps_longitude: Option<RawField>,
    pub pixel_x_dimension: Option<RawField>,
    pub pixel_y_dimension: Option<RawField>,
}

/// The value of a `TagReadings`.
pub struct ReadingsView {
    pub date_time_original: Option<RawFieldView>,
    pub date_time: Option<RawFieldView>,
    pub make: Option<RawFieldView>,
    pub model: Option<RawFieldView>,
    pub photographic_sensitivity: Option<RawFieldView>,
    pub f_number: Option<RawFieldView>,
    pub exposure_time: Option<RawFieldView>,
    pub focal_length: Option<RawFieldView>,
    pub gps_latitude_ref: Option<RawFieldView>,
    pub gps_latitude: Option<RawFieldView>,
    pub gps_longitude_ref: Option<RawFieldView>,
    pub gps_longitude: Option<RawFieldView>,
    pub pixel_x_dimension: Option<RawFieldView>,
    pub pixel_y_dimension: Option<RawFieldView>,
}

impl View for TagReadings {
    type V = ReadingsView;

    open spec fn view(&self) -> ReadingsView {
        ReadingsView {
            date_time_original: field_view(self.date_time_original),
            date_time: field_view(self.date_time),
            make: field_view(self.make),
            model: field_view(self.model),
            photographic_sensitivity: field_view(self.photographic_sensitivity),
            f_number: field_view(self.f_number),
            exposure_time: field_view(self.exposure_time),
            focal_length: field_view(self.focal_length),
            gps_latitude_ref: field_view(self.gps_latitude_ref),
            gps_latitude: field_view(self.gps_latitude),
            gps_longitude_ref: field_view(self.gps_longitude_ref),
            gps_longitude: field_view(self.gps_longitude),
            pixel_x_dimension: field_view(self.pixel_x_dimension),
            pixel_y_dimension: field_view(self.pixel_y_dimension),
        }
    }
}

/// The record that the readings give. The date is the time of the
/// capture, or else the time the file was changed.
pub open spec fn record_of(readings: ReadingsView) -> ExifRecord {
    ExifRecord {
        date_taken: if readings.date_time_original is Some {
            text_of(readings.date_time_original)
        } else {
            text_of(readings.date_time)
        },
        camera_make: text_of(readings.make),
        camera_model: text_of(readings.model),
        iso: first_number(readings.photographic_sensitivity),
        aperture: text_of(readings.f_number),
        shutter_speed: text_of(readings.exposure_time),
        focal_length: text_of(readings.focal_length),
        gps_lat: angle_of(readings.gps_latitude, readings.gps_latitude_ref),
        gps_lon: angle_of(readings.gps_longitude, readings.gps_longitude_ref),
        width: first_number(readings.pixel_x_dimension),
        height: first_number(readings.pixel_y_dimension),
    }
}

/// The display form of a field, if the field is there.
fn text_in(field: Option<RawField>) -> (text: Option<String>)
    ensures
        text_view(text) == text_of(field_view(field)),
{
    match field {
        Some(field) => Some(field.text),
        None => None,
    }
}

/// The first number of a field of 16-bit or 32-bit unsigned integers.
fn number_in(field: &Option<RawField>) -> (number: Option<u32>)
    ensures
        number == first_number(field_view(*field)),
{
    match field {
        Some(field) => match &field.value {
            FieldValue::Short(numbers) => if numbers.len() > 0 {
                Some(numbers[0] as u32)
            } else {
                None
            },
            FieldValue::Long(numbers) => if numbers.len() > 0 {
                Some(numbers[0])
            } else {
                None
            },
            _ => None,
        },
        None => None,
    }
}

/// The angle that a coordinate field and its hemisphere reference give.
pub fn gps_angle(
    coordinate: &Option<RawField>,
    reference: &Option<RawField>,
) -> (angle: Option<GpsAngle>)
    ensures
        angle == angle_of(field_view(*coordinate), field_view(*reference)),
{
    match (coordinate, reference) {
        (Some(coordinate), Some(reference)) => match &coordinate.value {
            FieldValue::Rational(parts) => if parts.len() >= 3 {
                let south = contains_char(reference.text.as_str(), 'S');
                let west = contains_char(reference.text.as_str(), 'W');
                Some(
                    GpsAngle {
                        degrees: parts[0],
                        minutes: parts[1],
                        seconds: parts[2],
                        negative: south || west,
                    },
                )
            } else {
                None
            },
            _ => None,
        },
        _ => None,
    }
}

impl ExifData {
    /// The record of a photo without tags.
    pub fn absent() -> (record: Self)
        ensures
            record@ == absent_record(),
    {
        ExifData {
            date_taken: None,
            camera_make: None,
            camera_model: None,
            iso: None,
            aperture: None,
            shutter_speed: None,
            focal_length: None,
            gps_lat: None,
            gps_lon: None,
            width: None,
            height: None,
        }
    }
}

/// The record that the readings give.
pub fn exif_record(readings: TagReadings) -> (record: ExifData)
    ensures
        record@ == record_of(readings@),
{
    let iso = number_in(&readings.photographic_sensitivity);
    let width = number_in(&readings.pixel_x_dimension);
    let height = number_in(&readings.pixel_y_dimension);
    let gps_lat = gps_angle(&readings.gps_latitude, &readings.gps_latitude_ref);
    let gps_lon = gps_angle(&readings.gps_longitude, &readings.gps_longitude_ref);
    let date_taken = if readings.date_time_original.is_some() {
        text_in(readings.date_time_original)
    } else {
        text_in(readings.date_time)
    };
    ExifData {
        date_taken,
        camera_make: text_in(readings.make),
        camera_model: text_in(readings.model),
        iso,
        aperture: text_in(readings.f_number),
        shutter_speed: text_in(readings.exposure_time),
        focal_length: text_in(readings.focal_length),
        gps_lat,
        gps_lon,
        width,
        height,
    }
}

/// `exif::Exif`, a parsed tag container: carried about, never looked into.
#[verifier::external_type_specification]
#[verifier::external_body]
pub struct ExExif(exif::Exif);

/// Fields by their place in a tag container.
pub type Fields = Map<FieldKey, RawFieldView>;

/// The fields that a parsed tag container holds, each under its key.
pub uninterp spec fn fields_of(container: exif::Exif) -> Map<FieldKey, RawFieldView>;

/// The fields of the tag container embedded in an image file of these bytes;
/// `None` where the bytes hold no container that can be parsed.
pub uninterp spec fn container_fields(data: Seq<u8>) -> Option<Map<FieldKey, RawFieldView>>;

/// Calls `exif::Reader::read_from_container` on the bytes of an image file.
/// It finds the tag container of a TIFF, JPEG, HEIF, PNG or WebP file and
/// parses it; any failure is an `Err`, which is `None` here. What the parse
/// gives depends on the bytes alone; the contract names it.
#[verifier::external_body]
fn parse_container(data: &[u8]) -> (parsed: Option<exif::Exif>)
    ensures
        parsed matches Some(container) ==> container_fields(data@) == Some(fields_of(container)),
        parsed is None ==> container_fields(data@) is None,
{
    exif::Reader::new().read_from_container(&mut std::io::Cursor::new(data)).ok()
}

/// Calls `exif::Exif::get_field` with the tag of this context and number and
/// the image of this number, and hands out the field found: its text is
/// what `exif::Field::display_value` prints for it, its numbers are those of
/// the field's `exif::Value` where that is a `Short`, `Long` or `Rational`.
#[verifier::external_body]
fn lookup(
    container: &exif::Exif,
    context: TagContext,
    number: u16,
    image: u16,
) -> (found: Option<RawField>)
    ensures
        found is Some <==> fields_of(*container).contains_key(key_of(context, number, image)),
        found matches Some(field) ==> field@ == fields_of(*container)[key_of(
            context,
            number,
            image,
        )],
{
    let scope = match context {
        TagContext::Tiff => exif::Context::Tiff,
        TagContext::Exif => exif::Context::Exif,
        TagContext::Gps => exif::Context::Gps,
    };
    let field = container.get_field(exif::Tag(scope, number), exif::In(image))?;
    let value = match field.value {
        exif::Value::Short(ref v) => FieldValue::Short(v.clone()),
        exif::Value::Long(ref v) => FieldValue::Long(v.clone()),
        exif::Value::Rational(ref v) => FieldValue::Rational(
            v.iter().map(|r| Ratio { num: r.num, denom: r.denom }).collect(),
        ),
        _ => FieldValue::Other,
    };
    Some(RawField { text: field.display_value().to_string(), value })
}

/// The field of `fields` under the key of `tag`, if there is one.
pub open spec fn field_at(fields: Fields, tag: ExifTag) -> Option<RawFieldView> {
    if fields.contains_key(tag.key()) {
        Some(fields[tag.key()])
    } else {
        None
    }
}

/// The readings that a container's fields give: for each tag the field of
/// the primary image.
pub open spec fn readings_of(fields: Fields) -> ReadingsView {
    ReadingsView {
        date_time_original: field_at(fields, ExifTag::DateTimeOriginal),
        date_time: field_at(fields, ExifTag::DateTime),
        make: field_at(fields, ExifTag::Make),
        model: field_at(fields, ExifTag::Model),
        photographic_sensitivity: field_at(fields, ExifTag::PhotographicSensitivity),
        f_number: field_at(fields, ExifTag::FNumber),
        exposure_time: field_at(fields, ExifTag::ExposureTime),
        focal_length: field_at(fields, ExifTag::FocalLength),
        gps_latitude_ref: field_at(fields, ExifTag::GpsLatitudeRef),
        gps_latitude: field_at(fields, ExifTag::GpsLatitude),
        gps_longitude_ref: field_at(fields, ExifTag::GpsLongitudeRef),
        gps_longitude: field_at(fields, ExifTag::GpsLongitude),
        pixel_x_dimension: field_at(fields, ExifTag::PixelXDimension),
        pixel_y_dimension: field_at(fields, ExifTag::PixelYDimension),
    }
}

/// The record of an image file of these bytes: that of its container's
/// fields, or the absent record where it has no container that can be
/// parsed.
pub open spec fn extracted(data: Seq<u8>) -> ExifRecord {
    match container_fields(data) {
        Some(fields) => record_of(readings_of(fields)),
        None => absent_record(),
    }
}

/// The field of the primary image under `tag`, if the container has one.
fn read(container: &exif::Exif, tag: ExifTag) -> (found: Option<RawField>)
    ensures
        field_view(found) == field_at(fields_of(*container), tag),
{
    let (context, number) = tag.place();
    lookup(container, context, number, PRIMARY_IMAGE)
}

/// The readings of a parsed container.
fn read_all(container: &exif::Exif) -> (readings: TagReadings)
    ensures
        readings@ == readings_of(fields_of(*container)),
{
    TagReadings {
        date_time_original: read(container, ExifTag::DateTimeOriginal),
        date_time: read(container, ExifTag::DateTime),
        make: read(container, ExifTag::Make),
        model: read(container, ExifTag::Model),
        photographic_sensitivity: read(container, ExifTag::PhotographicSensitivity),
        f_number: read(container, ExifTag::FNumber),
        exposure_time: read(container, ExifTag::ExposureTime),
        focal_length: read(container, ExifTag::FocalLength),
        gps_latitude_ref: read(container, ExifTag::GpsLatitudeRef),
        gps_latitude: read(container, ExifTag::GpsLatitude),
        gps_longitude_ref: read(container, ExifTag::GpsLongitudeRef),
        gps_longitude: read(container, ExifTag::GpsLongitude),
        pixel_x_dimension: read(container, ExifTag::PixelXDimension),
        pixel_y_dimension: read(container, ExifTag::PixelYDimension),
    }
}

/// The readings of an image file of these bytes, if it has a tag container
/// that can be parsed.
pub fn read_tags(data: &[u8]) -> (readings: Option<TagReadings>)
    ensures
        match container_fields(data@) {
            Some(fields) => readings matches Some(found) && found@ == readings_of(fields),
            None => readings is None,
        },
{
    match parse_container(data) {
        Some(container) => Some(read_all(&container)),
        None => None,
    }
}

/// The record of an image file of these bytes. A file without a tag
/// container, or with one that cannot be parsed, has the absent record.
pub fn get_exif_data(data: &[u8]) -> (record: ExifData)
    ensures
        record@ == extracted(data@),
        container_fields(data@) is None ==> record@ == absent_record(),
{
    match read_tags(data) {
        Some(readings) => exif_record(readings),
        None => ExifData::absent(),
    }
}

} // verus!
