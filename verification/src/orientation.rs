use vstd::prelude::*;

verus! {

/// What the EXIF reader finds as the first unsigned integer of the
/// orientation tag of the primary image in the image file `data`; `None` when
/// the file holds no readable EXIF block, no such tag, or a tag without an
/// unsigned integer.
pub uninterp spec fn exif_orientation_entry(data: Seq<u8>) -> Option<u32>;

/// Reads the orientation tag of an image file with kamadak-exif:
/// `Reader::read_from_container` over the bytes, `Exif::get_field(Tag::Orientation,
/// In::PRIMARY)`, then `Value::get_uint(0)` of the field. The contract claims
/// only that the outcome is a function of the bytes, named
/// `exif_orientation_entry`; a failure of any step gives `None`.
#[verifier::external_body]
fn exif_orientation_tag(data: &[u8]) -> (r: Option<u32>)
    ensures
        r == exif_orientation_entry(data@),
{
    let mut cursor = std::io::Cursor::new(data);
    match exif::Reader::new().read_from_container(&mut cursor) {
        Ok(exif) => match exif.get_field(exif::Tag::Orientation, exif::In::PRIMARY) {
            Some(field) => field.value.get_uint(0),
            None => None,
        },
        Err(_) => None,
    }
}

/// The orientation used for an orientation tag: an absent tag means 1
/// (upright), and a present one is clamped to the defined range 1 to 8.
pub open spec fn orientation_value(tag: Option<u32>) -> u32 {
    match tag {
        Some(v) => if v < 1 {
            1
        } else if v > 8 {
            8
        } else {
            v
        },
        None => 1,
    }
}

/// The orientation of an image whose orientation tag reads `tag`.
pub fn orientation_from_tag(tag: Option<u32>) -> (r: u32)
    ensures
        r == orientation_value(tag),
        1 <= r <= 8,
{
    match tag {
        Some(v) => if v < 1 {
            1
        } else if v > 8 {
            8
        } else {
            v
        },
        None => 1,
    }
}

/// The EXIF orientation (1 to 8) of the image file `data`; 1 when the file
/// does not say.
pub fn read_exif_orientation(data: &[u8]) -> (r: u32)
    ensures
        r == orientation_value(exif_orientation_entry(data@)),
        1 <= r <= 8,
{
    orientation_from_tag(exif_orientation_tag(data))
}


/// An orientation tag from 1 to 8 is used as it is; a tag of 0 counts as 1
/// (upright), a tag above 8 as 8, and a missing tag as 1.
pub proof fn law_orientation_tag(v: u32)
    ensures
        1 <= v <= 8 ==> orientation_value(Some(v)) == v,
        v == 0 ==> orientation_value(Some(v)) == 1,
        v > 8 ==> orientation_value(Some(v)) == 8,
        orientation_value(None) == 1,
{
}

} // verus!
