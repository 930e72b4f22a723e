use sparrow::error::Error;
use sparrow::text::{comes_before, same_text};

#[test]
fn names_are_ordered_as_strings_are() {
    let names = ["", "a", "A", "ab", "b", "é", "zz", "a\u{0}", "日本", "🦜"];
    for a in names {
        for b in names {
            assert_eq!(comes_before(a, b), a < b, "{a} {b}");
            assert_eq!(same_text(a, b), a == b, "{a} {b}");
        }
    }
}

#[test]
fn errors_have_texts() {
    assert_eq!(Error::DeviceNotFound("mic".to_string()).message(), "device not found: mic");
    assert_eq!(Error::GradientMissing.message(), "gradient does not exist");
    assert_eq!(Error::GradientExists.message(), "gradient already exists");
    assert_eq!(Error::ColourIndex.message(), "invalid colour index");
    assert_eq!(Error::ColourPosition.message(), "invalid colour position");
    assert_eq!(Error::IndexOutOfRange.message(), "index out of range");
    assert_eq!(Error::PositionOutOfRange.message(), "position out of range");
    assert_eq!(Error::InvalidColour("no colour".to_string()).message(), "no colour");
    assert_eq!(Error::Device("no such stream".to_string()).message(), "no such stream");
}
