use palette::{FromColor, Oklch, Srgb};
use sparrow::engine::colour::{splits_as_hex, Colour};
use sparrow::error::Error;
use sparrow::ui::routes::format_colour;

fn colour(red: u8, green: u8, blue: u8) -> Colour {
    Colour { red, green, blue }
}

#[test]
fn reads_six_digits() {
    assert_eq!(Colour::from_str("#00ff7f").unwrap(), colour(0, 255, 127));
    assert_eq!(Colour::from_str("00ff7f").unwrap(), colour(0, 255, 127));
    assert_eq!(Colour::from_str("#FFffFf").unwrap(), colour(255, 255, 255));
    assert_eq!(Colour::from_str("#1a2B3c").unwrap(), colour(0x1a, 0x2b, 0x3c));
}

#[test]
fn reads_three_digits() {
    assert_eq!(Colour::from_str("#abc").unwrap(), colour(0xaa, 0xbb, 0xcc));
    assert_eq!(Colour::from_str("09f").unwrap(), colour(0, 0x99, 0xff));
}

#[test]
fn reads_a_plus_sign_as_a_leading_digit() {
    assert!(splits_as_hex("#+f0a+1"));
    assert_eq!(Colour::from_str("#+f0a+1").unwrap(), colour(15, 10, 1));
    assert!(matches!(Colour::from_str("+ff"), Err(Error::InvalidColour(_))));
    assert!(matches!(Colour::from_str("f+00ff"), Err(Error::InvalidColour(_))));
    assert!(matches!(Colour::from_str("++00ff"), Err(Error::InvalidColour(_))));
}

#[test]
fn refuses_what_is_no_colour() {
    for text in ["", "#", "#ff", "#ffff", "#fffff", "#fffffff", "##ffffff", "#gggggg", "#ff ff0"] {
        assert!(splits_as_hex(text), "{text}");
        assert!(matches!(Colour::from_str(text), Err(Error::InvalidColour(_))), "{text}");
    }
    for text in ["-10000", "#00-100", "red", "#zzz"] {
        assert!(splits_as_hex(text), "{text}");
        assert!(matches!(Colour::from_str(text), Err(Error::InvalidColour(_))), "{text}");
    }
}

#[test]
fn says_why_a_text_is_no_colour() {
    let formats =
        "invalid hex code format, please use format '#fff', 'fff', '#ffffff', 'ffffff', etc.";
    for text in ["", "#", "#ffff", "blue green"] {
        assert_eq!(Colour::from_str(text).unwrap_err().message(), formats);
    }
    let digit = u8::from_str_radix("zz", 16).unwrap_err().to_string();
    for text in ["#zzz", "zzzzzz", "#00zz00", "+++"] {
        assert_eq!(Colour::from_str(text).unwrap_err().message(), digit);
    }
}

#[test]
fn tells_where_a_character_is_cut() {
    // Two bytes and one, and one and two.
    assert!(!splits_as_hex("éa"));
    assert!(splits_as_hex("zé"));
    assert!(!splits_as_hex("1é"));
    // Three bytes each.
    assert!(!splits_as_hex("#€€"));
    // Cut between characters.
    assert!(splits_as_hex("#ééé"));
    assert!(splits_as_hex("zz0é0"));
    assert!(!splits_as_hex("000é0"));
    assert!(splits_as_hex("0000é"));
    for text in ["zé", "#ééé", "zz0é0", "0000é"] {
        assert!(matches!(Colour::from_str(text), Err(Error::InvalidColour(_))), "{text}");
    }
}

#[test]
fn writes_and_reads_back() {
    assert_eq!(Colour::black().to_string(), "#000000");
    assert_eq!(colour(0, 255, 127).to_string(), "#00ff7f");
    assert_eq!(format_colour(&colour(0x1a, 0x2b, 0x3c)), "#1a2b3c");
    for n in 0..=255u8 {
        let c = colour(n, 255 - n, n / 2);
        assert_eq!(Colour::from_str(&c.to_string()).unwrap(), c);
    }
}

#[test]
fn agrees_with_palette_on_every_text_of_its_kind() {
    let digits = ["0", "9", "a", "F", "g", "+", "-", " ", "#"];
    for a in digits {
        for b in digits {
            for c in digits {
                let short = format!("{a}{b}{c}");
                let long = format!("{a}{b}{c}{a}{b}{c}");
                for text in [short, long] {
                    let ours = Colour::from_str(&text);
                    let theirs: Result<Srgb<u8>, _> = text.parse();
                    match (ours, theirs) {
                        (Ok(a), Ok(b)) => assert_eq!(a, colour(b.red, b.green, b.blue)),
                        (Err(Error::InvalidColour(a)), Err(b)) => assert_eq!(a, b.to_string()),
                        (ours, _) => panic!("{text}: {ours:?}"),
                    }
                }
            }
        }
    }
}

#[test]
fn bytes_survive_the_perceptual_space() {
    let mut n: u32 = 0;
    while n < 1 << 24 {
        let before = Srgb::new((n >> 16) as u8, (n >> 8) as u8, n as u8);
        let there = Oklch::from_color(before.into_format::<f32>());
        let back: Srgb<u8> = Srgb::from_color(there).into_format();
        assert_eq!(before, back);
        n += 997;
    }
}

#[test]
fn black_is_dark_in_the_perceptual_space() {
    let black: Oklch<f32> = Oklch::new(0.0, 0.0, 0.0);
    let srgb: Srgb<u8> = Srgb::from_color(black).into_format();
    assert_eq!((srgb.red, srgb.green, srgb.blue), (0, 0, 0));
    assert_eq!(Colour::black(), colour(0, 0, 0));
}
