use sherlock::intent::{Capabilities, Intent};
use sherlock::translation::Language;
use sherlock::websearch::is_url;

#[test]
fn capabilities_from_names() {
    let caps = Capabilities::from_strings(&["colors".to_string(), "calc.math".to_string()]);
    assert_eq!(caps.0, Capabilities::COLORS | Capabilities::MATH);
    assert!(caps.allows(Capabilities::COLORS));
    assert!(!caps.allows(Capabilities::CURRENCY));
    let units = Capabilities::from_strings(&["calc.units".to_string(), "bogus".to_string()]);
    assert!(units.allows(Capabilities::LENGTH));
    assert!(units.allows(Capabilities::SPEED));
    assert!(!units.allows(Capabilities::MATH));
    assert_eq!(Capabilities::from_strings(&[]).0, Capabilities::NONE);
    let each = Capabilities::from_strings(&["calc.time".to_string(), "calc.currencies".to_string()]);
    assert_eq!(each.0, Capabilities::TIME | Capabilities::CURRENCY);
}

#[test]
fn tokenize_cuts_at_separators() {
    assert_eq!(Intent::tokenize("rgb(255, 0, 0) to hex"), vec!["rgb", "255", "0", "0", "to", "hex"]);
    assert_eq!(Intent::tokenize("   50m   to   ft  "), vec!["50m", "to", "ft"]);
    assert_eq!(Intent::tokenize("50% off"), vec!["50", "off"]);
    assert!(Intent::tokenize(" ,() ").is_empty());
}

#[test]
fn tokenize_kill_noise_drops_filler_words() {
    assert_eq!(
        Intent::tokenize_kill_noise("How much is 500 miles in km"),
        vec!["500", "miles", "in", "km"]
    );
    assert_eq!(Intent::tokenize_kill_noise("CONVERT 100 kg to lbs"), vec!["100", "kg", "to", "lbs"]);
    assert_eq!(Intent::tokenize_kill_noise("what are these"), vec!["these"]);
}

fn unit(name: &str) -> sherlock::units::Unit {
    let caps = Capabilities(Capabilities::EVERYTHING);
    sherlock::units::Unit::parse_with_capabilities(name, &caps).unwrap()
}

fn expect_conversion(input: &str, value: f64, from: &str, to: &str) {
    let caps = Capabilities(Capabilities::EVERYTHING);
    match Intent::parse(input, &caps) {
        Intent::Conversion { value: v, from: f, to: t } => {
            assert_eq!(v.parse::<f64>().unwrap(), value, "value of {input}");
            assert_eq!(f, unit(from), "from of {input}");
            assert_eq!(t, unit(to), "to of {input}");
        }
        other => panic!("Failed on input: '{input}', got {other:?}"),
    }
}

fn numbers(values: &[String]) -> Vec<f32> {
    values.iter().map(|v| v.parse::<f32>().unwrap()).collect()
}

fn expect_color(input: &str, from: &str, values: &[f32], to: &str) {
    let caps = Capabilities(Capabilities::EVERYTHING);
    match Intent::parse(input, &caps) {
        Intent::ColorConvert { from_space, values: v, to_space } => {
            assert_eq!(from_space, from, "space of {input}");
            assert_eq!(numbers(&v), values.to_vec(), "values of {input}");
            assert_eq!(to_space, to, "target of {input}");
        }
        other => panic!("Failed on input: '{input}', got {other:?}"),
    }
}

#[test]
fn test_intents() {
    // --- Basic Units ---
    expect_conversion("50 meters to feet", 50.0, "meters", "feet");
    expect_conversion("50m in yards", 50.0, "m", "yards");
    expect_conversion("10.5 eur as usd", 10.5, "eur", "usd");
    expect_conversion("convert 100 kg to lbs", 100.0, "kg", "lbs");
    expect_conversion("how much is 500 miles in km", 500.0, "miles", "km");
    expect_conversion("what is 1.5 atmospheres in psi", 1.5, "atmospheres", "psi");
    // --- No-Space & Unit Variations ---
    expect_conversion("32c to f", 32.0, "c", "f");
    expect_conversion("100km to miles", 100.0, "km", "miles");
    expect_conversion("0.5in as cm", 0.5, "in", "cm");
    // --- Colors ---
    expect_color("rgb(255, 0, 0) to hex", "rgb", &[255.0, 0.0, 0.0], "hex");
    expect_color("hsl(360, 100%, 50%) in rgb", "hsl", &[360.0, 100.0, 50.0], "rgb");
    // Lazy color entry
    expect_color("#ff0000 in rgb", "hex", &[255.0, 0., 0.], "rgb");
    expect_color("rgb 255 255 255 as hsl", "rgb", &[255.0, 255.0, 255.0], "hsl");
    // --- Messy Input ---
    expect_conversion("   50m   to   ft  ", 50.0, "m", "ft");
    let caps = Capabilities(Capabilities::EVERYTHING);
    assert_eq!(Intent::parse("Convert 1,000 to hex", &caps), Intent::NoIntent);
    assert_eq!(Intent::parse("50.0.0 to m", &caps), Intent::NoIntent);
    // --- Fallbacks ---
    assert_eq!(Intent::parse("firefox", &caps), Intent::NoIntent);
    assert_eq!(
        Intent::parse("google.com", &caps),
        Intent::Url { url: "google.com".to_string() }
    );
    assert_eq!(Intent::parse("show me the weather", &caps), Intent::NoIntent);
    // --- Translations ---
    assert_eq!(
        Intent::parse("something to german", &caps),
        Intent::Translation { text: "something".to_string(), target_lang: Language::German }
    );
    assert_eq!(
        Intent::parse("what is something to german", &caps),
        Intent::Translation { text: "what is something".to_string(), target_lang: Language::German }
    );
}

#[test]
fn translation_splits_at_the_last_connector() {
    assert_eq!(
        Intent::try_parse_translation("go to the park in  French "),
        Some(Intent::Translation { text: "go to the park".to_string(), target_lang: Language::French })
    );
    assert_eq!(
        Intent::try_parse_translation("hello in spanish to GERMAN"),
        Some(Intent::Translation { text: "hello in spanish".to_string(), target_lang: Language::German })
    );
    // nothing before or after the connector, or an unknown language
    assert_eq!(Intent::try_parse_translation(" to german"), None);
    assert_eq!(Intent::try_parse_translation("hello to   "), None);
    assert_eq!(Intent::try_parse_translation("hello to klingon"), None);
    assert_eq!(Intent::try_parse_translation("hello"), None);
}

#[test]
fn languages_by_name_in_any_case() {
    assert_eq!(Language::from_str("german"), Some(Language::German));
    assert_eq!(Language::from_str("JaPaNeSe"), Some(Language::Japanese));
    assert_eq!(Language::from_str("hex"), None);
    assert_eq!(Language::from_str(""), None);
}

#[test]
fn web_addresses() {
    assert!(is_url("google.com"));
    assert!(is_url("https://localhost/x"));
    assert!(is_url("http://a"));
    assert!(is_url("sub.example.org/path?q=1"));
    assert!(!is_url("firefox"));
    assert!(!is_url("3.14"));
    assert!(!is_url(".com"));
    assert!(!is_url("google.c"));
    assert!(!is_url("google .com"));
    assert!(!is_url("https:///x"));
    assert!(!is_url(""));
    let caps = Capabilities(Capabilities::EVERYTHING);
    assert_eq!(
        Intent::parse("  https://example.com  ", &caps),
        Intent::Url { url: "https://example.com".to_string() }
    );
}

#[test]
fn color_display_without_target() {
    let caps = Capabilities(Capabilities::EVERYTHING);
    match Intent::parse("#abc", &caps) {
        Intent::ColorDisplay { from_space, values } => {
            assert_eq!(from_space, "hex");
            assert_eq!(numbers(&values), vec![170.0, 187.0, 204.0]);
        }
        other => panic!("got {other:?}"),
    }
    // an unknown target notation leaves the colour to be shown as it is
    assert!(matches!(Intent::parse("rgb 1 2 3 to cmyk", &caps), Intent::ColorDisplay { .. }));
    // words that are no numbers are skipped
    match Intent::parse("hsv 10 x 20 30", &caps) {
        Intent::ColorDisplay { values, .. } => assert_eq!(values, vec!["10", "20", "30"]),
        other => panic!("got {other:?}"),
    }
    // a notation with no numbers is no colour
    assert_eq!(Intent::parse("rgb to hex", &caps), Intent::NoIntent);
}

#[test]
fn colors_need_their_capability() {
    let caps = Capabilities(Capabilities::LENGTH);
    assert_eq!(Intent::parse("#ff0000 in rgb", &caps), Intent::NoIntent);
    assert!(Intent::parse("#ff0000", &Capabilities(Capabilities::EVERYTHING)).is_some());
    assert!(!Intent::NoIntent.is_some());
}

#[test]
fn currency_symbol_before_amount() {
    let caps = Capabilities(Capabilities::EVERYTHING);
    match Intent::parse("$100 to eur", &caps) {
        Intent::Conversion { value, from, to } => {
            assert_eq!(value, "100");
            assert_eq!(from, unit("$"));
            assert_eq!(to, unit("eur"));
        }
        other => panic!("got {other:?}"),
    }
    // the target must measure the same kind of thing
    assert_eq!(Intent::parse("5 kg to km", &caps), Intent::NoIntent);
    // no connector, or nothing after it
    assert_eq!(Intent::parse("5 kg", &caps), Intent::NoIntent);
    assert_eq!(Intent::parse("5 kg to", &caps), Intent::NoIntent);
    assert_eq!(Intent::parse("   ", &caps), Intent::NoIntent);
}
