use sherlock::intent::Capabilities;
use sherlock::units::{Unit, UnitCategory};

fn every() -> Capabilities {
    Capabilities(Capabilities::EVERYTHING)
}

#[test]
fn units_of_the_documented_queries() {
    let caps = every();
    let cases = [
        ("meters", Unit::Meter),
        ("feet", Unit::Feet),
        ("m", Unit::Meter),
        ("yards", Unit::Yard),
        ("eur", Unit::Eur),
        ("usd", Unit::Usd),
        ("kg", Unit::Kilogram),
        ("lbs", Unit::Pound),
        ("miles", Unit::Mile),
        ("km", Unit::Kilometer),
        ("atmospheres", Unit::Atmosphere),
        ("psi", Unit::Psi),
        ("c", Unit::Celsius),
        ("f", Unit::Fahrenheit),
        ("in", Unit::Inch),
        ("cm", Unit::Centimeter),
        ("ft", Unit::Feet),
    ];
    for (name, unit) in cases {
        assert_eq!(Unit::parse_with_capabilities(name, &caps), Some(unit), "{name}");
    }
}

#[test]
fn first_unit_in_order_wins() {
    let caps = every();
    assert_eq!(Unit::parse_with_capabilities("ms", &caps), Some(Unit::Milliseconds));
    assert_eq!(Unit::parse_with_capabilities("kb", &caps), Some(Unit::Kilobit));
    assert_eq!(Unit::parse_with_capabilities("  KG ", &caps), Some(Unit::Kilogram));
    assert_eq!(Unit::parse_with_capabilities("\u{20ac}", &caps), Some(Unit::Eur));
}

#[test]
fn prefixes_need_three_bytes() {
    let caps = every();
    assert_eq!(Unit::parse_with_capabilities("kilom", &caps), Some(Unit::Kilometer));
    assert_eq!(Unit::parse_with_capabilities("ki", &caps), None);
    assert_eq!(Unit::parse_with_capabilities("", &caps), None);
    assert_eq!(Unit::parse_with_capabilities("zzz", &caps), None);
}

#[test]
fn capabilities_limit_units() {
    let time = Capabilities(Capabilities::TIME);
    assert_eq!(Unit::parse_with_capabilities("m", &time), None);
    assert_eq!(Unit::parse_with_capabilities("ms", &time), Some(Unit::Milliseconds));
    let speed = Capabilities(Capabilities::SPEED);
    assert_eq!(Unit::parse_with_capabilities("ms", &speed), Some(Unit::MetersPerSecond));
}

#[test]
fn parse_in_category_matches_prefixes() {
    assert_eq!(Unit::parse_in_category("mi", UnitCategory::Length), Some(Unit::Mile));
    assert_eq!(Unit::parse_in_category("fee", UnitCategory::Length), Some(Unit::Feet));
    assert_eq!(Unit::parse_in_category("k", UnitCategory::Length), None);
    assert_eq!(Unit::parse_in_category(" LBS", UnitCategory::Weight), Some(Unit::Pound));
    assert_eq!(Unit::parse_in_category("kg", UnitCategory::Length), None);
}

#[test]
fn unit_symbols_and_categories() {
    assert_eq!(Unit::Celsius.symbol(), "\u{b0}C");
    assert_eq!(Unit::NauticalMile.symbol(), "nmi");
    assert_eq!(Unit::Gigabyte.category(), UnitCategory::Digital);
    assert_eq!(UnitCategory::Speed.capability_mask(), Capabilities::SPEED);
    assert_eq!(UnitCategory::Math.capability_mask(), Capabilities::MATH);
    assert!(Unit::Pound.aliases().contains(&"lbs"));
}
