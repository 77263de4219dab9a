use sherlock::colors::ColorConverter;
use sherlock::number::float_literal;

#[test]
fn hex_colours_read_as_channels() {
    assert_eq!(ColorConverter::hex_to_rgb("#1e90ff"), Some((30, 144, 255)));
    assert_eq!(ColorConverter::hex_to_rgb("abc"), Some((170, 187, 204)));
    assert_eq!(ColorConverter::hex_to_rgb("##fff"), Some((255, 255, 255)));
    assert_eq!(ColorConverter::hex_to_rgb("#12345"), None);
    assert_eq!(ColorConverter::hex_to_rgb("#gg0000"), None);
    assert_eq!(ColorConverter::hex_to_rgb(""), None);
    // from_str_radix takes a leading plus sign
    assert_eq!(ColorConverter::hex_to_rgb("#+f+f+f"), Some((15, 15, 15)));
    // six bytes that are three two-byte characters
    assert_eq!(ColorConverter::hex_to_rgb("#ééé"), None);
}

fn chars(s: &str) -> Vec<char> {
    s.chars().collect()
}

#[test]
fn float_literals_follow_std() {
    for s in [
        "1", "1.", ".5", "-2.5e10", "+3E-2", "inf", "-Infinity", "NaN", "0.000", "1e5", "007",
        "", ".", "e5", "1e", "1e+", "1.2.3", "1,0", " 1", "infinite", "--1", "0x10", "1_0",
    ] {
        assert_eq!(float_literal(&chars(s)), s.parse::<f64>().is_ok(), "{s:?}");
        assert_eq!(float_literal(&chars(s)), s.parse::<f32>().is_ok(), "{s:?}");
    }
}

#[test]
fn short_hex_is_doubled_digits() {
    for (short, long) in [("#abc", "#aabbcc"), ("#0f8", "#00ff88"), ("#FFF", "#FFFFFF")] {
        assert_eq!(ColorConverter::hex_to_rgb(short), ColorConverter::hex_to_rgb(long));
        assert!(ColorConverter::hex_to_rgb(short).is_some());
    }
}
