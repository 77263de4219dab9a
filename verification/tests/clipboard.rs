use sherlock::clipboard::{hsl_numbers, tile_from_captures};
use sherlock::clipboard::{
    clipboard_tile, normalize_newlines, pick_text_mime, rgb_from_channels, rgb_from_hex,
    ClipboardAction, ClipboardEvent, ClipboardOffers, ClipboardTile,
};

#[test]
fn pick_text_mime_takes_first_text_type() {
    let m = vec!["image/png".to_string(), "UTF8_STRING".to_string(), "text/plain".to_string()];
    assert_eq!(pick_text_mime(&m), Some(1));
    let m = vec!["image/png".to_string(), "text/html".to_string()];
    assert_eq!(pick_text_mime(&m), Some(1));
    let m = vec!["image/png".to_string(), "tex".to_string()];
    assert_eq!(pick_text_mime(&m), None);
}

#[test]
fn newlines_are_normalized() {
    assert_eq!(normalize_newlines("a\r\nb\r\n"), "a\nb\n");
    assert_eq!(normalize_newlines("a\rb\n"), "a\rb\n");
}

#[test]
fn offers_are_tracked_until_selected() {
    let mut o = ClipboardOffers::new();
    assert!(matches!(o.on_event(ClipboardEvent::DataOffer(1)), ClipboardAction::Nothing));
    o.on_event(ClipboardEvent::Offer { id: 1, mime: "image/png".into() });
    o.on_event(ClipboardEvent::Offer { id: 1, mime: "text/plain".into() });
    o.on_event(ClipboardEvent::DataOffer(2));
    assert_eq!(o.offers.len(), 2);
    match o.on_event(ClipboardEvent::Selection(Some(1))) {
        ClipboardAction::Receive { id, mime } => {
            assert_eq!(id, 1);
            assert_eq!(mime, "text/plain");
        }
        _ => panic!("expected a read"),
    }
    assert_eq!(o.offers.len(), 1);
    assert!(matches!(o.on_event(ClipboardEvent::Selection(None)), ClipboardAction::Clear));
    assert!(matches!(o.on_event(ClipboardEvent::Selection(Some(9))), ClipboardAction::Nothing));
    assert!(o.offers.is_empty());
}

#[test]
fn rgb_channels_parse() {
    assert_eq!(rgb_from_channels("255, 0 ,12"), (255, 0, 12));
    assert_eq!(rgb_from_channels("255,0"), (0, 0, 0));
    assert_eq!(rgb_from_channels("256,0,0"), (0, 0, 0));
    assert_eq!(rgb_from_channels("1,x,2,3"), (1, 2, 3));
}

#[test]
fn rgb_hex_parse() {
    assert_eq!(rgb_from_hex("ff8000"), (255, 128, 0));
    assert_eq!(rgb_from_hex("FF800080"), (255, 128, 0));
    assert_eq!(rgb_from_hex("ff80"), (0, 0, 0));
    assert_eq!(rgb_from_hex("gg0000"), (0, 0, 0));
}

#[test]
fn clipboard_links_get_known_icons() {
    match clipboard_tile("https://www.youtube.com/watch", None) {
        ClipboardTile::Link { icon, title } => {
            assert_eq!(icon, "sherlock-youtube");
            assert_eq!(title, "https://www.youtube.com/watch");
        }
        _ => panic!("expected a link"),
    }
    match clipboard_tile("example.org", None) {
        ClipboardTile::Link { icon, .. } => assert_eq!(icon, "sherlock-link"),
        _ => panic!("expected a link"),
    }
}

#[test]
fn clipboard_colors_are_recognized() {
    match clipboard_tile("rgb(255, 0, 0)", None) {
        ClipboardTile::Color { color, label } => {
            assert_eq!(color, (255, 0, 0));
            assert_eq!(label, "rbg(255, 0, 0)");
        }
        _ => panic!("expected a colour"),
    }
    match clipboard_tile("#00ff80", None) {
        ClipboardTile::Color { color, label } => {
            assert_eq!(color, (0, 255, 128));
            assert_eq!(label, "#00ff80");
        }
        _ => panic!("expected a colour"),
    }
    match clipboard_tile("hsl(120, 50%, 50%)", None) {
        ClipboardTile::Hsl { channels, label } => {
            assert_eq!(channels, "120, 50%, 50%");
            assert_eq!(label, "hls(120, 50%, 50%)");
        }
        _ => panic!("expected an hsl colour"),
    }
}

#[test]
fn clipboard_falls_back_to_calculator() {
    assert!(matches!(clipboard_tile("2 + 2", None), ClipboardTile::Calculator));
    assert!(matches!(clipboard_tile("", None), ClipboardTile::Nothing));
    let caps = Some(vec!["url".to_string()]);
    assert!(matches!(clipboard_tile("2 + 2", caps), ClipboardTile::Nothing));
    let caps = Some(vec!["colors.hex".to_string()]);
    assert!(matches!(clipboard_tile("rgb(1,2,3)", caps), ClipboardTile::Nothing));
}

#[test]
fn hsl_channel_text_reads_as_numbers() {
    assert_eq!(hsl_numbers("120, 50%, 40%"), vec![120, 50, 40]);
    // white space does not end a number; a last number with nothing after it is left out
    assert_eq!(hsl_numbers("1 2,3"), vec![12]);
    assert!(hsl_numbers("").is_empty());
    assert_eq!(hsl_numbers("(7)"), vec![7]);
}

fn groups(gs: &[Option<&str>]) -> Option<Vec<Option<String>>> {
    Some(gs.iter().map(|g| g.map(|s| s.to_string())).collect())
}

#[test]
fn tiles_follow_the_captured_groups() {
    let caps: Vec<String> = ["url", "colors.all", "calc.math"].iter().map(|s| s.to_string()).collect();
    let url = groups(&[Some("example.org"), None, None, Some("example"), Some("org"), None]);
    match tile_from_captures(" example.org ", &caps, url, None) {
        ClipboardTile::Link { icon, title } => {
            assert_eq!(icon, "sherlock-link");
            assert_eq!(title, "example.org");
        }
        other => panic!("got {other:?}"),
    }
    let rgb = groups(&[Some("rgb(1, 2, 3)"), Some("rgb"), Some("1, 2, 3"), None, None]);
    match tile_from_captures("rgb(1, 2, 3)", &caps, None, rgb) {
        ClipboardTile::Color { color, label } => {
            assert_eq!(color, (1, 2, 3));
            assert_eq!(label, "rbg(1, 2, 3)");
        }
        other => panic!("got {other:?}"),
    }
    let hsl = groups(&[Some("10, 20%, 30%"), None, None, Some("10, 20%, 30%"), None]);
    assert!(matches!(tile_from_captures("10, 20%, 30%", &caps, None, hsl), ClipboardTile::Hsl { .. }));
    let hex = groups(&[Some("#102030"), None, None, None, Some("102030")]);
    match tile_from_captures("#102030", &caps, None, hex) {
        ClipboardTile::Color { color, label } => {
            assert_eq!(color, (16, 32, 48));
            assert_eq!(label, "#102030");
        }
        other => panic!("got {other:?}"),
    }
    // nothing captured: the calculator, when allowed
    assert!(matches!(tile_from_captures("1+1", &caps, None, None), ClipboardTile::Calculator));
    assert!(matches!(tile_from_captures("", &caps, None, None), ClipboardTile::Nothing));
    // a link needs its capability
    let only_calc = vec!["calc.math".to_string()];
    let url = groups(&[Some("a.io"), None, None, Some("a"), Some("io"), None]);
    assert!(matches!(tile_from_captures("a.io", &only_calc, url, None), ClipboardTile::Calculator));
}
