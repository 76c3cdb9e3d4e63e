use truss::backend::cursor::{cursor_icon_candidates, load_cursor_image, pick_nearest_image, CursorImage};
use truss::backend::drm::{card_nodes, is_card_node, plan_outputs, ConnectorProbe};

fn names(v: &[&str]) -> Vec<String> {
    v.iter().map(|s| s.to_string()).collect()
}

#[test]
fn card_node_names_are_card_and_digits() {
    assert!(is_card_node("card0"));
    assert!(is_card_node("card12"));
    assert!(!is_card_node("card"));
    assert!(!is_card_node("renderD128"));
    assert!(!is_card_node("card1a"));
    assert!(!is_card_node("by-path"));
    // Unicode numeric characters count as digits, as `char::is_numeric` says.
    assert!(is_card_node("card\u{0663}"));
}

#[test]
fn card_nodes_are_filtered_and_sorted() {
    let found = card_nodes(&names(&["renderD128", "card10", "card1", "by-path", "card0", "card"]));
    assert_eq!(found, names(&["card0", "card1", "card10"]));
    assert!(card_nodes(&names(&["renderD129"])).is_empty());
}

fn probe(connected: bool, preferred: &[bool], encoders: &[&[u32]]) -> ConnectorProbe {
    ConnectorProbe {
        connected,
        preferred_modes: preferred.to_vec(),
        encoder_crtcs: encoders.iter().map(|e| e.to_vec()).collect(),
    }
}

#[test]
fn outputs_get_preferred_modes_and_distinct_crtcs() {
    let crtcs = vec![40, 41, 42];
    let probes = vec![
        probe(true, &[false, true, true], &[&[41, 42]]),
        probe(false, &[true], &[&[40]]),
        probe(true, &[false, false], &[&[41]]),
        probe(true, &[], &[&[40]]),
        probe(true, &[true], &[&[41], &[42]]),
        probe(true, &[true], &[]),
    ];
    let plan = plan_outputs(&crtcs, &probes);
    assert_eq!(
        plan,
        vec![
            Some((1, 41)),
            None,
            // its encoder's only CRTC is taken: the first free CRTC of the card is used
            Some((0, 40)),
            None,
            Some((0, 42)),
            // every CRTC is taken now
            None,
        ]
    );
}

/// An Xcursor file holding one 4x4 image of nominal size 4, hotspot (1, 1).
fn one_image_file() -> Vec<u8> {
    let mut v: Vec<u8> = Vec::new();
    let words: [u32; 13] = [
        0x7275_6358, // "Xcur"
        16,          // header size
        0x0001_0000, // version
        1,           // entries in the table of contents
        0xfffd_0002, // image entry
        4,           // nominal size
        28,          // position of the image
        36,          // image header size
        0xfffd_0002, // image type
        4,           // nominal size
        1,           // image version
        4,           // width
        4,           // height
    ];
    for w in words {
        v.extend_from_slice(&w.to_le_bytes());
    }
    for w in [1u32, 1, 1] {
        // hotspot x, hotspot y, delay
        v.extend_from_slice(&w.to_le_bytes());
    }
    for _ in 0..16 {
        v.extend_from_slice(&[0, 0, 0, 128]);
    }
    v
}

#[test]
fn cursor_file_images_are_read() {
    let img = load_cursor_image(&one_image_file(), 24).expect("one image");
    assert_eq!((img.size, img.width, img.height, img.xhot, img.yhot, img.delay), (4, 4, 4, 1, 1, 1));
    assert_eq!(img.pixels_rgba.len(), 64);
    assert_eq!(&img.pixels_rgba[0..4], &[0, 0, 0, 128]);
    assert!(load_cursor_image(b"not a cursor", 24).is_none());
}

fn image(size: u32) -> CursorImage {
    CursorImage { size, width: 1, height: 1, xhot: 0, yhot: 0, delay: 0, pixels_rgba: vec![size as u8; 4] }
}

#[test]
fn nearest_cursor_size_wins_first_among_ties() {
    let picked = pick_nearest_image(vec![image(32), image(24), image(48), image(28)], 26).unwrap();
    assert_eq!(picked.size, 24);
    let picked = pick_nearest_image(vec![image(16), image(64)], 200).unwrap();
    assert_eq!(picked.size, 64);
    assert!(pick_nearest_image(Vec::new(), 24).is_none());
}

#[test]
fn cursor_names_have_theme_aliases() {
    assert_eq!(cursor_icon_candidates("default"), vec!["default", "left_ptr", "arrow"]);
    assert_eq!(cursor_icon_candidates("grabbing"), vec!["grabbing", "closedhand"]);
    assert_eq!(cursor_icon_candidates("wait"), vec!["wait"]);
}
