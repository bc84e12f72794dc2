use badge_canvas::canvas::{PixelBuf, Rgba};
use badge_canvas::models::{AvatarProfileCard, BadgeInfo, LayoutEntry};
use badge_canvas::background::{generate_grid_background, tile_background};
use badge_canvas::hexcolor::resolve_colors;
use badge_canvas::position::{parse_layout_entries, parse_layout_markup, resolve_position};
use badge_canvas::run::{plan_output, RunError};
use badge_canvas::sched::{next_action, resolve_concurrency, Gate, SchedAction};
use badge_canvas::encode::{choose_format, OutputFormat};

fn badge(creator_id: i64, idx: i64, xloc: i64, yloc: i64) -> BadgeInfo {
    BadgeInfo {
        name: "badge".to_string(),
        creator_id,
        image_url: "http://example.invalid/badge.png".to_string(),
        xloc,
        yloc,
        image_width: 40,
        image_height: 40,
        creator_badge_index: idx,
    }
}

#[test]
fn id_string_plain() {
    assert_eq!(badge(123, 4, 0, 0).to_id_string(), "badge-123-4");
    assert_eq!(badge(0, 0, 0, 0).to_id_string(), "badge-0-0");
}

#[test]
fn id_string_negative() {
    assert_eq!(badge(-5, 17, 0, 0).to_id_string(), "badge--5-17");
    assert_eq!(
        badge(i64::MIN, i64::MAX, 0, 0).to_id_string(),
        "badge--9223372036854775808-9223372036854775807"
    );
}

#[test]
fn offset_location_wraps_tall_layouts() {
    // yloc at least the canvas height folds by modulo into one row.
    assert_eq!(badge(1, 1, 30, 250).to_offset_location(), (30, 50));
    assert_eq!(badge(1, 1, 7, 100).to_offset_location(), (7, 0));
    assert_eq!(badge(1, 1, 7, 399).to_offset_location(), (7, 99));
}

#[test]
fn offset_location_in_range() {
    assert_eq!(badge(1, 1, 0, 99).to_offset_location(), (0, 99));
    let (_, y) = badge(1, 1, 0, -1).to_offset_location();
    assert!(y >= 0 && y < 100);
    let (_, y) = badge(1, 1, 0, i64::MIN).to_offset_location();
    assert!(y >= 0 && y < 100);
}

#[test]
fn accent_color_light_darkens_gridlines() {
    // 0xEC = 236; luminance 236 >= 128, so each channel drops by 30.
    let (accent, line) = resolve_colors("ececec");
    assert_eq!(accent, Rgba { r: 0xEC, g: 0xEC, b: 0xEC, a: 0xFF });
    assert_eq!(line, Rgba { r: 206, g: 206, b: 206, a: 0xFF });
}

#[test]
fn accent_color_dark_lightens_gridlines() {
    // 0x20 = 32; luminance 32 < 128, so each channel rises by 40.
    let (accent, line) = resolve_colors("#202020");
    assert_eq!(accent, Rgba { r: 32, g: 32, b: 32, a: 0xFF });
    assert_eq!(line, Rgba { r: 72, g: 72, b: 72, a: 0xFF });
}

#[test]
fn accent_color_lighten_saturates() {
    // Luminance 0.299*250 = 74.75 < 128: lighten; 250 + 40 clamps to 255.
    let (accent, line) = resolve_colors("fa0000");
    assert_eq!(accent, Rgba { r: 250, g: 0, b: 0, a: 0xFF });
    assert_eq!(line, Rgba { r: 255, g: 40, b: 40, a: 0xFF });
}

#[test]
fn accent_color_malformed_falls_back() {
    let default_pair = (
        Rgba { r: 0xEC, g: 0xEC, b: 0xEC, a: 0xFF },
        Rgba { r: 0xD4, g: 0xD4, b: 0xD4, a: 0xFF },
    );
    assert_eq!(resolve_colors("zzzzzz"), default_pair);
    assert_eq!(resolve_colors("abc"), default_pair);
    assert_eq!(resolve_colors(""), default_pair);
    assert_eq!(resolve_colors("#12345"), default_pair);
    assert_eq!(resolve_colors("1234567"), default_pair);
}

#[test]
fn grid_background_geometry() {
    let canvas = generate_grid_background("ececec");
    assert_eq!(canvas.width, 440);
    assert_eq!(canvas.height, 100);
    let accent = Rgba { r: 0xEC, g: 0xEC, b: 0xEC, a: 0xFF };
    let line = Rgba { r: 206, g: 206, b: 206, a: 0xFF };
    // (0, 0): on a vertical line, within the dash period.
    assert_eq!(canvas.get(0, 0), line);
    // (5, 5): off every line.
    assert_eq!(canvas.get(5, 5), accent);
    // (10, 0): on a horizontal line (y % 20 < 2, x % 10 < 5).
    assert_eq!(canvas.get(10, 0), line);
    // (2, 2): two past the line start in both axes.
    assert_eq!(canvas.get(2, 2), accent);
    // (20, 7): vertical line column, but past the dash (y % 10 >= 5).
    assert_eq!(canvas.get(20, 7), accent);
    // (21, 3): second pixel of the two-pixel-wide vertical line.
    assert_eq!(canvas.get(21, 3), line);
}

#[test]
fn tiled_background_repeats_pattern() {
    let mut pixels = Vec::new();
    for y in 0..40u16 {
        for x in 0..40u16 {
            pixels.push(Rgba { r: (x % 256) as u8, g: (y % 256) as u8, b: 9, a: 255 });
        }
    }
    let pattern = PixelBuf { width: 40, height: 40, pixels };
    let canvas = tile_background(&pattern);
    assert_eq!(canvas.width, 440);
    assert_eq!(canvas.height, 100);
    assert_eq!(canvas.get(0, 0), pattern.get(0, 0));
    assert_eq!(canvas.get(41, 3), pattern.get(1, 3));
    assert_eq!(canvas.get(403, 97), pattern.get(3, 17));
}

#[test]
fn layout_entry_parsing() {
    let elements = vec![
        (
            Some("badge-1-2".to_string()),
            Some("position: absolute; left: 10px; top: 20px;".to_string()),
        ),
        // missing the left declaration: skipped
        (Some("badge-3-4".to_string()), Some("top: 5px;".to_string())),
        // non-numeric: skipped
        (Some("badge-5-6".to_string()), Some("left: abcpx; top: 5px;".to_string())),
        // missing id: skipped
        (None, Some("left: 1px; top: 2px;".to_string())),
        // out of the i64 range: skipped
        (
            Some("badge-0-1".to_string()),
            Some("left: 99999999999999999999px; top: 5px;".to_string()),
        ),
        // negative coordinates parse
        (Some("badge-7-8".to_string()), Some("left:-5px;top:-7px".to_string())),
    ];
    let entries = parse_layout_entries(&elements);
    assert_eq!(entries.len(), 2);
    assert_eq!(entries[0].id, "badge-1-2");
    assert_eq!(entries[0].x, 10);
    assert_eq!(entries[0].y, 20);
    assert_eq!(entries[1].id, "badge-7-8");
    assert_eq!(entries[1].x, -5);
    assert_eq!(entries[1].y, -7);
}

#[test]
fn layout_markup_parsing() {
    let html = "<div><img class=\"badgeimg\" id=\"badge-1-2\" \
        style=\"position:absolute; left: 30px; top: 120px;\"/>\
        <img class=\"badgeimg\" id=\"badge-3-4\" style=\"top: 5px;\"/>\
        <img class=\"other\" id=\"badge-9-9\" style=\"left:1px; top:1px;\"/></div>";
    let entries = parse_layout_markup(html);
    assert_eq!(entries.len(), 1);
    assert_eq!(entries[0].id, "badge-1-2");
    assert_eq!(entries[0].x, 30);
    assert_eq!(entries[0].y, 120);
}

#[test]
fn layout_position_overrides_formulaic() {
    // The badge appears in the parsed layout: its literal position wins,
    // even though the formulaic position would differ.
    let entries = vec![LayoutEntry { id: "badge-1-2".to_string(), x: 77, y: 130 }];
    let b = badge(1, 2, 5, 250);
    assert_eq!(resolve_position(&b, &entries), (77, 130));
}

#[test]
fn formulaic_position_is_fallback() {
    let entries = vec![LayoutEntry { id: "badge-9-9".to_string(), x: 77, y: 130 }];
    let b = badge(1, 2, 5, 250);
    assert_eq!(resolve_position(&b, &entries), (5, 50));
}

#[test]
fn gate_caps_concurrent_units() {
    // With capacity 2, a third unit is refused until one releases.
    let mut gate = Gate::new(2);
    assert!(gate.try_acquire());
    assert!(gate.try_acquire());
    assert!(!gate.try_acquire());
    assert_eq!(gate.in_flight, 2);
    gate.release();
    assert!(gate.try_acquire());
    assert!(!gate.try_acquire());
}

#[test]
fn scheduler_actions() {
    let mut gate = Gate::new(1);
    assert_eq!(next_action(&gate, 0, 2), SchedAction::Spawn);
    assert!(gate.try_acquire());
    assert_eq!(next_action(&gate, 1, 2), SchedAction::AwaitCompletion);
    gate.release();
    assert_eq!(next_action(&gate, 1, 2), SchedAction::Spawn);
    assert!(gate.try_acquire());
    gate.release();
    assert_eq!(next_action(&gate, 2, 2), SchedAction::Done);
    assert_eq!(next_action(&Gate::new(3), 0, 0), SchedAction::Done);
}

#[test]
fn concurrency_resolution() {
    assert_eq!(resolve_concurrency("auto", 8), 8);
    assert_eq!(resolve_concurrency("3", 8), 3);
    assert_eq!(resolve_concurrency("1", 8), 1);
    // Zero and malformed values fall back to the host's parallelism.
    assert_eq!(resolve_concurrency("0", 8), 8);
    assert_eq!(resolve_concurrency("-2", 8), 8);
    assert_eq!(resolve_concurrency("many", 8), 8);
}

#[test]
fn output_format_from_extension() {
    assert_eq!(choose_format("canvas.png"), Some(OutputFormat::Png));
    assert_eq!(choose_format("photo.jpg"), Some(OutputFormat::Jpeg));
    assert_eq!(choose_format("photo.jpeg"), Some(OutputFormat::Jpeg));
    assert_eq!(choose_format("animation.gif"), None);
    assert_eq!(choose_format("no_extension"), None);
    assert_eq!(choose_format(""), None);
}

fn card_with(badges: Vec<(String, BadgeInfo)>) -> AvatarProfileCard {
    AvatarProfileCard {
        avname: "someone".to_string(),
        cid: 42,
        badges,
        badge_positions: Vec::new(),
    }
}

#[test]
fn zero_badges_is_a_clean_outcome() {
    // A profile without badges ends the run with the "no badges"
    // outcome rather than an output file.
    let card = card_with(Vec::new());
    assert_eq!(plan_output(&card, &None), Err(RunError::NoBadges));
}

#[test]
fn plan_output_names_and_formats() {
    let card = card_with(vec![("k".to_string(), badge(1, 1, 0, 0))]);
    let plan = plan_output(&card, &None).unwrap();
    assert_eq!(plan.0, "canvas-someone.png");
    assert_eq!(plan.1, OutputFormat::Png);
    let plan = plan_output(&card, &Some("out.jpeg".to_string())).unwrap();
    assert_eq!(plan.0, "out.jpeg");
    assert_eq!(plan.1, OutputFormat::Jpeg);
    assert_eq!(
        plan_output(&card, &Some("out.bmp".to_string())),
        Err(RunError::UnsupportedExtension)
    );
}
