use panel_bringup::color::{black, blue5, from_rgb888, green6, pixel_bytes_be, red5, rgb565, white};
use panel_bringup::surface::{modeled_panel, PanelGeometry, Rotation, Surface};
use panel_bringup::text::{font_9x18, glyph_cells, line_fits, text_right_edge, FontMetrics};

#[test]
fn named_colors() {
    assert_eq!(black(), 0x0000);
    assert_eq!(white(), 0xFFFF);
}

#[test]
fn channels_pack_into_place() {
    assert_eq!(rgb565(0b10001, 0, 0), 0b10001 << 11);
    assert_eq!(rgb565(0, 0b100001, 0), 0b100001 << 5);
    assert_eq!(rgb565(0, 0, 0b10001), 0b10001);
    assert_eq!(rgb565(0xFF, 0, 0), 0xF800);
    let c = rgb565(21, 42, 7);
    assert_eq!((red5(c), green6(c), blue5(c)), (21, 42, 7));
    assert_eq!(pixel_bytes_be(0x1234), (0x12, 0x34));
}

#[test]
fn font_metrics_of_9x18() {
    assert_eq!(
        font_9x18(),
        FontMetrics { width: 9, height: 18, spacing: 0, baseline: 13 }
    );
}

#[test]
fn text_cells_tile_from_anchor() {
    let f = font_9x18();
    let text = "1234567890123456789012345";
    let n = text.chars().count();
    let cells = glyph_cells(50, 10, n, &f);
    assert_eq!(cells.len(), 25);
    assert_eq!(cells[0].x, 50);
    for (i, c) in cells.iter().enumerate() {
        assert_eq!(c.x, 50 + 9 * i as i32);
        assert_eq!(c.y, -3);
        assert_eq!((c.width, c.height), (9, 18));
        if i + 1 < cells.len() {
            assert_eq!(c.x + c.width as i32, cells[i + 1].x);
        }
    }
    assert_eq!(text_right_edge(50, n, &f), 275);
}

#[test]
fn long_line_overruns_the_panel() {
    let f = font_9x18();
    assert!(!line_fits(50, 25, &f, 170));
    assert!(!line_fits(50, 25, &f, 135));
    assert!(line_fits(50, 13, &f, 170));
    assert!(!line_fits(50, 14, &f, 170));
    assert!(line_fits(0, 15, &f, 135));
    assert!(!line_fits(-1, 1, &f, 135));
}

#[test]
fn spacing_adds_gaps() {
    let f = FontMetrics { width: 6, height: 10, spacing: 1, baseline: 8 };
    let cells = glyph_cells(0, 8, 3, &f);
    let xs: Vec<i32> = cells.iter().map(|c| c.x).collect();
    assert_eq!(xs, vec![0, 7, 14]);
    assert_eq!(cells[0].y, 0);
    assert_eq!(text_right_edge(0, 3, &f), 20);
    assert_eq!(text_right_edge(4, 0, &f), 4);
}

#[test]
fn modeled_panel_geometry() {
    let g = modeled_panel();
    assert_eq!(
        g,
        PanelGeometry { width: 170, height: 135, rotation: Rotation::Deg90, inverted: true }
    );
    assert_eq!(g.drawing_size(), (135, 170));
    let flat = PanelGeometry { rotation: Rotation::Deg180, ..g };
    assert_eq!(flat.drawing_size(), (170, 135));
}

#[test]
fn clear_black_zeroes_every_pixel() {
    let mut s = Surface::new(170, 135, 0x1234);
    s.clear(black());
    for y in 0..135 {
        for x in 0..170 {
            assert_eq!(s.pixel(x, y), 0x0000);
        }
    }
}

#[test]
fn fill_rect_clips_at_edges() {
    let mut s = Surface::new(4, 3, 0);
    s.fill_rect(-1, 1, 3, 5, 7);
    let mut got = vec![];
    for y in 0..3 {
        let row: Vec<u16> = (0..4).map(|x| s.pixel(x, y)).collect();
        got.push(row);
    }
    assert_eq!(got, vec![vec![0, 0, 0, 0], vec![7, 7, 0, 0], vec![7, 7, 0, 0]]);
    s.fill_rect(10, 10, 2, 2, 9);
    assert_eq!(s.pixel(3, 2), 0);
}

#[test]
fn eight_bit_channels_are_truncated() {
    assert_eq!(from_rgb888(255, 255, 255), 0xFFFF);
    assert_eq!(from_rgb888(0, 0, 0), 0x0000);
    assert_eq!(from_rgb888(0b1010_1111, 0, 0), 0b10101 << 11);
    assert_eq!(from_rgb888(0, 0b1111_1111, 0), 0b111111 << 5);
    assert_eq!(from_rgb888(7, 3, 7), 0x0000);
    assert_eq!(from_rgb888(168, 168, 56), rgb565(21, 42, 7));
}
