use focaldesk::font::{
    blend_channel, blend_pixel, draw_glyph, draw_line, ellipsize, fill_rect, glyph_origin,
    line_points, rect_list, ring_list, wrap_to_width, Glyph,
};
use focaldesk::glyph_atlas::{
    atlas_sizes, baked_chars, blit, build_icon_sprites, coverage_to_rgba, fits_atlas, glyph_place,
    AtlasRect, Canvas, FontId, GlyphAtlas, GlyphInfo, GlyphSprite, IconId, ShelfPacker, SizeKeys, Sprite,
};
use focaldesk::polygon::polygon_list;
use focaldesk::render::{
    cursor_polygon, draw_cursor, draw_power_icon, fill_background, layer_of_shadow,
    sides_of_border, Rect,
};

type Color = (u8, u8, u8);

const WHITE: Color = (255, 255, 255);

#[test]
fn blending_mixes_by_opacity() {
    for (dst, src, alpha) in [(0u8, 255u8, 128u8), (10, 200, 0), (10, 200, 255), (77, 33, 91)] {
        let a = alpha as u32;
        let mixed = (src as u32 * a + dst as u32 * (255 - a)) / 255;
        assert_eq!(blend_channel(dst, src, alpha) as u32, mixed);
    }
    assert_eq!(blend_channel(7, 9, 255), 9);
    assert_eq!(blend_channel(7, 9, 0), 7);
}

#[test]
fn pixels_are_blue_first() {
    let mut buf = vec![0u8; 4 * 4 * 2];
    blend_pixel(&mut buf, 16, 1, 1, (1, 2, 3), 255);
    assert_eq!(&buf[20..24], &[3, 2, 1, 0]);
    let before = buf.clone();
    blend_pixel(&mut buf, 16, -1, 0, WHITE, 255);
    blend_pixel(&mut buf, 16, 0, 9, WHITE, 255);
    assert_eq!(buf, before);
}

#[test]
fn rectangles_are_painted_once() {
    let mut buf = vec![0u8; 8 * 4 * 8];
    fill_rect(&mut buf, 32, 2, 3, 4, 2, WHITE, 255);
    let lit = buf.chunks(4).filter(|p| p[0] == 255).count();
    assert_eq!(lit, 8);
    assert_eq!(rect_list(2, 3, 2, 2), vec![(2, 3), (3, 3), (2, 4), (3, 4)]);
    assert!(rect_list(0, 0, 0, 5).is_empty());
}

#[test]
fn rings_hold_the_points_between_their_radii() {
    let list = ring_list(10, 20, 3, 2);
    for (x, y) in &list {
        let d = (x - 10).pow(2) + (y - 20).pow(2);
        assert!((4..=9).contains(&d), "{d}");
    }
    let mut count = 0;
    for y in -3i32..=3 {
        for x in -3i32..=3 {
            if (4..=9).contains(&(x * x + y * y)) {
                count += 1;
            }
        }
    }
    assert_eq!(list.len(), count);
}

/// A line by the usual error walk.
fn walked(x0: i32, y0: i32, x1: i32, y1: i32) -> Vec<(i32, i32)> {
    let (dx, dy) = ((x1 - x0).abs(), -(y1 - y0).abs());
    let (sx, sy) = (if x0 < x1 { 1 } else { -1 }, if y0 < y1 { 1 } else { -1 });
    let (mut x, mut y, mut err) = (x0, y0, dx + dy);
    let mut out = Vec::new();
    loop {
        out.push((x, y));
        if x == x1 && y == y1 {
            return out;
        }
        let e2 = 2 * err;
        if e2 >= dy {
            err += dy;
            x += sx;
        }
        if e2 <= dx {
            err += dx;
            y += sy;
        }
    }
}

#[test]
fn lines_go_through_the_nearest_points() {
    for (x0, y0, x1, y1) in [
        (0, 0, 7, 3),
        (0, 0, -7, 3),
        (3, 9, 3, -4),
        (5, 5, 5, 5),
        (0, 0, 4, 4),
        (2, 1, -3, 9),
        (10, 0, 0, 1),
    ] {
        assert_eq!(line_points(x0, y0, x1, y1), walked(x0, y0, x1, y1));
    }
    let mut buf = vec![0u8; 10 * 4 * 10];
    draw_line(&mut buf, 40, 2, 2, 6, 2, 1, WHITE, 255);
    let lit = buf.chunks(4).filter(|p| p[0] == 255).count();
    assert_eq!(lit, 5);
}

#[test]
fn glyphs_are_painted_by_their_coverage() {
    let glyph = Glyph {
        x: 1,
        y: 1,
        width: 2,
        height: 1,
        coverage: vec![255, 0],
    };
    let mut buf = vec![0u8; 4 * 4 * 4];
    draw_glyph(&mut buf, 16, &glyph, (9, 8, 7));
    assert_eq!(&buf[20..24], &[7, 8, 9, 0]);
    assert_eq!(&buf[24..28], &[0, 0, 0, 0]);
    assert_eq!(glyph_origin(10, 30, -1, -2, 12), (9, 20));
}

#[test]
fn long_texts_are_cut() {
    let wide = |from: usize, total: usize| -> Vec<bool> { (0..total).map(|i| i >= from).collect() };
    assert_eq!(ellipsize("abcdef", true, &wide(6, 6)), "abcdef");
    assert_eq!(ellipsize("abcdef", false, &wide(3, 6)), "abc\u{2026}");
    assert_eq!(ellipsize("abcdef", false, &wide(0, 6)), "...");
    assert_eq!(wrap_to_width("abcdef", 10, &wide(4, 6)), "abcd");
    assert_eq!(wrap_to_width("abcdef", 10, &wide(0, 6)), "a");
    assert_eq!(wrap_to_width("abcdef", 0, &wide(6, 6)), "");
}

/// The spans of a polygon by single precision arithmetic.
fn spans(points: &[(i32, i32)]) -> Vec<(i32, i32)> {
    let min_y = points.iter().map(|p| p.1).min().unwrap();
    let max_y = points.iter().map(|p| p.1).max().unwrap();
    let mut out = Vec::new();
    for y in min_y..=max_y {
        let scan = y as f32 + 0.5;
        let mut hits: Vec<f32> = Vec::new();
        for i in 0..points.len() {
            let (x0, y0) = points[i];
            let (x1, y1) = points[(i + 1) % points.len()];
            let (y0, y1) = (y0 as f32, y1 as f32);
            if (y0 <= scan && y1 > scan) || (y1 <= scan && y0 > scan) {
                let t = (scan - y0) / (y1 - y0);
                hits.push(x0 as f32 + t * (x1 - x0) as f32);
            }
        }
        hits.sort_by(|a, b| a.partial_cmp(b).unwrap());
        for pair in hits.chunks(2) {
            if let [a, b] = pair {
                for x in (a.round() as i32)..(b.round() as i32) {
                    out.push((x, y));
                }
            }
        }
    }
    out
}

#[test]
fn the_cursor_is_filled_as_its_outline_says() {
    let corners = cursor_polygon();
    let mut exact = polygon_list(&corners);
    let mut expected = spans(&corners);
    exact.sort_unstable();
    expected.sort_unstable();
    assert_eq!(exact, expected);
    let mut buf = vec![77u8; 64 * 4 * 64];
    draw_cursor(&mut buf, 256, 20, 20);
    assert!(buf.chunks(4).any(|p| p[0] != 77));
}

#[test]
fn shadows_and_borders_surround_their_rectangle() {
    let rect = Rect {
        x: 100,
        y: 100,
        w: 50,
        h: 40,
    };
    let sides = sides_of_border(rect, 2);
    assert_eq!(sides.len(), 4);
    for side in &sides {
        assert!(side.x >= 100 && side.y >= 100);
        assert!(side.x + side.w <= 150 && side.y + side.h <= 140);
    }
    for layer in 0..4 {
        let (outer, alpha) = layer_of_shadow(rect, layer);
        assert!(outer.w >= rect.w && outer.h >= rect.h && alpha < 255);
    }
    let mut buf = vec![0u8; 64 * 4 * 64];
    draw_power_icon(
        &mut buf,
        256,
        Rect {
            x: 4,
            y: 4,
            w: 56,
            h: 56,
        },
        WHITE,
        255,
    );
    assert!(buf.chunks(4).any(|p| p[0] == 255));
    let mut buf = vec![0u8; 2 * 4 * 2];
    fill_background(&mut buf, 8, 2, 2, &vec![(1, 2, 3); 4]);
    assert!(buf.chunks(4).all(|p| p == [3, 2, 1, 0]));
}

fn sprite(w: u32, h: u32, shade: u8) -> Sprite {
    Sprite {
        w,
        h,
        rgba: vec![shade; (w * h * 4) as usize],
    }
}

#[test]
fn every_printable_character_is_baked() {
    let chars = baked_chars();
    for code in 32u8..127 {
        assert!(chars.contains(&(code as char)));
    }
    let mut sorted = chars.clone();
    sorted.sort_unstable();
    sorted.dedup();
    assert_eq!(sorted.len(), chars.len());
}

#[test]
fn packed_rectangles_do_not_touch_each_other() {
    let mut packer = ShelfPacker::new(64);
    let mut rects = Vec::new();
    for (w, h) in [(20, 10), (30, 5), (20, 12), (60, 3), (5, 5), (5, 9)] {
        rects.push(packer.place(w, h));
    }
    for (i, a) in rects.iter().enumerate() {
        assert!(a.x + a.w <= 64 && a.y + a.h <= packer.total_height());
        for b in &rects[i + 1..] {
            assert!(a.x + a.w + 1 <= b.x || a.y + a.h + 1 <= b.y);
        }
    }
}

#[test]
fn the_atlas_keeps_its_pictures() {
    let glyph = |ch, shade| GlyphSprite {
        font: FontId::Regular,
        size_key: 12,
        ch,
        sprite: sprite(6, 9, shade),
        xmin: -1,
        ymin: -2,
        advance: 7,
    };
    let glyphs = vec![glyph('a', 11), glyph('b', 22)];
    assert!(fits_atlas(&glyphs));
    let atlas = GlyphAtlas::build(&glyphs);
    let info = atlas.glyph(FontId::Regular, 12, 'b').unwrap();
    let rect = info.rect.unwrap();
    assert_eq!((rect.w, rect.h, info.advance), (6, 9, 7));
    let width = atlas.canvas.len() as u32 / 4 / atlas.height;
    for y in rect.y..rect.y + rect.h {
        for x in rect.x..rect.x + rect.w {
            let at = ((y * width + x) * 4) as usize;
            assert_eq!(atlas.canvas[at], 22);
        }
    }
    assert!(atlas.glyph(FontId::Medium, 12, 'b').is_none());
    let cursor = atlas.icon_rect(IconId::CursorBody);
    assert!(cursor.w > 0 && cursor.h > 0);
    assert_eq!(
        glyph_place(info, 10, 40),
        Some(Rect {
            x: 9,
            y: 40 + 2 - 9,
            w: 6,
            h: 9
        })
    );
    let blank = GlyphInfo {
        rect: None,
        xmin: 0,
        ymin: 0,
        advance: 3,
    };
    assert_eq!(glyph_place(blank, 10, 40), None);
}

#[test]
fn icons_are_white_with_coverage() {
    for (id, picture) in build_icon_sprites() {
        assert_eq!(picture.rgba.len() as u32, picture.w * picture.h * 4);
        assert!(picture.rgba.chunks(4).any(|p| p[3] > 0), "{id:?}");
    }
    assert_eq!(coverage_to_rgba(&vec![0, 200]).len(), 8);
    assert_eq!(coverage_to_rgba(&vec![200])[3], 200);
    let mut canvas = Canvas::new(5, 5);
    canvas.fill_circle(2, 2, 1);
    assert_eq!(canvas.data.chunks(4).filter(|p| p[3] == 255).count(), 5);
}

#[test]
fn equal_sizes_are_baked_once() {
    let keys = SizeKeys {
        title: 40,
        avatar: 30,
        body: 16,
        field: 16,
        small: 12,
    };
    let sizes = atlas_sizes(keys);
    let mut seen: Vec<(FontId, u32)> = sizes.iter().map(|(f, s)| (*f, keys.key(*s))).collect();
    let n = seen.len();
    seen.dedup();
    assert_eq!(seen.len(), n);
}

#[test]
fn a_picture_is_copied_row_by_row() {
    let place = |x, y| AtlasRect { x, y, w: 0, h: 0 };
    let mut canvas = vec![0u8; 4 * 4 * 3];
    let source: Vec<u8> = (1..=40).collect();
    blit(&mut canvas, 4, &source, 2, 2, place(1, 1));
    for (at, byte) in canvas.iter().enumerate() {
        let (x, y) = (at / 4 % 4, at / 16);
        let expected = if (1..3).contains(&x) && (1..3).contains(&y) {
            source[((y - 1) * 2 + (x - 1)) * 4 + at % 4]
        } else {
            0
        };
        assert_eq!(*byte, expected, "{at}");
    }
    let before = canvas.clone();
    blit(&mut canvas, 4, &source, 0, 2, place(3, 1));
    blit(&mut canvas, 4, &Vec::new(), 2, 0, place(9, 9));
    assert_eq!(canvas, before);
}

#[test]
fn polygons_reach_as_far_as_their_corners() {
    let far = i32::MAX;
    let list = polygon_list(&vec![(far - 2, far - 2), (far - 2, far), (far, far), (far, far - 2)]);
    assert_eq!(
        list,
        vec![(far - 2, far - 2), (far - 1, far - 2), (far - 2, far - 1), (far - 1, far - 1)]
    );
    let low = i32::MIN;
    let wide = polygon_list(&vec![(low, 0), (low, 2), (low + 1, 2), (low + 1, 0)]);
    assert_eq!(wide, vec![(low, 0), (low, 1)]);
    assert!(polygon_list(&Vec::new()).is_empty());
}

#[test]
fn shapes_are_clipped_at_the_left() {
    let mut buf = vec![0u8; 8 * 4 * 4];
    fill_rect(&mut buf, 32, -2, 1, 4, 2, WHITE, 255);
    for (at, pixel) in buf.chunks(4).enumerate() {
        let lit = at % 8 < 2 && (1..3).contains(&(at / 8));
        assert_eq!(pixel[0] == 255, lit, "{at}");
    }
}

#[test]
fn an_inverted_power_sign_has_no_ring() {
    let mut buf = vec![0u8; 64 * 4 * 64];
    draw_power_icon(&mut buf, 256, Rect { x: 40, y: 40, w: -3, h: -3 }, WHITE, 255);
    let lit = buf.chunks(4).filter(|p| p[0] == 255).count();
    let mut line = vec![0u8; 64 * 4 * 64];
    draw_line(&mut line, 256, 39, 45, 39, 48, 3, WHITE, 255);
    assert_eq!(buf, line);
    assert!(lit > 0);
}

#[test]
fn a_straight_line_leaves_a_filled_rectangle() {
    let color = (9, 99, 199);
    let start: Vec<u8> = (0..32 * 4 * 24).map(|i| (i % 251) as u8).collect();
    let lines: [((i32, i32), (i32, i32)); 5] = [
        ((5, 9), (20, 9)),
        ((20, 9), (5, 9)),
        ((7, 3), (7, 15)),
        ((7, 15), (7, 3)),
        ((1, 0), (1, 0)),
    ];
    for thickness in [1, 2, 3, 6] {
        for (from, to) in lines {
            let mut line = start.clone();
            draw_line(&mut line, 128, from.0, from.1, to.0, to.1, thickness, color, 255);
            let mut rect = start.clone();
            let half = thickness / 2;
            fill_rect(
                &mut rect,
                128,
                from.0.min(to.0) - half,
                from.1.min(to.1) - half,
                (from.0 - to.0).abs() + thickness,
                (from.1 - to.1).abs() + thickness,
                color,
                255,
            );
            assert!(line == rect, "{thickness} {from:?} {to:?}");
        }
    }
}
