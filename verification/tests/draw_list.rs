//! The draw list: shapes, stacks, images, text and debug scopes.

use gameui::affine::{Affine2, Corners};
use gameui::draw_gradients::rim_segments;
use gameui::draw_list::{
    ChromeInstance, CircleInstance, DrawList, DrawListIds, PaintCmd, PaintKind, PrimCounts, Shades,
    Trig, Uv, Vertex,
};
use gameui::draw_text::SpanLayout;
use gameui::geometry::{Color, Point, Rect};
use gameui::scalar::Scalar;
use gameui::text::{line_setting, TextBlock, TextSpan, TextStyleRange, Underline};
use std::f32::consts::{FRAC_PI_2, FRAC_PI_4, PI, TAU};
use std::sync::Arc;

fn s(x: f32) -> Scalar {
    Scalar { bits: x.to_bits() }
}

fn f(x: Scalar) -> f32 {
    f32::from_bits(x.bits)
}

fn pt(x: f32, y: f32) -> Point {
    Point { x: s(x), y: s(y) }
}

fn rc(x: f32, y: f32, w: f32, h: f32) -> Rect {
    Rect { x: s(x), y: s(y), width: s(w), height: s(h) }
}

fn col(c: [f32; 4]) -> Color {
    Color { r: s(c[0]), g: s(c[1]), b: s(c[2]), a: s(c[3]) }
}

fn rgba(c: Color) -> [f32; 4] {
    [f(c.r), f(c.g), f(c.b), f(c.a)]
}

fn xy(p: Point) -> [f32; 2] {
    [f(p.x), f(p.y)]
}

fn ltwh(r: Rect) -> [f32; 4] {
    [f(r.x), f(r.y), f(r.width), f(r.height)]
}

fn dir(a: f32) -> Point {
    pt(a.cos(), a.sin())
}

fn trig() -> Trig {
    let mut corners = Vec::new();
    for start in [PI, 1.5 * PI, 0.0, 0.5 * PI] {
        for i in 0..9 {
            corners.push(dir(start + FRAC_PI_2 * (i as f32 / 8.0)));
        }
    }
    let mut discs = Vec::new();
    for n in 16..=64u32 {
        discs.push((0..=n).map(|i| dir(TAU * i as f32 / n as f32)).collect::<Vec<Point>>());
    }
    let rings = discs.clone();
    Trig { corners, discs, rings }
}

fn fresh() -> DrawList {
    DrawList::new(trig(), 1)
}

fn turned(list: &mut DrawList, angle: f32) {
    list.rotate(s(angle.cos()), s(angle.sin()));
}

fn approx(a: f32, b: f32) -> bool {
    (a - b).abs() < 1e-4
}

fn cmd(kind: PaintKind, start: u32, end: u32) -> PaintCmd {
    PaintCmd { kind, start, end }
}

const ONE: [f32; 4] = [1.0; 4];
const NIL: [f32; 4] = [0.0; 4];

#[test]
fn rounded_rect_emits_chrome_instance() {
    let mut list = fresh();
    list.rounded_rect(rc(0.0, 0.0, 100.0, 40.0), s(6.0), col(ONE));

    assert!(list.vertices.is_empty());
    assert_eq!(list.chrome_instances.len(), 1);
    let inst = list.chrome_instances[0];
    assert_eq!(ltwh(inst.rect), [0.0, 0.0, 100.0, 40.0]);
    assert!(approx(f(inst.radius), 6.0));
    assert!(approx(f(inst.thickness), 0.0));
}

#[test]
fn rect_outline_emits_stroke_instance() {
    let mut list = fresh();
    list.rect_outline(rc(0.0, 0.0, 100.0, 40.0), s(2.0), col(ONE));
    assert!(list.vertices.is_empty());
    assert_eq!(list.chrome_instances.len(), 1);
    let inst = list.chrome_instances[0];
    assert!(approx(f(inst.radius), 0.0));
    assert!(approx(f(inst.thickness), 2.0));
    assert!(approx(f(inst.bg.a), 0.0));
}

#[test]
fn rect_outline_degenerates_to_two_quads_when_thick() {
    let mut list = fresh();
    turned(&mut list, FRAC_PI_4);
    list.rect_outline(rc(0.0, 0.0, 100.0, 10.0), s(50.0), col(ONE));
    assert!(list.chrome_instances.is_empty());
    assert_eq!(list.vertices.len(), 8);
}

#[test]
fn rect_outline_zero_thickness_draws_nothing() {
    let mut list = fresh();
    list.rect_outline(rc(0.0, 0.0, 100.0, 40.0), s(0.0), col(ONE));
    assert!(list.vertices.is_empty());
    assert!(list.chrome_instances.is_empty());
}

#[test]
fn rounded_rect_outline_emits_stroke_instance() {
    let mut list = fresh();
    list.rounded_rect_outline(rc(0.0, 0.0, 100.0, 40.0), s(8.0), s(2.0), col(ONE));
    assert!(list.vertices.is_empty());
    assert_eq!(list.chrome_instances.len(), 1);
    let inst = list.chrome_instances[0];
    assert!(approx(f(inst.radius), 8.0));
    assert!(approx(f(inst.thickness), 2.0));
    assert!(approx(f(inst.bg.a), 0.0));
}

#[test]
fn rounded_rect_outline_zero_radius_falls_back_to_rect_outline() {
    let mut rounded = fresh();
    rounded.rounded_rect_outline(rc(0.0, 0.0, 100.0, 40.0), s(0.0), s(2.0), col(ONE));
    let mut plain = fresh();
    plain.rect_outline(rc(0.0, 0.0, 100.0, 40.0), s(2.0), col(ONE));
    assert_eq!(rounded.chrome_instances.len(), 1);
    assert_eq!(rounded.chrome_instances, plain.chrome_instances);
}

#[test]
fn circle_emits_instance() {
    let mut list = fresh();
    list.circle(pt(50.0, 50.0), s(20.0), col(ONE));
    assert!(list.vertices.is_empty());
    assert_eq!(list.circle_instances.len(), 1);
    let inst = list.circle_instances[0];
    assert_eq!(xy(inst.center), [50.0, 50.0]);
    assert_eq!([f(inst.radius), f(inst.thickness)], [20.0, 0.0]);
}

#[test]
fn circle_emits_fan_within_radius_under_rotation() {
    let mut list = fresh();
    turned(&mut list, FRAC_PI_4);
    let r = 20.0;
    list.circle(pt(0.0, 0.0), s(r), col(ONE));
    assert!(list.circle_instances.is_empty());
    assert!(!list.vertices.is_empty());
    for v in &list.vertices {
        let [x, y] = xy(v.position);
        let d = (x * x + y * y).sqrt();
        assert!(d <= r + 1e-3);
    }
}

#[test]
fn circle_outline_band_spans_radius_under_rotation() {
    let mut list = fresh();
    turned(&mut list, FRAC_PI_4);
    let (r, t) = (20.0, 4.0);
    list.circle_outline(pt(0.0, 0.0), s(r), s(t), col(ONE));
    assert!(list.circle_instances.is_empty());
    assert!(!list.vertices.is_empty());
    let lo = r - t * 0.5 - 1e-3;
    let hi = r + t * 0.5 + 1e-3;
    for v in &list.vertices {
        let [x, y] = xy(v.position);
        let d = (x * x + y * y).sqrt();
        assert!(d >= lo && d <= hi, "vertex dist {d} outside band [{lo},{hi}]");
    }
}

#[test]
fn circle_outline_emits_instance() {
    let mut list = fresh();
    list.circle_outline(pt(0.0, 0.0), s(20.0), s(4.0), col(ONE));
    assert_eq!(list.circle_instances.len(), 1);
    let inst = list.circle_instances[0];
    assert_eq!(xy(inst.center), [0.0, 0.0]);
    assert_eq!([f(inst.radius), f(inst.thickness)], [20.0, 4.0]);
}

#[test]
fn circle_zero_radius_draws_nothing() {
    let mut list = fresh();
    list.circle(pt(0.0, 0.0), s(0.0), col(ONE));
    list.circle_outline(pt(0.0, 0.0), s(0.0), s(2.0), col(ONE));
    assert!(list.vertices.is_empty());
    assert!(list.circle_instances.is_empty());
}

#[test]
fn outline_primitives_respect_transform() {
    let mut list = fresh();
    list.translate(s(100.0), s(50.0));
    list.rect_outline(rc(0.0, 0.0, 10.0, 10.0), s(2.0), col(ONE));
    assert_eq!(ltwh(list.chrome_instances[0].rect), [100.0, 50.0, 10.0, 10.0]);
}

#[test]
fn line_emits_quad_geometry() {
    let mut list = fresh();
    list.line(pt(0.0, 0.0), pt(10.0, 0.0), s(2.0), col(ONE));

    assert_eq!(list.vertices.len(), 4);
    assert_eq!(list.indices.len(), 6);
}

#[test]
fn icon_helper_pushes_one_command() {
    let mut list = fresh();
    list.icon("foo", rc(1.0, 2.0, 16.0, 16.0));
    assert_eq!(list.icons.len(), 1);
    assert_eq!(list.icons[0].icon_key, "foo");
    assert_eq!(list.icons[0].sprite, None);
    assert_eq!(rgba(list.icons[0].tint), [1.0, 1.0, 1.0, 1.0]);
    assert_eq!(xy(list.icons[0].corners.tl), [1.0, 2.0]);
    assert_eq!(xy(list.icons[0].corners.br), [17.0, 18.0]);
}

#[test]
fn icon_sprite_helper_resolves_id_and_tint() {
    let mut list = fresh();
    list.icon_sprite(7, rc(0.0, 0.0, 24.0, 24.0), col([0.5, 0.6, 0.7, 1.0]));
    assert_eq!(list.icons.len(), 1);
    assert_eq!(list.icons[0].sprite, Some(7));
    assert_eq!(rgba(list.icons[0].tint), [0.5, 0.6, 0.7, 1.0]);
    assert!(list.icons[0].icon_key.is_empty());
    assert_eq!(list.icons[0].src, None);
}

#[test]
fn icon_msdf_records_glyph_tint_transform_and_clip() {
    let mut list = fresh();
    list.push_transform();
    list.translate(s(40.0), s(60.0));
    list.set_tint(col([1.0, 1.0, 1.0, 0.5]));
    list.phosphor_icon(rc(0.0, 0.0, 20.0, 20.0), Some(11), col([1.0, 0.0, 0.0, 1.0]));
    assert_eq!(list.icons_msdf.len(), 1);
    let rec = list.icons_msdf[0];
    assert_eq!(rec.glyph, 11);
    assert_ne!(rec.glyph, 0);
    assert_eq!(rgba(rec.tint), [1.0, 0.0, 0.0, 0.5]);
    let o = xy(rec.transform.apply(pt(0.0, 0.0)));
    assert!((o[0] - 40.0).abs() < 1e-4 && (o[1] - 60.0).abs() < 1e-4);
}

#[test]
fn icon_msdf_skips_zero_rect() {
    let mut list = fresh();
    list.phosphor_icon(rc(0.0, 0.0, 0.0, 20.0), Some(12), col(ONE));
    assert!(list.icons_msdf.is_empty());
}

#[test]
fn phosphor_icon_matches_the_generic_verb() {
    let glyph = 13;
    let rect = rc(3.0, 4.0, 18.0, 18.0);

    let mut a = fresh();
    a.phosphor_icon(rect, Some(glyph), col(ONE));
    let mut b = fresh();
    b.icon_msdf(rect, glyph, col(ONE));
    assert_eq!(a.icons_msdf, b.icons_msdf);
}

#[test]
fn a_missing_icon_draws_nothing() {
    let mut list = fresh();
    list.phosphor_icon(rc(3.0, 4.0, 18.0, 18.0), None, col(ONE));
    assert!(list.icons_msdf.is_empty());
    assert_eq!(list.dropped_degenerate(), 0);
}

#[test]
fn image_and_image_cropped_set_src() {
    let mut list = fresh();
    list.image(3, rc(0.0, 0.0, 32.0, 32.0), col(ONE));
    let half = Uv { u0: s(0.0), v0: s(0.0), u1: s(0.5), v1: s(0.5) };
    list.image_cropped(4, rc(0.0, 0.0, 16.0, 16.0), half, col(ONE));
    assert_eq!(list.icons.len(), 2);
    assert_eq!(list.icons[0].sprite, Some(3));
    assert_eq!(list.icons[0].src, None);
    assert_eq!(list.icons[1].sprite, Some(4));
    assert_eq!(list.icons[1].src, Some(half));
}

#[test]
fn a_tiled_image_repeats() {
    let mut list = fresh();
    let tiles = Uv { u0: s(0.0), v0: s(0.0), u1: s(3.0), v1: s(2.0) };
    list.image_tiled(5, rc(0.0, 0.0, 96.0, 64.0), tiles, col(ONE));
    assert!(list.icons[0].wrap);
    assert_eq!(list.icons[0].src, Some(tiles));
}

#[test]
fn clip_stack_marks_emitted_commands() {
    let mut list = fresh();
    let clip = rc(10.0, 20.0, 30.0, 40.0);

    list.push_clip(clip);
    list.quad(rc(0.0, 0.0, 100.0, 100.0), col(ONE));
    list.text(TextBlock::new("clipped", s(0.0), s(0.0), s(16.0)));
    list.icon("icon", rc(0.0, 0.0, 10.0, 10.0));
    list.pop_clip();
    list.quad(rc(0.0, 0.0, 10.0, 10.0), col(ONE));

    assert_eq!(f(list.chrome_instances[0].clip_enabled), 1.0);
    assert_eq!(ltwh(list.chrome_instances[0].clip), [10.0, 20.0, 30.0, 40.0]);
    assert_eq!(list.texts[0].clip, Some(rc(10.0, 20.0, 30.0, 40.0)));
    assert_eq!(list.icons[0].clip, Some(clip));
    assert_eq!(list.icons[0].icon_key, "icon");
    assert_eq!(rgba(list.icons[0].tint), [1.0, 1.0, 1.0, 1.0]);
    assert_eq!(f(list.chrome_instances[1].clip_enabled), 0.0);
}

#[test]
fn push_clip_intersects_but_exact_replaces() {
    let mut list = fresh();
    list.push_clip(rc(0.0, 0.0, 50.0, 50.0));
    list.push_clip(rc(0.0, 0.0, 100.0, 100.0));
    assert_eq!(list.current_clip(), Some(rc(0.0, 0.0, 50.0, 50.0)));
    list.pop_clip();
    list.push_clip_exact(rc(0.0, 0.0, 100.0, 100.0));
    assert_eq!(list.current_clip(), Some(rc(0.0, 0.0, 100.0, 100.0)));
}

#[test]
fn clip_len_and_truncate_scope() {
    let mut list = fresh();
    assert_eq!(list.clip_len(), 0);
    let base = list.clip_len();
    list.push_clip(rc(0.0, 0.0, 10.0, 10.0));
    list.push_clip_exact(rc(0.0, 0.0, 5.0, 5.0));
    assert_eq!(list.clip_len(), 2);
    list.truncate_clip(base);
    assert_eq!(list.clip_len(), 0);
    assert_eq!(list.current_clip(), None);
}

#[test]
fn byte_range_styles_keep_original_content_and_shared_storage() {
    let ranges = Arc::new(vec![TextStyleRange {
        start: 0,
        end: 5,
        color: Some(col([1.0, 0.0, 0.0, 1.0])),
        underline: Underline::Bare,
    }]);
    let mut list = fresh();
    list.text(
        TextBlock::new("local café", s(0.0), s(0.0), s(16.0))
            .with_shared_style_ranges(ranges.clone()),
    );
    assert_eq!(list.texts[0].content, "local café");
    assert!(Arc::ptr_eq(&list.texts[0].style_ranges, &ranges));
}

#[test]
fn a_tint_is_kept_for_the_style_ranges() {
    let mut list = fresh();
    list.set_tint(col([0.5, 0.5, 0.5, 1.0]));
    list.text(TextBlock::new("x", s(0.0), s(0.0), s(16.0)));
    assert_eq!(rgba(list.texts[0].style_range_tint), [0.5, 0.5, 0.5, 1.0]);
    assert_eq!(list.texts[0].color.r, 128);
    assert_eq!(list.texts[0].color.a, 255);
}

#[test]
fn underline_inherit_uses_span_then_block_colour() {
    let span_red = [1.0, 0.0, 0.0, 1.0];
    let override_yellow = [1.0, 0.9, 0.0, 1.0];
    let mut list = fresh();
    let mut block = TextBlock::new("", s(18.0), s(10.0), s(24.0))
        .with_color(col([0.0, 200.0 / 255.0, 0.0, 1.0]));
    block.spans = vec![
        TextSpan {
            text: "red ".to_string(),
            color: Some(col(span_red)),
            underline: Underline::Inherit,
        },
        TextSpan { text: "green ".to_string(), color: None, underline: Underline::Inherit },
        TextSpan {
            text: "yellow".to_string(),
            color: None,
            underline: Underline::Own(col(override_yellow)),
        },
    ];
    let layout = SpanLayout {
        positions: (0..=16).map(|i: usize| (i, s(i as f32 * 9.0))).collect(),
        baseline_ratio: s(1.0),
    };
    list.text_spans(block, &layout);

    let block_green = [0.0, 200.0 / 255.0, 0.0, 1.0];
    let has_colour = |want: [f32; 4]| {
        list.chrome_instances
            .iter()
            .any(|c| rgba(c.bg).iter().zip(want.iter()).all(|(a, b)| (a - b).abs() < 1e-3))
    };
    assert!(has_colour(span_red), "inherit underline should use span colour");
    assert!(
        has_colour(block_green),
        "inherit underline w/o span colour should fall back to block colour"
    );
    assert!(has_colour(override_yellow), "explicit Colour underline should use the override");
    assert_eq!(list.texts[0].content, "red green yellow");
    assert_eq!(list.chrome_instances.len(), 3);
    let first = ltwh(list.chrome_instances[0].rect);
    assert!(approx(first[0], 18.0));
    assert!(approx(first[1], 10.0 + 24.0 * 1.12));
    assert!(approx(first[2], 36.0));
    assert!(approx(first[3], 24.0 * 0.07));
}

#[test]
fn quad_under_translate() {
    let mut list = fresh();
    list.translate(s(100.0), s(50.0));
    list.quad(rc(0.0, 0.0, 10.0, 20.0), col(ONE));
    assert!(list.vertices.is_empty());
    assert_eq!(ltwh(list.chrome_instances[0].rect), [100.0, 50.0, 10.0, 20.0]);
}

#[test]
fn quad_gradient_assigns_corner_colors() {
    let mut list = fresh();
    let tl = [1.0, 0.0, 0.0, 1.0];
    let tr = [0.0, 1.0, 0.0, 1.0];
    let br = [0.0, 0.0, 1.0, 1.0];
    let bl = [1.0, 1.0, 0.0, 1.0];
    list.quad_gradient(
        rc(0.0, 0.0, 10.0, 20.0),
        Shades { tl: col(tl), tr: col(tr), br: col(br), bl: col(bl) },
    );
    assert_eq!(list.vertices.len(), 4);
    assert_eq!(xy(list.vertices[0].position), [0.0, 0.0]);
    assert_eq!(rgba(list.vertices[0].color), tl);
    assert_eq!(xy(list.vertices[1].position), [10.0, 0.0]);
    assert_eq!(rgba(list.vertices[1].color), tr);
    assert_eq!(xy(list.vertices[2].position), [10.0, 20.0]);
    assert_eq!(rgba(list.vertices[2].color), br);
    assert_eq!(xy(list.vertices[3].position), [0.0, 20.0]);
    assert_eq!(rgba(list.vertices[3].color), bl);
    assert_eq!(list.indices, vec![0, 1, 2, 2, 3, 0]);
}

fn flat(c: [f32; 4]) -> Shades {
    Shades { tl: col(c), tr: col(c), br: col(c), bl: col(c) }
}

#[test]
fn quad_gradient_zero_size_is_noop() {
    let mut list = fresh();
    list.quad_gradient(rc(0.0, 0.0, 0.0, 20.0), flat(ONE));
    list.quad_gradient(rc(0.0, 0.0, 20.0, 0.0), flat(ONE));
    assert!(list.vertices.is_empty());
    assert!(list.indices.is_empty());
}

#[test]
fn triangle_gradient_assigns_corner_colors() {
    let mut list = fresh();
    let c0 = [1.0, 0.0, 0.0, 0.3];
    let c1 = [0.0, 1.0, 0.0, 0.3];
    let c2 = [0.0, 0.0, 1.0, 0.05];
    list.triangle_gradient(pt(0.0, 0.0), pt(10.0, 0.0), pt(5.0, 8.0), col(c0), col(c1), col(c2));
    assert_eq!(list.vertices.len(), 3);
    assert_eq!(xy(list.vertices[0].position), [0.0, 0.0]);
    assert_eq!(rgba(list.vertices[0].color), c0);
    assert_eq!(xy(list.vertices[1].position), [10.0, 0.0]);
    assert_eq!(rgba(list.vertices[1].color), c1);
    assert_eq!(xy(list.vertices[2].position), [5.0, 8.0]);
    assert_eq!(rgba(list.vertices[2].color), c2);
    assert_eq!(list.indices, vec![0, 1, 2]);
}

#[test]
fn triangle_gradient_matches_triangle_for_flat_colors() {
    let mut g = fresh();
    let mut t = fresh();
    let c = col([0.2, 0.5, 0.9, 0.5]);
    g.triangle_gradient(pt(0.0, 0.0), pt(9.0, 1.0), pt(4.0, 7.0), c, c, c);
    t.triangle(pt(0.0, 0.0), pt(9.0, 1.0), pt(4.0, 7.0), c);
    assert_eq!(g.vertices, t.vertices);
    assert_eq!(g.indices, t.indices);
}

#[test]
fn drop_shadow_emits_soft_rects_beyond_the_surface() {
    let mut list = fresh();
    let shadow = [0.0, 0.0, 0.0, 0.6];
    let surface = rc(100.0, 50.0, 80.0, 20.0);
    list.drop_shadow(surface, s(4.0), s(10.0), s(2.0), col(shadow));
    assert_eq!(list.chrome_instances.len(), 1);
    assert_eq!(ltwh(list.chrome_instances[0].rect), [100.0, 50.0, 80.0, 20.0]);
    assert_eq!(rgba(list.chrome_instances[0].bg), shadow);
    assert_eq!(list.vertices.len(), 32);
    assert_eq!(xy(list.vertices[0].position), [100.0, 44.0]);
    assert_eq!(rgba(list.vertices[0].color), [0.0, 0.0, 0.0, 0.0]);
    assert_eq!(xy(list.vertices[2].position), [180.0, 50.0]);
    assert_eq!(rgba(list.vertices[2].color), [0.0, 0.0, 0.0, shadow[3] * 0.35]);
}

#[test]
fn drop_shadow_blur_zero_does_not_duplicate_the_surface() {
    let mut list = fresh();
    let shadow = [0.0, 0.0, 0.0, 0.5];
    let surface = rc(10.0, 10.0, 40.0, 12.0);
    list.drop_shadow(surface, s(3.0), s(0.0), s(1.0), col(shadow));
    assert!(list.chrome_instances.is_empty());
    assert!(list.vertices.is_empty(), "no falloff means no shadow is emitted");
}

#[test]
fn drop_shadow_short_core_trims_the_skirts_without_degenerates() {
    let mut list = fresh();
    let before = list.dropped_degenerate();
    list.drop_shadow(rc(0.0, 0.0, 50.0, 4.0), s(0.0), s(8.0), s(1.0), col([0.0, 0.0, 0.0, 0.6]));
    assert_eq!(list.dropped_degenerate(), before);
    assert_eq!(list.chrome_instances.len(), 1);
    assert_eq!(ltwh(list.chrome_instances[0].rect), [0.0, 0.0, 50.0, 4.0]);
    assert_eq!(list.vertices.len(), 32);
}

#[test]
fn drop_shadow_zero_height_surface_is_a_noop() {
    let mut list = fresh();
    let before = list.dropped_degenerate();
    list.drop_shadow(rc(0.0, 0.0, 50.0, 0.0), s(0.0), s(8.0), s(1.0), col([0.0, 0.0, 0.0, 0.6]));
    assert_eq!(list.dropped_degenerate(), before + 1);
    assert!(list.chrome_instances.is_empty());
    assert!(list.vertices.is_empty());
}

#[test]
fn drop_shadow_zero_alpha_and_zero_params_are_noops() {
    let mut list = fresh();
    let before = list.dropped_degenerate();
    list.drop_shadow(rc(0.0, 0.0, 40.0, 10.0), s(0.0), s(0.0), s(1.0), col(NIL));
    list.drop_shadow(rc(0.0, 0.0, 40.0, 10.0), s(0.0), s(8.0), s(1.0), col(NIL));
    assert!(list.chrome_instances.is_empty());
    assert!(list.vertices.is_empty());
    assert_eq!(list.dropped_degenerate(), before + 2);
}

#[test]
fn horizontal_gradient_sets_left_right_corners() {
    let mut list = fresh();
    let left = [1.0, 0.0, 0.0, 1.0];
    let right = [0.0, 0.0, 1.0, 1.0];
    list.horizontal_gradient(rc(0.0, 0.0, 10.0, 20.0), col(left), col(right));
    assert_eq!(rgba(list.vertices[0].color), left);
    assert_eq!(rgba(list.vertices[1].color), right);
    assert_eq!(rgba(list.vertices[2].color), right);
    assert_eq!(rgba(list.vertices[3].color), left);
}

#[test]
fn vertical_gradient_sets_top_bottom_corners() {
    let mut list = fresh();
    let top = [1.0, 0.0, 0.0, 1.0];
    let bottom = [0.0, 0.0, 1.0, 1.0];
    list.vertical_gradient(rc(0.0, 0.0, 10.0, 20.0), col(top), col(bottom));
    assert_eq!(rgba(list.vertices[0].color), top);
    assert_eq!(rgba(list.vertices[1].color), top);
    assert_eq!(rgba(list.vertices[2].color), bottom);
    assert_eq!(rgba(list.vertices[3].color), bottom);
}

fn assert_same_colors(a: &DrawList, b: &DrawList, what: &str) {
    assert_eq!(a.vertices.len(), b.vertices.len());
    for (va, vb) in a.vertices.iter().zip(b.vertices.iter()) {
        for k in 0..4 {
            assert!((rgba(va.color)[k] - rgba(vb.color)[k]).abs() < 1e-5, "{what}");
        }
    }
}

#[test]
fn linear_gradient_angle_zero_matches_horizontal() {
    let start = col([1.0, 0.0, 0.0, 1.0]);
    let end = col([0.0, 1.0, 0.0, 1.0]);
    let rect = rc(3.0, 5.0, 10.0, 20.0);

    let mut a = fresh();
    a.linear_gradient(rect, start, end, s(0.0f32.cos()), s(0.0f32.sin()));
    let mut b = fresh();
    b.horizontal_gradient(rect, start, end);
    assert_same_colors(&a, &b, "angle 0 should equal horizontal gradient");
}

#[test]
fn linear_gradient_quarter_turn_matches_vertical() {
    let start = col([1.0, 0.0, 0.0, 1.0]);
    let end = col([0.0, 1.0, 0.0, 1.0]);
    let rect = rc(3.0, 5.0, 10.0, 20.0);

    let mut a = fresh();
    a.linear_gradient(rect, start, end, s(FRAC_PI_2.cos()), s(FRAC_PI_2.sin()));
    let mut b = fresh();
    b.vertical_gradient(rect, start, end);
    assert_same_colors(&a, &b, "angle π/2 should equal vertical gradient");
}

#[test]
fn linear_gradient_zero_size_is_noop() {
    let mut list = fresh();
    let (sin, cos) = 0.7f32.sin_cos();
    list.linear_gradient(rc(0.0, 0.0, 0.0, 20.0), col(ONE), col(NIL), s(cos), s(sin));
    assert!(list.vertices.is_empty());
    assert!(list.indices.is_empty());
}

fn radial(list: &mut DrawList, rect: Rect, inner: [f32; 4], outer: [f32; 4], asked: u32) {
    let n = rim_segments(asked);
    let dirs: Vec<Point> = (0..n).map(|i| dir(TAU * i as f32 / n as f32)).collect();
    list.radial_gradient(rect, col(inner), col(outer), s((PI / n as f32).cos()), &dirs);
}

#[test]
fn radial_gradient_builds_fan_with_center_and_ring() {
    let mut list = fresh();
    let inner = [1.0, 1.0, 1.0, 1.0];
    let outer = [0.0, 0.0, 0.0, 0.0];
    let segments = 8;
    radial(&mut list, rc(0.0, 0.0, 40.0, 40.0), inner, outer, segments);

    assert_eq!(list.vertices.len() as u32, 1 + segments);
    assert_eq!(rgba(list.vertices[0].color), inner);
    for v in &list.vertices[1..] {
        assert_eq!(rgba(v.color), outer);
    }
    assert_eq!(list.indices.len() as u32, 3 * segments);
    for tri in list.indices.chunks(3) {
        assert_eq!(tri[0], 0, "each wedge fans from the center vertex");
    }
    assert_eq!(list.clip_len(), 0);
    assert_eq!(&list.indices[21..], &[0, 8, 1]);
}

#[test]
fn radial_gradient_clamps_segments_and_zero_size_is_noop() {
    let mut list = fresh();
    radial(&mut list, rc(0.0, 0.0, 10.0, 10.0), ONE, NIL, 1);
    assert_eq!(list.vertices.len(), 1 + 3);

    let mut empty = fresh();
    radial(&mut empty, rc(0.0, 0.0, 0.0, 10.0), ONE, NIL, 16);
    assert!(empty.vertices.is_empty());
    assert!(empty.indices.is_empty());
}

#[test]
fn quad_under_translate_then_scale() {
    let mut list = fresh();
    list.translate(s(10.0), s(20.0));
    list.scale(s(2.0), s(3.0));
    list.quad(rc(0.0, 0.0, 5.0, 5.0), col(ONE));
    assert_eq!(xy(list.vertices[0].position), [10.0, 20.0]);
    assert_eq!(xy(list.vertices[2].position), [20.0, 35.0]);
}

#[test]
fn rounded_rect_under_rotation_is_not_axis_aligned() {
    let mut list = fresh();
    turned(&mut list, FRAC_PI_4);
    list.rounded_rect(rc(10.0, 10.0, 20.0, 20.0), s(4.0), col(ONE));

    let mut has_offdiag = false;
    for v in &list.vertices {
        let [x, y] = xy(v.position);
        if x.abs() > 0.001 && y.abs() > 0.001 {
            let d = (x * x + y * y).sqrt();
            if d > 5.0 {
                has_offdiag = true;
            }
        }
    }
    assert!(has_offdiag, "rotated rounded rect should have off-axis vertices");
}

#[test]
fn color_multiplies_with_tint() {
    let mut list = fresh();
    list.set_tint(col([0.5, 0.5, 0.5, 1.0]));
    list.quad(rc(0.0, 0.0, 10.0, 10.0), col([0.4, 0.6, 0.8, 1.0]));
    let bg = rgba(list.chrome_instances[0].bg);
    assert!(approx(bg[0], 0.2));
    assert!(approx(bg[1], 0.3));
    assert!(approx(bg[2], 0.4));
    assert!(approx(bg[3], 1.0));
}

#[test]
fn push_pop_restores_transform() {
    let mut list = fresh();
    list.translate(s(10.0), s(20.0));
    list.push_transform();
    list.translate(s(5.0), s(5.0));
    assert_eq!(list.current_transform(), Affine2::translation(s(15.0), s(25.0)));
    list.pop_transform();
    assert_eq!(list.current_transform(), Affine2::translation(s(10.0), s(20.0)));
}

#[test]
fn push_pop_restores_tint() {
    let mut list = fresh();
    list.set_tint(col([0.5, 0.5, 0.5, 1.0]));
    list.push_tint();
    list.multiply_tint(col([0.5, 0.5, 0.5, 1.0]));
    assert_eq!(rgba(list.current_tint()), [0.25, 0.25, 0.25, 1.0]);
    list.pop_tint();
    assert_eq!(rgba(list.current_tint()), [0.5, 0.5, 0.5, 1.0]);
}

#[test]
fn pop_when_at_base_does_not_underflow() {
    let mut list = fresh();
    list.pop_transform();
    list.pop_transform();
    list.pop_tint();
    list.pop_tint();
    assert_eq!(list.current_transform(), Affine2::identity());
    assert_eq!(rgba(list.current_tint()), [1.0, 1.0, 1.0, 1.0]);
}

#[test]
fn nested_push_pop_balances() {
    let mut list = fresh();
    list.push_transform();
    list.translate(s(1.0), s(0.0));
    list.push_transform();
    list.translate(s(2.0), s(0.0));
    list.push_transform();
    list.translate(s(4.0), s(0.0));
    assert_eq!(list.current_transform(), Affine2::translation(s(7.0), s(0.0)));
    list.pop_transform();
    assert_eq!(list.current_transform(), Affine2::translation(s(3.0), s(0.0)));
    list.pop_transform();
    assert_eq!(list.current_transform(), Affine2::translation(s(1.0), s(0.0)));
    list.pop_transform();
    assert_eq!(list.current_transform(), Affine2::identity());
}

#[test]
fn icon_corners_transformed_under_scale() {
    let mut list = fresh();
    list.scale(s(2.0), s(2.0));
    list.icon("foo", rc(5.0, 5.0, 10.0, 10.0));
    let c: Corners = list.icons[0].corners;
    assert_eq!(xy(c.tl), [10.0, 10.0]);
    assert_eq!(xy(c.br), [30.0, 30.0]);
}

#[test]
fn chrome_rect_fast_path_records_one_instance() {
    let mut list = fresh();
    list.chrome_rect(
        rc(10.0, 20.0, 80.0, 30.0),
        s(6.0),
        s(2.0),
        col([0.1, 0.2, 0.3, 1.0]),
        col([0.4, 0.5, 0.6, 1.0]),
    );
    assert_eq!(list.chrome_instances.len(), 1);
    assert_eq!(list.paint_cmds, vec![cmd(PaintKind::Chrome, 0, 1)]);
    assert!(list.vertices.is_empty());
    let inst: ChromeInstance = list.chrome_instances[0];
    assert_eq!(ltwh(inst.rect), [10.0, 20.0, 80.0, 30.0]);
    assert_eq!(rgba(inst.bg), [0.1, 0.2, 0.3, 1.0]);
    assert_eq!(rgba(inst.border), [0.4, 0.5, 0.6, 1.0]);
    assert_eq!([f(inst.radius), f(inst.thickness), f(inst.clip_enabled)], [6.0, 2.0, 0.0]);
}

fn chrome(list: &mut DrawList, rect: Rect, radius: f32, thickness: f32) {
    list.chrome_rect(rect, s(radius), s(thickness), col(ONE), col(NIL));
}

#[test]
fn chrome_rect_bakes_translation_into_world_rect() {
    let mut list = fresh();
    list.translate(s(100.0), s(50.0));
    chrome(&mut list, rc(5.0, 5.0, 20.0, 10.0), 0.0, 0.0);
    assert_eq!(ltwh(list.chrome_instances[0].rect), [105.0, 55.0, 20.0, 10.0]);
}

#[test]
fn chrome_rect_consecutive_calls_batch_into_one_run() {
    let mut list = fresh();
    for i in 0..4 {
        chrome(&mut list, rc(i as f32 * 10.0, 0.0, 8.0, 8.0), 4.0, 1.0);
    }
    assert_eq!(list.chrome_instances.len(), 4);
    assert_eq!(list.paint_cmds, vec![cmd(PaintKind::Chrome, 0, 4)]);
}

#[test]
fn chrome_rect_interleaves_with_soup_in_order() {
    let mut list = fresh();
    list.line(pt(0.0, 0.0), pt(10.0, 0.0), s(2.0), col(ONE));
    chrome(&mut list, rc(0.0, 0.0, 8.0, 8.0), 2.0, 1.0);
    list.line(pt(0.0, 0.0), pt(10.0, 0.0), s(2.0), col(ONE));
    chrome(&mut list, rc(0.0, 0.0, 8.0, 8.0), 2.0, 1.0);
    assert_eq!(
        list.paint_cmds,
        vec![
            cmd(PaintKind::Soup, 0, 6),
            cmd(PaintKind::Chrome, 0, 1),
            cmd(PaintKind::Soup, 6, 12),
            cmd(PaintKind::Chrome, 1, 2),
        ]
    );
    assert_eq!(list.soup_committed_indices, 12);
    assert_eq!(list.indices.len(), 12);
}

#[test]
fn chrome_rect_trailing_soup_left_uncommitted() {
    let mut list = fresh();
    chrome(&mut list, rc(0.0, 0.0, 8.0, 8.0), 2.0, 1.0);
    list.line(pt(0.0, 0.0), pt(10.0, 0.0), s(2.0), col(ONE));
    assert_eq!(list.paint_cmds, vec![cmd(PaintKind::Chrome, 0, 1)]);
    assert_eq!(list.soup_committed_indices, 0);
    assert_eq!(list.indices.len(), 6);
    assert_eq!(list.trailing_soup_range(), (0, 6));
}

#[test]
fn chrome_rect_falls_back_to_soup_under_rotation() {
    let mut list = fresh();
    turned(&mut list, FRAC_PI_4);
    list.chrome_rect(rc(0.0, 0.0, 40.0, 20.0), s(6.0), s(2.0), col(ONE), col([0.5; 4]));
    assert!(list.chrome_instances.is_empty());
    assert!(list.paint_cmds.is_empty());
    assert!(!list.vertices.is_empty());
}

#[test]
fn chrome_rect_applies_tint() {
    let mut list = fresh();
    list.set_tint(col([0.5, 0.5, 0.5, 1.0]));
    list.chrome_rect(
        rc(0.0, 0.0, 10.0, 10.0),
        s(0.0),
        s(1.0),
        col([0.4, 0.6, 0.8, 1.0]),
        col([0.2, 0.2, 0.2, 1.0]),
    );
    let inst = list.chrome_instances[0];
    let bg = rgba(inst.bg);
    assert!(approx(bg[0], 0.2) && approx(bg[1], 0.3) && approx(bg[2], 0.4));
    assert!(approx(f(inst.border.r), 0.1));
}

#[test]
fn chrome_rect_records_active_clip() {
    let mut list = fresh();
    list.push_clip(rc(5.0, 6.0, 30.0, 40.0));
    chrome(&mut list, rc(0.0, 0.0, 10.0, 10.0), 0.0, 0.0);
    let inst = list.chrome_instances[0];
    assert_eq!(ltwh(inst.clip), [5.0, 6.0, 30.0, 40.0]);
    assert_eq!(f(inst.clip_enabled), 1.0);
}

#[test]
fn chrome_rect_zero_size_draws_nothing() {
    let mut list = fresh();
    chrome(&mut list, rc(0.0, 0.0, 0.0, 10.0), 4.0, 1.0);
    assert!(list.chrome_instances.is_empty());
    assert!(list.paint_cmds.is_empty());
}

#[test]
fn clear_resets_chrome_state() {
    let mut list = fresh();
    list.quad(rc(0.0, 0.0, 10.0, 10.0), col(ONE));
    chrome(&mut list, rc(0.0, 0.0, 8.0, 8.0), 2.0, 1.0);
    assert!(!list.chrome_instances.is_empty());
    assert!(!list.paint_cmds.is_empty());
    list.clear();
    assert!(list.chrome_instances.is_empty());
    assert!(list.paint_cmds.is_empty());
    assert_eq!(list.soup_committed_indices, 0);
}

#[test]
fn debug_scope_records_span_of_emitted_primitives() {
    let mut list = fresh();
    chrome(&mut list, rc(0.0, 0.0, 10.0, 10.0), 0.0, 0.0);
    list.push_debug_scope("inner");
    chrome(&mut list, rc(0.0, 0.0, 5.0, 5.0), 0.0, 0.0);
    chrome(&mut list, rc(5.0, 0.0, 5.0, 5.0), 0.0, 0.0);
    list.pop_debug_scope();
    chrome(&mut list, rc(0.0, 0.0, 3.0, 3.0), 0.0, 0.0);

    let scopes = list.debug_scopes();
    assert_eq!(scopes.len(), 1);
    let sc = &scopes[0];
    assert_eq!(sc.name, "inner");
    assert!(sc.closed);
    assert_eq!(sc.start.chrome_instances, 1);
    assert_eq!(sc.end.chrome_instances, 3);
    assert_eq!(sc.counts().chrome_instances, 2);
    assert_eq!(sc.counts().total(), 2);
}

#[test]
fn debug_scopes_nest_with_parent_and_depth() {
    let mut list = fresh();
    list.push_debug_scope("window");
    list.push_debug_scope("row");
    list.push_debug_scope("button");
    list.pop_debug_scope();
    list.pop_debug_scope();
    list.pop_debug_scope();

    let sc = list.debug_scopes();
    assert_eq!(sc.len(), 3);
    assert_eq!((sc[0].parent, sc[0].depth), (None, 0));
    assert_eq!((sc[1].parent, sc[1].depth), (Some(0), 1));
    assert_eq!((sc[2].parent, sc[2].depth), (Some(1), 2));
    assert!(sc.iter().all(|sc| sc.closed));
    assert_eq!(list.debug_scope_depth(), 0);
}

#[test]
fn sibling_scopes_get_the_same_parent() {
    let mut list = fresh();
    list.push_debug_scope("panel");
    list.push_debug_scope("a");
    list.pop_debug_scope();
    list.push_debug_scope("b");
    list.pop_debug_scope();
    list.pop_debug_scope();

    let sc = list.debug_scopes();
    assert_eq!(sc[1].parent, Some(0));
    assert_eq!(sc[2].parent, Some(0));
    assert_eq!(sc[1].depth, 1);
    assert_eq!(sc[2].depth, 1);
}

#[test]
fn declared_rect_is_transformed_to_world_space() {
    let mut list = fresh();
    list.push_transform();
    list.translate(s(100.0), s(50.0));
    list.push_debug_scope_rect("moved", rc(10.0, 10.0, 20.0, 20.0));
    list.pop_debug_scope();
    list.pop_transform();

    let declared = list.debug_scopes()[0].declared.expect("declared rect");
    assert_eq!(ltwh(declared), [110.0, 60.0, 20.0, 20.0]);
}

#[test]
fn scope_records_active_clip() {
    let mut list = fresh();
    list.push_clip(rc(5.0, 6.0, 30.0, 40.0));
    list.push_debug_scope("clipped");
    list.pop_debug_scope();
    list.pop_clip();
    list.push_debug_scope("unclipped");
    list.pop_debug_scope();

    let sc = list.debug_scopes();
    assert_eq!(sc[0].clip, Some(rc(5.0, 6.0, 30.0, 40.0)));
    assert_eq!(sc[1].clip, None);
}

#[test]
fn unpopped_scope_stays_open() {
    let mut list = fresh();
    list.push_debug_scope("leaked");
    chrome(&mut list, rc(0.0, 0.0, 4.0, 4.0), 0.0, 0.0);

    let sc = &list.debug_scopes()[0];
    assert!(!sc.closed, "an unpopped scope must be flagged, not silently closed");
    assert_eq!(sc.end, sc.start, "end is only stamped on pop");
    assert_eq!(list.debug_scope_depth(), 1);
}

#[test]
fn pop_without_push_is_a_noop() {
    let mut list = fresh();
    list.pop_debug_scope();
    list.pop_debug_scope();
    assert!(list.debug_scopes().is_empty());
    assert_eq!(list.debug_scope_depth(), 0);
}

#[test]
fn truncate_debug_scopes_closes_back_to_depth() {
    let mut list = fresh();
    list.push_debug_scope("a");
    list.push_debug_scope("b");
    list.push_debug_scope("c");
    list.truncate_debug_scopes(1);

    assert_eq!(list.debug_scope_depth(), 1);
    let sc = list.debug_scopes();
    assert!(!sc[0].closed, "the scope at the retained depth stays open");
    assert!(sc[1].closed);
    assert!(sc[2].closed);
}

#[test]
fn clear_resets_debug_scopes() {
    let mut list = fresh();
    list.push_debug_scope("stale");
    chrome(&mut list, rc(0.0, 0.0, 4.0, 4.0), 0.0, 0.0);
    list.pop_debug_scope();
    assert_eq!(list.debug_scopes().len(), 1);

    list.clear();
    assert!(list.debug_scopes().is_empty());
    assert_eq!(list.debug_scope_depth(), 0);
}

#[test]
fn scopes_cost_nothing_when_unused() {
    let mut list = fresh();
    list.quad(rc(0.0, 0.0, 10.0, 10.0), col(ONE));
    assert!(list.debug_scopes().is_empty());
    assert_eq!(list.debug_scope_depth(), 0);
}

#[test]
fn adjacent_scopes_own_disjoint_ranges_despite_command_run_merging() {
    let mut list = fresh();
    list.push_debug_scope("a");
    chrome(&mut list, rc(0.0, 0.0, 5.0, 5.0), 0.0, 0.0);
    list.pop_debug_scope();
    list.push_debug_scope("b");
    chrome(&mut list, rc(5.0, 0.0, 5.0, 5.0), 0.0, 0.0);
    list.pop_debug_scope();

    assert_eq!(list.paint_cmds.len(), 1, "runs merge across the scope boundary");
    let sc = list.debug_scopes();
    assert_eq!((sc[0].start.chrome_instances, sc[0].end.chrome_instances), (0, 1));
    assert_eq!((sc[1].start.chrome_instances, sc[1].end.chrome_instances), (1, 2));
}

#[test]
fn degenerate_quad_is_counted_not_silently_lost() {
    let mut list = fresh();
    list.quad(rc(10.0, 10.0, -4.0, 20.0), col(ONE));
    assert!(list.vertices.is_empty(), "nothing is drawn");
    assert!(list.chrome_instances.is_empty());
    assert_eq!(list.dropped_degenerate(), 1, "but the drop is recorded");
}

#[test]
fn degenerate_drops_counted_across_primitive_kinds() {
    let mut list = fresh();
    list.quad(rc(0.0, 0.0, 0.0, 10.0), col(ONE));
    chrome(&mut list, rc(0.0, 0.0, 10.0, 0.0), 0.0, 0.0);
    list.rect_outline(rc(0.0, 0.0, 10.0, 10.0), s(0.0), col(ONE));
    list.circle(pt(5.0, 5.0), s(0.0), col(ONE));
    list.line(pt(0.0, 0.0), pt(10.0, 0.0), s(-1.0), col(ONE));
    assert_eq!(list.dropped_degenerate(), 5);
}

#[test]
fn rounded_rect_fallback_counts_the_drop_only_once() {
    let mut list = fresh();
    list.rounded_rect(rc(0.0, 0.0, -5.0, 10.0), s(4.0), col(ONE));
    assert_eq!(list.dropped_degenerate(), 1);
}

#[test]
fn healthy_primitives_do_not_count_as_drops() {
    let mut list = fresh();
    list.quad(rc(0.0, 0.0, 10.0, 10.0), col(ONE));
    chrome(&mut list, rc(0.0, 0.0, 8.0, 8.0), 2.0, 1.0);
    list.circle(pt(5.0, 5.0), s(3.0), col(ONE));
    assert_eq!(list.dropped_degenerate(), 0);
}

#[test]
fn scope_spans_the_drop_counter() {
    let mut list = fresh();
    list.quad(rc(0.0, 0.0, -1.0, 5.0), col(ONE));
    list.push_debug_scope("toolbar");
    list.quad(rc(0.0, 0.0, -1.0, 5.0), col(ONE));
    list.quad(rc(0.0, 0.0, 5.0, -1.0), col(ONE));
    list.pop_debug_scope();

    let sc = &list.debug_scopes()[0];
    assert_eq!(sc.counts().dropped_degenerate, 2, "attributed to the scope");
    assert!(sc.counts().is_empty(), "a scope that only dropped draws nothing");
    assert_eq!(list.dropped_degenerate(), 3, "list-wide total includes the loose one");
}

#[test]
fn clear_resets_the_drop_counter() {
    let mut list = fresh();
    list.quad(rc(0.0, 0.0, -1.0, 5.0), col(ONE));
    assert_eq!(list.dropped_degenerate(), 1);
    list.clear();
    assert_eq!(list.dropped_degenerate(), 0);
}

#[test]
fn prim_counts_since_saturates_and_totals_triangles() {
    let a = PrimCounts { indices: 6, texts: 1, ..PrimCounts::default() };
    let b = PrimCounts { indices: 12, texts: 3, chrome_instances: 2, ..PrimCounts::default() };
    let d = b.since(a);
    assert_eq!(d.indices, 6);
    assert_eq!(d.texts, 2);
    assert_eq!(d.chrome_instances, 2);
    assert_eq!(d.total(), 6);
    assert!(a.since(b).is_empty());
}

#[test]
fn nine_slice_carries_transform() {
    let mut list = fresh();
    list.translate(s(50.0), s(60.0));
    list.scale(s(2.0), s(2.0));
    list.nine_slice_id(0, rc(0.0, 0.0, 10.0, 10.0), col(ONE));
    let n = &list.nine_slices[0];
    let tl = xy(n.transform.apply(pt(0.0, 0.0)));
    let br = xy(n.transform.apply(pt(10.0, 10.0)));
    assert!(approx(tl[0], 50.0) && approx(tl[1], 60.0));
    assert!(approx(br[0], 70.0) && approx(br[1], 80.0));
}

#[test]
fn paint_stream_records_and_coalesces_all_payload_kinds() {
    let mut d = fresh();
    d.nine_slice_id(7, rc(0.0, 0.0, 10.0, 10.0), col(ONE));
    d.nine_slice_id(7, rc(10.0, 0.0, 10.0, 10.0), col(ONE));
    d.icon("first", rc(0.0, 0.0, 8.0, 8.0));
    d.icon("second", rc(8.0, 0.0, 8.0, 8.0));
    d.triangle(pt(0.0, 0.0), pt(1.0, 0.0), pt(0.0, 1.0), col(ONE));
    d.quad(rc(0.0, 0.0, 4.0, 4.0), col(ONE));

    assert_eq!(d.paint_cmds[0], cmd(PaintKind::NineSlice, 0, 2));
    assert_eq!(d.paint_cmds[1], cmd(PaintKind::Icon, 0, 2));
    assert_eq!(d.paint_cmds[2], cmd(PaintKind::Soup, 0, 3));
    assert_eq!(d.paint_cmds[3], cmd(PaintKind::Chrome, 0, 1));
}

#[test]
fn ids_are_handed_out_one_after_the_other() {
    let mut ids = DrawListIds::new();
    let a = ids.next_draw_list_id();
    let b = ids.next_draw_list_id();
    assert_eq!(b, a + 1);
    assert_eq!(DrawList::new(trig(), b).id(), b);
}

#[test]
fn a_zoomed_text_grows_with_its_transform() {
    let mut list = fresh();
    list.translate(s(10.0), s(5.0));
    list.scale(s(2.0), s(2.0));
    list.text(TextBlock::new("x", s(3.0), s(4.0), s(16.0)).with_max_width(s(100.0)));
    let t = &list.texts[0];
    assert_eq!(f(t.font_size), 32.0);
    assert_eq!(f(t.line_height), 40.0);
    assert_eq!(f(t.max_width), 200.0);
    assert_eq!([f(t.x), f(t.y)], [16.0, 13.0]);
}

#[test]
fn a_viewport_clip_is_remembered() {
    let mut list = fresh();
    list.push_clip_viewport(rc(0.0, 0.0, 100.0, 80.0));
    assert_eq!(list.viewport_clips().len(), 1);
    list.pop_clip();
    assert_eq!(list.viewport_clips().len(), 1);
    assert_eq!(list.clip_len(), 0);
}

#[test]
fn a_closed_polygon_fans_from_its_center() {
    let mut list = fresh();
    let square = vec![pt(0.0, 0.0), pt(4.0, 0.0), pt(4.0, 4.0), pt(0.0, 4.0)];
    list.filled_polygon(&square, col(ONE));
    assert_eq!(list.indices.len(), 12);
    assert_eq!(xy(list.vertices[0].position), [2.0, 2.0]);
    let mut none = fresh();
    none.filled_polygon(&vec![pt(0.0, 0.0), pt(4.0, 0.0)], col(ONE));
    assert!(none.vertices.is_empty());
}

#[test]
fn clips_never_grow_and_popping_restores_them() {
    let mut list = fresh();
    list.push_clip(rc(10.0, 10.0, 20.0, 20.0));
    let outer = list.current_clip();
    list.push_clip(rc(0.0, 15.0, 100.0, 100.0));
    assert_eq!(list.current_clip(), Some(rc(10.0, 15.0, 20.0, 15.0)));
    list.push_clip(rc(90.0, 90.0, 5.0, 5.0));
    let inner = list.current_clip().expect("a clip");
    assert!(inner.is_empty());
    list.pop_clip();
    list.pop_clip();
    assert_eq!(list.current_clip(), outer);
}

#[test]
fn commands_paint_every_buffer_in_turn() {
    let mut list = fresh();
    let white = col(ONE);
    list.line(pt(0.0, 0.0), pt(9.0, 0.0), s(1.0), white);
    list.quad(rc(0.0, 0.0, 4.0, 4.0), white);
    list.quad(rc(4.0, 0.0, 4.0, 4.0), white);
    list.line(pt(0.0, 0.0), pt(0.0, 9.0), s(1.0), white);
    list.circle(pt(3.0, 3.0), s(2.0), white);
    list.text(TextBlock::new("x", s(0.0), s(0.0), s(12.0)));
    list.quad(rc(8.0, 0.0, 4.0, 4.0), white);
    list.line(pt(9.0, 9.0), pt(0.0, 9.0), s(1.0), white);
    assert_eq!(
        *list.paint_commands(),
        vec![
            cmd(PaintKind::Soup, 0, 6),
            cmd(PaintKind::Chrome, 0, 2),
            cmd(PaintKind::Soup, 6, 12),
            cmd(PaintKind::Circle, 0, 1),
            cmd(PaintKind::Text, 0, 1),
            cmd(PaintKind::Chrome, 2, 3),
        ]
    );
    assert_eq!(list.trailing_soup_range(), (12, 18));
}

#[test]
fn popping_brings_the_transform_and_the_tint_back() {
    let mut list = fresh();
    list.translate(s(3.0), s(4.0));
    let before = (list.current_transform(), list.current_tint());
    list.push_transform();
    list.push_tint();
    list.scale(s(2.0), s(2.0));
    list.set_tint(col([0.5, 0.5, 0.5, 1.0]));
    list.pop_transform();
    list.pop_tint();
    assert_eq!((list.current_transform(), list.current_tint()), before);
    list.pop_transform();
    list.pop_tint();
    assert_eq!((list.current_transform(), list.current_tint()), before);
}

#[test]
fn a_line_of_text_is_centered_by_its_visual_center() {
    let list = fresh();
    assert_eq!(f(list.vcentered_text_y(s(10.0), s(24.0), s(16.0), s(0.5))), 14.0);
}

#[test]
fn soup_indices_name_vertices() {
    let mut list = fresh();
    let white = col(ONE);
    list.rotate(s(FRAC_PI_4.cos()), s(FRAC_PI_4.sin()));
    list.rounded_rect(rc(0.0, 0.0, 40.0, 20.0), s(4.0), white);
    list.rounded_rect_outline(rc(0.0, 0.0, 40.0, 20.0), s(4.0), s(1.0), white);
    list.circle(pt(5.0, 5.0), s(20.0), white);
    let rim: Vec<Point> = (0..5).map(|i| dir(TAU * i as f32 / 5.0)).collect();
    list.radial_gradient(rc(0.0, 0.0, 10.0, 10.0), white, white, s((PI / 5.0).cos()), &rim);
    list.drop_shadow(rc(0.0, 0.0, 30.0, 10.0), s(1.0), s(4.0), s(2.0), white);
    assert!(list.chrome_instances.is_empty());
    assert_eq!(list.indices.len() % 3, 0);
    assert!(list.indices.iter().all(|i| (*i as usize) < list.vertices.len()));
}

#[test]
fn defaults_are_zero_and_records_can_be_cloned() {
    assert_eq!(xy(Vertex::default().position), [0.0, 0.0]);
    assert_eq!(rgba(Vertex::default().color), [0.0; 4]);
    assert_eq!(ltwh(ChromeInstance::default().rect), [0.0; 4]);
    assert_eq!(f(ChromeInstance::default().radius), 0.0);
    assert_eq!(f(CircleInstance::default().radius), 0.0);
    let mut list = fresh();
    list.push_debug_scope_rect("a", rc(0.0, 0.0, 4.0, 4.0));
    list.pop_debug_scope();
    list.icon("play", rc(0.0, 0.0, 4.0, 4.0));
    list.nine_slice(rc(0.0, 0.0, 4.0, 4.0), "frame");
    assert_eq!(list.debug_scopes[0].clone(), list.debug_scopes[0]);
    assert_eq!(list.icons[0].clone().icon_key, "play");
    assert_eq!(list.nine_slices[0].clone().texture_key, "frame");
}

#[test]
fn turned_text_is_noted_until_the_list_is_gone() {
    let mut list = fresh();
    list.text(TextBlock::new("x", s(0.0), s(0.0), s(12.0)));
    assert!(!list.text_rotation_warned);
    list.push_transform();
    list.rotate(s(FRAC_PI_4.cos()), s(FRAC_PI_4.sin()));
    list.text(TextBlock::new("x", s(0.0), s(0.0), s(12.0)));
    list.pop_transform();
    assert!(list.text_rotation_warned);
    list.clear();
    assert!(list.text_rotation_warned);
}

#[test]
fn carets_are_found_in_lines_of_five_quarters() {
    let broken = line_setting(s(16.0), Some(s(80.0)));
    assert_eq!((f(broken.line_height), f(broken.max_width)), (20.0, 80.0));
    assert_eq!(f(line_setting(s(16.0), None).max_width), f32::MAX / 4.0);
}
