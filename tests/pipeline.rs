use softraster::color::Color;
use softraster::fragment::Fragment;
use softraster::framebuffer::{Framebuffer, DEPTH_INFINITY};
use softraster::geometry::{Fixed2, Fixed3, FIXED_ONE};
use softraster::render::render;
use softraster::shaders::{fragment_shader, Shader, Uniforms};
use softraster::transform::viewport_transform;
use softraster::triangle::{barycentric_coordinates, Triangle};
use softraster::vertex::{ScreenPoint, Vertex};

fn screen_vertex(x: i32, y: i32, depth: i32, normal: Fixed3) -> Vertex {
    Vertex::new(Fixed3::new(0, 0, 0), normal, Fixed2 { u: 0, v: 0 })
        .with_transform(ScreenPoint { x, y, depth }, normal)
}

fn facing() -> Fixed3 {
    Fixed3::new(0, 0, FIXED_ONE)
}

fn uniforms(light: Fixed3) -> Uniforms {
    Uniforms { light_dir: light, wave_x: Vec::new(), wave_y: Vec::new() }
}

fn pixel(fb: &Framebuffer, x: usize, y: usize) -> u32 {
    fb.buffer[y * fb.width + x]
}

fn depth(fb: &Framebuffer, x: usize, y: usize) -> i64 {
    fb.zbuffer[y * fb.width + x]
}

#[test]
fn color_packs_channels() {
    assert_eq!(Color::new(0x12, 0x34, 0x56).to_hex(), 0x123456);
    assert_eq!(Color::black().to_hex(), 0);
    assert_eq!(Color::new(255, 255, 255).to_hex(), 0xffffff);
}

#[test]
fn color_scale_clamps() {
    let c = Color::new(100, 200, 255).scale(500);
    assert_eq!((c.r, c.g, c.b), (50, 100, 127));
    let d = Color::new(100, 200, 255).scale(2000);
    assert_eq!((d.r, d.g, d.b), (200, 255, 255));
}

#[test]
fn color_from_fractions_clamps() {
    let c = Color::from_fractions(-5, 500, 4000);
    assert_eq!((c.r, c.g, c.b), (0, 127, 255));
}

#[test]
fn clear_fills_background_and_infinite_depth() {
    let mut fb = Framebuffer::new(4, 3);
    fb.set_background_color(Color::new(20, 20, 40));
    fb.clear();
    assert!(fb.buffer.iter().all(|&c| c == 0x141428));
    assert!(fb.zbuffer.iter().all(|&z| z == DEPTH_INFINITY));
    assert_eq!(fb.buffer.len(), 12);
}

#[test]
fn clear_twice_is_clear_once() {
    let mut fb = Framebuffer::new(5, 5);
    fb.set_current_color(Color::new(1, 2, 3));
    fb.point(2, 2, 7);
    fb.clear();
    let (b1, z1) = (fb.buffer.clone(), fb.zbuffer.clone());
    fb.clear();
    assert_eq!(fb.buffer, b1);
    assert_eq!(fb.zbuffer, z1);
}

#[test]
fn point_is_depth_gated() {
    let mut fb = Framebuffer::new(10, 10);
    fb.clear();
    fb.set_current_color(Color::new(255, 0, 0));
    fb.point(3, 4, 100);
    assert_eq!(pixel(&fb, 3, 4), 0xff0000);
    assert_eq!(depth(&fb, 3, 4), 100);
    fb.set_current_color(Color::new(0, 255, 0));
    fb.point(3, 4, 200);
    assert_eq!(pixel(&fb, 3, 4), 0xff0000);
    assert_eq!(depth(&fb, 3, 4), 100);
    fb.point(3, 4, 100);
    assert_eq!(pixel(&fb, 3, 4), 0xff0000);
    fb.point(3, 4, -50);
    assert_eq!(pixel(&fb, 3, 4), 0x00ff00);
    assert_eq!(depth(&fb, 3, 4), -50);
}

#[test]
fn point_outside_grid_is_ignored() {
    let mut fb = Framebuffer::new(10, 10);
    fb.clear();
    let before = fb.buffer.clone();
    fb.point(10, 0, 0);
    fb.point(0, 10, 0);
    assert_eq!(fb.buffer, before);
}

#[test]
fn viewport_maps_ndc_corners() {
    let centre = viewport_transform(0, 0, 0, 800, 600);
    assert_eq!((centre.x, centre.y, centre.depth), (400, 300, 0));
    let top_left = viewport_transform(-FIXED_ONE, FIXED_ONE, 0, 800, 600);
    assert_eq!((top_left.x, top_left.y), (0, 0));
    let bottom_right = viewport_transform(FIXED_ONE, -FIXED_ONE, 0, 800, 600);
    assert_eq!((bottom_right.x, bottom_right.y), (800, 600));
    let depth = viewport_transform(0, 0, 1234, 800, 600);
    assert_eq!(depth.depth, 1234);
}

#[test]
fn barycentric_weights_sum_to_denominator() {
    let w = barycentric_coordinates(2, 1, 0, 0, 4, 0, 0, 4).unwrap();
    assert_eq!(w.w1 + w.w2 + w.w3, w.denom);
    assert!(w.denom > 0);
    assert!(w.w1 >= 0 && w.w2 >= 0 && w.w3 >= 0);
    let outside = barycentric_coordinates(5, 5, 0, 0, 4, 0, 0, 4).unwrap();
    assert!(outside.w1 < 0 || outside.w2 < 0 || outside.w3 < 0);
    assert!(barycentric_coordinates(1, 1, 0, 0, 1, 1, 2, 2).is_none());
}

#[test]
fn degenerate_triangle_emits_nothing() {
    let mut fb = Framebuffer::new(50, 50);
    let t = Triangle::new_from_vertices(
        screen_vertex(0, 0, 0, facing()),
        screen_vertex(10, 10, 0, facing()),
        screen_vertex(20, 20, 0, facing()),
    );
    assert!(t.draw(&mut fb).is_empty());
}

#[test]
fn fragments_stay_in_clipped_box_with_convex_depth() {
    let mut fb = Framebuffer::new(40, 30);
    let t = Triangle::new_from_vertices(
        screen_vertex(-10, 5, 100, facing()),
        screen_vertex(35, -8, 300, facing()),
        screen_vertex(20, 50, 700, facing()),
    );
    let frags = t.draw(&mut fb);
    assert!(!frags.is_empty());
    for f in &frags {
        assert!(f.x >= 0 && f.x < 40 && f.y >= 0 && f.y < 30);
        assert!(f.x <= 35 && f.y <= 50);
        assert!(f.depth >= 100 && f.depth <= 700);
        assert_eq!(f.intensity, 1000);
    }
}

#[test]
fn flat_triangle_interpolates_constant_depth() {
    let mut fb = Framebuffer::new(20, 20);
    let t = Triangle::new_from_vertices(
        screen_vertex(0, 0, 42, facing()),
        screen_vertex(19, 0, 42, facing()),
        screen_vertex(0, 19, 42, facing()),
    );
    let frags = t.draw(&mut fb);
    assert!(frags.iter().all(|f| f.depth == 42));
    assert!(frags.iter().all(|f| f.normal == Fixed3::new(0, 0, FIXED_ONE)));
    assert!(frags.iter().any(|f| f.x == 0 && f.y == 0));
    assert!(frags.iter().any(|f| f.x == 19 && f.y == 0));
}

#[test]
fn single_triangle_static_shader() {
    let mut fb = Framebuffer::new(100, 100);
    fb.set_background_color(Color::black());
    let vs = vec![
        screen_vertex(10, 10, 0, facing()),
        screen_vertex(90, 10, 0, facing()),
        screen_vertex(50, 90, 0, facing()),
    ];
    render(&mut fb, &uniforms(Fixed3::new(0, 0, -FIXED_ONE)), &vs, Shader::StaticColor);
    assert_eq!(pixel(&fb, 50, 50), 0xffff00);
    assert_eq!(pixel(&fb, 0, 0), 0x000000);
}

fn depth_scene(front_first: bool) -> Framebuffer {
    let mut fb = Framebuffer::new(100, 100);
    let front = [
        screen_vertex(10, 10, 13107, Fixed3::new(FIXED_ONE, 0, 0)),
        screen_vertex(90, 10, 13107, Fixed3::new(FIXED_ONE, 0, 0)),
        screen_vertex(50, 90, 13107, Fixed3::new(FIXED_ONE, 0, 0)),
    ];
    let back = [
        screen_vertex(0, 0, 32768, Fixed3::new(0, FIXED_ONE, 0)),
        screen_vertex(99, 0, 32768, Fixed3::new(0, FIXED_ONE, 0)),
        screen_vertex(50, 99, 32768, Fixed3::new(0, FIXED_ONE, 0)),
    ];
    let mut vs = Vec::new();
    if front_first {
        vs.extend_from_slice(&front);
        vs.extend_from_slice(&back);
    } else {
        vs.extend_from_slice(&back);
        vs.extend_from_slice(&front);
    }
    render(&mut fb, &uniforms(Fixed3::new(0, 0, -FIXED_ONE)), &vs, Shader::NormalMap);
    fb
}

#[test]
fn depth_test_keeps_front_triangle() {
    for order in [true, false] {
        let fb = depth_scene(order);
        let c = pixel(&fb, 50, 50);
        assert_eq!(c >> 16, 255);
        assert!(((c >> 8) & 0xff).abs_diff(128) <= 1);
        assert!((c & 0xff).abs_diff(128) <= 1);
        assert_eq!(depth(&fb, 50, 50), 13107);
    }
}

#[test]
fn normal_map_constant_normal() {
    let mut fb = Framebuffer::new(100, 100);
    let n = Fixed3::new(FIXED_ONE, 0, 0);
    let vs = vec![screen_vertex(10, 10, 0, n), screen_vertex(90, 10, 0, n), screen_vertex(50, 90, 0, n)];
    render(&mut fb, &uniforms(Fixed3::new(0, 0, -FIXED_ONE)), &vs, Shader::NormalMap);
    let mut covered = 0;
    for i in 0..fb.buffer.len() {
        if fb.zbuffer[i] != DEPTH_INFINITY {
            covered += 1;
            let c = fb.buffer[i];
            assert_eq!(c >> 16, 255);
            assert!(((c >> 8) & 0xff).abs_diff(128) <= 1);
            assert!((c & 0xff).abs_diff(128) <= 1);
        }
    }
    assert!(covered > 1000);
}

#[test]
fn normal_map_facing_normal() {
    let f = Fragment::new(0, 0, Color::black(), 0);
    let c = fragment_shader(&f, &uniforms(Fixed3::new(0, 0, -FIXED_ONE)), Shader::NormalMap);
    assert!(c.r.abs_diff(128) <= 1 && c.g.abs_diff(128) <= 1);
    assert_eq!(c.b, 255);
}

#[test]
fn cel_shading_has_at_most_four_bands() {
    let mut fb = Framebuffer::new(100, 100);
    let vs = vec![
        screen_vertex(10, 10, 0, Fixed3::new(0, 0, FIXED_ONE)),
        screen_vertex(90, 10, 0, Fixed3::new(FIXED_ONE, 0, 0)),
        screen_vertex(50, 90, 0, Fixed3::new(0, FIXED_ONE, 0)),
    ];
    render(&mut fb, &uniforms(Fixed3::new(0, 0, -FIXED_ONE)), &vs, Shader::CelShading);
    let mut seen: Vec<u32> = Vec::new();
    for i in 0..fb.buffer.len() {
        if fb.zbuffer[i] != DEPTH_INFINITY && !seen.contains(&fb.buffer[i]) {
            seen.push(fb.buffer[i]);
        }
    }
    assert!(!seen.is_empty() && seen.len() <= 4);
}

#[test]
fn cel_shading_bands() {
    let u = uniforms(Fixed3::new(0, 0, FIXED_ONE));
    let lit = Fragment::new(0, 0, Color::black(), 0);
    let c = fragment_shader(&lit, &u, Shader::CelShading);
    assert_eq!((c.r, c.g, c.b), (100, 150, 255));
    let away = Fragment::new_with_normal(0, 0, Color::black(), 0, Fixed3::new(0, 0, -FIXED_ONE), 1000);
    let d = fragment_shader(&away, &u, Shader::CelShading);
    assert_eq!((d.r, d.g, d.b), (20, 30, 51));
    let tilted = Fragment::new_with_normal(0, 0, Color::black(), 0, Fixed3::new(FIXED_ONE, 0, FIXED_ONE), 1000);
    let e = fragment_shader(&tilted, &u, Shader::CelShading);
    assert_eq!((e.r, e.g, e.b), (60, 90, 153));
}

#[test]
fn diffuse_intensity_range() {
    let u = uniforms(Fixed3::new(0, 0, 3 * FIXED_ONE));
    let lit = Fragment::new(0, 0, Color::black(), 0);
    let c = fragment_shader(&lit, &u, Shader::Diffuse);
    assert_eq!((c.r, c.g, c.b), (255, 200, 100));
    let away = Fragment::new_with_normal(0, 0, Color::black(), 0, Fixed3::new(0, 0, -FIXED_ONE), 1000);
    let d = fragment_shader(&away, &u, Shader::Diffuse);
    assert_eq!((d.r, d.g, d.b), (76, 60, 30));
}

#[test]
fn static_and_base_color_shaders() {
    let u = uniforms(Fixed3::new(0, 0, FIXED_ONE));
    let f = Fragment::new(3, 4, Color::new(9, 8, 7), 0);
    let s = fragment_shader(&f, &u, Shader::StaticColor);
    assert_eq!((s.r, s.g, s.b), (255, 255, 0));
    let b = fragment_shader(&f, &u, Shader::BaseColor);
    assert_eq!((b.r, b.g, b.b), (9, 8, 7));
}

#[test]
fn procedural_pattern() {
    let u = Uniforms {
        light_dir: Fixed3::new(0, 0, FIXED_ONE),
        wave_x: vec![FIXED_ONE, 0],
        wave_y: vec![FIXED_ONE, -FIXED_ONE],
    };
    let c = fragment_shader(&Fragment::new(0, 0, Color::black(), 0), &u, Shader::Procedural);
    assert_eq!((c.r, c.g, c.b), (255, 0, 127));
    let d = fragment_shader(&Fragment::new(0, 1, Color::black(), 0), &u, Shader::Procedural);
    assert_eq!((d.r, d.g, d.b), (0, 255, 127));
    let e = fragment_shader(&Fragment::new(1, 0, Color::black(), 0), &u, Shader::Procedural);
    assert_eq!((e.r, e.g, e.b), (127, 127, 127));
}

#[test]
fn normalize_rescales_to_unit() {
    let n = Fixed3::new(3, 0, 4).normalize();
    assert_eq!(n, Fixed3::new(39321, 0, 52428));
    assert_eq!(Fixed3::new(0, 0, 0).normalize(), Fixed3::new(0, 0, 0));
    assert_eq!(softraster::geometry::isqrt(99), 9);
    assert_eq!(softraster::geometry::isqrt(100), 10);
}
