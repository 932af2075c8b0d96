use vstd::prelude::*;
use crate::color::{packed, scaled_channel, unit_channel, Color, FRACTION_ONE};
use crate::fragment::Fragment;
use crate::geometry::{div_toward_zero, Fixed3, FIXED_ONE};

verus! {

/// The fragment shaders; `BaseColor` returns the fragment's own color.
#[derive(Clone, Copy, Debug, PartialEq, Eq, Structural)]
pub enum Shader {
    StaticColor,
    Diffuse,
    CelShading,
    Procedural,
    NormalMap,
    BaseColor,
}

/// Per-frame values that every shader invocation reads.
pub struct Uniforms {
    /// World-space light direction; shaders use its direction only.
    pub light_dir: Fixed3,
    /// `sin(0.1 * x + t)` for each pixel column `x` at the frame's time `t`,
    /// in units of `1 / FIXED_ONE`.
    pub wave_x: Vec<i32>,
    /// `cos(0.1 * y + t)` for each pixel row `y` at the frame's time `t`,
    /// in units of `1 / FIXED_ONE`.
    pub wave_y: Vec<i32>,
}

pub open spec fn scaled_spec(c: Color, k: u32) -> Color {
    Color { r: scaled_channel(c.r, k), g: scaled_channel(c.g, k), b: scaled_channel(c.b, k) }
}

pub open spec fn fractions_spec(r: i64, g: i64, b: i64) -> Color {
    Color { r: unit_channel(r), g: unit_channel(g), b: unit_channel(b) }
}

/// `max(0, n̂ · L̂)` on the scale `FIXED_ONE²`, both vectors rescaled to unit
/// length first.
pub open spec fn lambert(n: Fixed3, light: Fixed3) -> int {
    let d = n.normalized().dot_spec(light.normalized());
    if d > 0 { d } else { 0 }
}

/// `0.3 + 0.7 * lambert`, on the scale `FRACTION_ONE`, at most `FRACTION_ONE`.
pub open spec fn diffuse_intensity(n: Fixed3, light: Fixed3) -> u32 {
    let i = 300 + 700 * lambert(n, light) / (FIXED_ONE * FIXED_ONE);
    if i > FRACTION_ONE { FRACTION_ONE } else { i as u32 }
}

/// The four cel bands: above 0.8 gives 1.0, above 0.5 gives 0.6, above 0.2
/// gives 0.4, else 0.2 (on the scale `FRACTION_ONE`).
pub open spec fn cel_intensity(n: Fixed3, light: Fixed3) -> u32 {
    let d = lambert(n, light);
    let one = FIXED_ONE * FIXED_ONE;
    if 5 * d > 4 * one {
        1000
    } else if 2 * d > one {
        600
    } else if 5 * d > one {
        400
    } else {
        200
    }
}

/// A table entry, or 0 past the end of the table.
pub open spec fn wave_at(table: Seq<i32>, i: int) -> int {
    if 0 <= i < table.len() { table[i] as int } else { 0 }
}

/// `|sin(0.1 x + t) * cos(0.1 y + t) * 0.5 + 0.5|` on the scale `FRACTION_ONE`,
/// at most `FRACTION_ONE`.
pub open spec fn pattern_at(u: Uniforms, x: int, y: int) -> int {
    let v = div_toward_zero(
        wave_at(u.wave_x@, x) * wave_at(u.wave_y@, y) * 500,
        FIXED_ONE * FIXED_ONE,
    ) + 500;
    let a = if v < 0 { -v } else { v };
    if a > FRACTION_ONE { FRACTION_ONE as int } else { a }
}

/// `(c + 1) / 2` for a unit-length component `c`, on the scale `FRACTION_ONE`.
pub open spec fn half_shift(c: i32) -> int {
    (c + FIXED_ONE) * 500 / FIXED_ONE as int
}

/// The color that `shader` gives `f` under `u`.
pub open spec fn shade(f: Fragment, u: Uniforms, shader: Shader) -> Color {
    match shader {
        Shader::StaticColor => Color { r: 255, g: 255, b: 0 },
        Shader::Diffuse => scaled_spec(
            Color { r: 255, g: 200, b: 100 },
            diffuse_intensity(f.normal, u.light_dir),
        ),
        Shader::CelShading => scaled_spec(
            Color { r: 100, g: 150, b: 255 },
            cel_intensity(f.normal, u.light_dir),
        ),
        Shader::Procedural => {
            let p = pattern_at(u, f.x as int, f.y as int);
            fractions_spec(p as i64, (1000 - p) as i64, 500)
        },
        Shader::NormalMap => {
            let n = f.normal.normalized();
            fractions_spec(half_shift(n.x) as i64, half_shift(n.y) as i64, half_shift(n.z) as i64)
        },
        Shader::BaseColor => f.color,
    }
}

/// Runs the selected shader on one fragment.
pub fn fragment_shader(fragment: &Fragment, uniforms: &Uniforms, shader: Shader) -> (c: Color)
    ensures
        c == shade(*fragment, *uniforms, shader),
{
    match shader {
        Shader::StaticColor => static_color_shader(fragment),
        Shader::Diffuse => diffuse_shader(fragment, uniforms),
        Shader::CelShading => cel_shading_shader(fragment, uniforms),
        Shader::Procedural => procedural_shader(fragment, uniforms),
        Shader::NormalMap => normal_map_shader(fragment),
        Shader::BaseColor => fragment.color,
    }
}

pub fn static_color_shader(_fragment: &Fragment) -> (c: Color)
    ensures
        c == (Color { r: 255, g: 255, b: 0 }),
{
    Color::new(255, 255, 0)
}

/// `max(0, n̂ · L̂)`; see `lambert`.
fn lambert_term(n: &Fixed3, light: &Fixed3) -> (d: i128)
    ensures
        d == lambert(*n, *light),
        0 <= d <= 3 * FIXED_ONE * FIXED_ONE,
{
    let nn = n.normalize();
    let ll = light.normalize();
    let d = nn.dot(&ll);
    proof {
        assert(nn.dot_spec(ll) <= 3 * FIXED_ONE * FIXED_ONE) by (nonlinear_arith)
            requires
                -65536 <= nn.x <= 65536,
                -65536 <= nn.y <= 65536,
                -65536 <= nn.z <= 65536,
                -65536 <= ll.x <= 65536,
                -65536 <= ll.y <= 65536,
                -65536 <= ll.z <= 65536,
                nn.dot_spec(ll) == nn.x * ll.x + nn.y * ll.y + nn.z * ll.z,
        ;
    }
    if d > 0 {
        d
    } else {
        0
    }
}

pub fn diffuse_shader(fragment: &Fragment, uniforms: &Uniforms) -> (c: Color)
    ensures
        c == scaled_spec(
            Color { r: 255, g: 200, b: 100 },
            diffuse_intensity(fragment.normal, uniforms.light_dir),
        ),
{
    let d = lambert_term(&fragment.normal, &uniforms.light_dir);
    let one: i128 = 0x1_0000_0000;
    assert(FIXED_ONE * FIXED_ONE == 0x1_0000_0000);
    let i: i128 = 300 + 700 * d / one;
    let intensity: u32 = if i > FRACTION_ONE as i128 { FRACTION_ONE } else { i as u32 };
    Color::new(255, 200, 100).scale(intensity)
}

pub fn cel_shading_shader(fragment: &Fragment, uniforms: &Uniforms) -> (c: Color)
    ensures
        c == scaled_spec(
            Color { r: 100, g: 150, b: 255 },
            cel_intensity(fragment.normal, uniforms.light_dir),
        ),
{
    let d = lambert_term(&fragment.normal, &uniforms.light_dir);
    let one: i128 = 0x1_0000_0000;
    assert(FIXED_ONE * FIXED_ONE == 0x1_0000_0000);
    let intensity: u32 = if 5 * d > 4 * one {
        1000
    } else if 2 * d > one {
        600
    } else if 5 * d > one {
        400
    } else {
        200
    };
    Color::new(100, 150, 255).scale(intensity)
}

fn wave_entry(table: &Vec<i32>, i: i32) -> (v: i32)
    ensures
        v == wave_at(table@, i as int),
{
    if i >= 0 && (i as usize) < table.len() {
        table[i as usize]
    } else {
        0
    }
}

pub fn procedural_shader(fragment: &Fragment, uniforms: &Uniforms) -> (c: Color)
    ensures
        c == ({
            let p = pattern_at(*uniforms, fragment.x as int, fragment.y as int);
            fractions_spec(p as i64, (1000 - p) as i64, 500)
        }),
{
    let s = wave_entry(&uniforms.wave_x, fragment.x) as i128;
    let k = wave_entry(&uniforms.wave_y, fragment.y) as i128;
    proof {
        assert(-0x4000_0000_0000_0000 <= s * k <= 0x4000_0000_0000_0000) by (nonlinear_arith)
            requires
                -0x8000_0000 <= s < 0x8000_0000,
                -0x8000_0000 <= k < 0x8000_0000,
        ;
    }
    let prod = s * k * 500;
    let one: i128 = 0x1_0000_0000;
    assert(FIXED_ONE * FIXED_ONE == 0x1_0000_0000);
    let q: i128 = if prod >= 0 { prod / one } else { -((-prod) / one) };
    let v = q + 500;
    let a: i128 = if v < 0 { -v } else { v };
    let p: i128 = if a > FRACTION_ONE as i128 { FRACTION_ONE as i128 } else { a };
    Color::from_fractions(p as i64, (1000 - p) as i64, 500)
}

pub fn normal_map_shader(fragment: &Fragment) -> (c: Color)
    ensures
        c == ({
            let n = fragment.normal.normalized();
            fractions_spec(half_shift(n.x) as i64, half_shift(n.y) as i64, half_shift(n.z) as i64)
        }),
{
    let n = fragment.normal.normalize();
    Color::from_fractions(half_shift_exec(n.x), half_shift_exec(n.y), half_shift_exec(n.z))
}

fn half_shift_exec(c: i32) -> (r: i64)
    requires
        -(FIXED_ONE as int) <= c <= FIXED_ONE,
    ensures
        r == half_shift(c),
{
    (c as i64 + FIXED_ONE as i64) * 500 / FIXED_ONE as i64
}

} // verus!
