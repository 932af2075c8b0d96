use softraster::geometry::{Fixed2, Fixed3, FIXED_ONE};
use softraster::model::{MeshBuilder, Model};
use softraster::obj::{face_corners, fan_triangulate, parse_corner, parse_index, Corner};
use softraster::vertex::Vertex;

fn tokens(words: &[&str]) -> Vec<Vec<u8>> {
    words.iter().map(|w| w.as_bytes().to_vec()).collect()
}

#[test]
fn index_parsing() {
    let s = b"12";
    assert_eq!(parse_index(s, 0, 2), Some(12));
    assert_eq!(parse_index(b"+7", 0, 2), Some(7));
    assert_eq!(parse_index(b"", 0, 0), None);
    assert_eq!(parse_index(b"+", 0, 1), None);
    assert_eq!(parse_index(b"1a", 0, 2), None);
    assert_eq!(parse_index(b"99999999999999999999999", 0, 23), None);
    assert_eq!(parse_index(b"x42y", 1, 3), Some(42));
}

#[test]
fn corner_fields() {
    let c = parse_corner(b"3/2/1");
    assert_eq!(c, Corner { position: Some(2), tex_coords: Some(1), normal: Some(0) });
    let d = parse_corner(b"4//6");
    assert_eq!(d, Corner { position: Some(3), tex_coords: Some(0), normal: Some(5) });
    let e = parse_corner(b"5");
    assert_eq!(e, Corner { position: Some(4), tex_coords: Some(0), normal: Some(0) });
    let f = parse_corner(b"zz/0");
    assert_eq!(f, Corner { position: Some(0), tex_coords: None, normal: Some(0) });
}

#[test]
fn fan_of_quad() {
    let corners = face_corners(&tokens(&["1", "2", "3", "4"]));
    let fan = fan_triangulate(&corners);
    let ids: Vec<usize> = fan.iter().map(|c| c.position.unwrap()).collect();
    assert_eq!(ids, vec![0, 1, 2, 0, 2, 3]);
    assert!(fan_triangulate(&corners[..2].to_vec()).is_empty());
}

#[test]
fn fan_triangulation_of_quad_face() {
    let mut b = MeshBuilder::new();
    let ps = [
        Fixed3::new(0, 0, 0),
        Fixed3::new(FIXED_ONE, 0, 0),
        Fixed3::new(FIXED_ONE, FIXED_ONE, 0),
        Fixed3::new(0, FIXED_ONE, 0),
    ];
    for p in ps {
        b.add_position(p);
    }
    b.add_face(&tokens(&["1", "2", "3", "4"]));
    let m = b.into_model();
    let got: Vec<Fixed3> = m.vertices.iter().map(|v| v.position).collect();
    assert_eq!(got, vec![ps[0], ps[1], ps[2], ps[0], ps[2], ps[3]]);
}

#[test]
fn missing_entries_take_defaults() {
    let mut b = MeshBuilder::new();
    b.add_position(Fixed3::new(1, 2, 3));
    b.add_tex_coords(Fixed2 { u: 5, v: 6 });
    b.add_face(&tokens(&["1", "9", "1/1/4"]));
    assert_eq!(b.vertices.len(), 3);
    assert_eq!(b.vertices[0].normal, Fixed3::new(0, FIXED_ONE, 0));
    assert_eq!(b.vertices[0].tex_coords, Fixed2 { u: 5, v: 6 });
    assert_eq!(b.vertices[1].position, Fixed3::new(0, 0, 0));
    assert_eq!(b.vertices[2].position, Fixed3::new(1, 2, 3));
}

fn at(x: i32, y: i32, z: i32) -> Vertex {
    Vertex::new(Fixed3::new(x, y, z), Fixed3::new(0, FIXED_ONE, 0), Fixed2 { u: 0, v: 0 })
}

#[test]
fn bounds_of_model() {
    let m = Model { vertices: vec![at(1, -5, 3), at(-2, 4, 0), at(7, 0, -9)] };
    let (lo, hi) = m.get_bounds();
    assert_eq!(lo, Fixed3::new(-2, -5, -9));
    assert_eq!(hi, Fixed3::new(7, 4, 3));
    let empty = Model { vertices: Vec::new() };
    assert_eq!(empty.get_bounds(), (Fixed3::new(0, 0, 0), Fixed3::new(0, 0, 0)));
}

#[test]
fn normalize_and_center_scales_largest_extent() {
    let mut m = Model { vertices: vec![at(0, 0, 0), at(10, 2, 0), at(4, 4, 0)] };
    m.normalize_and_center(100);
    let got: Vec<Fixed3> = m.vertices.iter().map(|v| v.position).collect();
    assert_eq!(got, vec![Fixed3::new(-50, -20, 0), Fixed3::new(50, 0, 0), Fixed3::new(-10, 20, 0)]);
    let mut flat = Model { vertices: vec![at(3, 3, 3), at(3, 3, 3)] };
    flat.normalize_and_center(100);
    assert_eq!(flat.vertices[0].position, Fixed3::new(3, 3, 3));
}
