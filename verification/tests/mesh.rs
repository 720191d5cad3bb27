use glyph3d::math::mesh::{pool, Mesh};
use glyph3d::math::triangle::Triangle;
use glyph3d::rendering::stroke::Stroke;

type V = (f32, f32, f32);

fn red() -> Stroke {
    Stroke::new([255, 0, 0], '#')
}

fn face(z: f32, stroke: Stroke) -> Triangle<V> {
    Triangle::from_vertexes((-1.0, -1.0, z), (1.0, -1.0, z), (0.0, 1.0, z), stroke)
}

fn shift(by: V) -> impl Fn(V) -> V {
    move |v: V| (v.0 + by.0, v.1 + by.1, v.2 + by.2)
}

#[test]
fn a_face_keeps_its_corners_in_the_order_given() {
    let t = Triangle::from_vertexes(1u8, 2u8, 3u8, red());
    assert_eq!(t.verts, [1, 2, 3]);
    assert_eq!(t.stroke, red());
    assert_eq!(Triangle::from_array([7u8, 8, 9], red()).verts, [7, 8, 9]);
}

#[test]
fn with_stroke_changes_the_stroke_alone() {
    let blue = Stroke::new([0, 0, 255], 'b');
    let t = face(0.0, red());
    let u = t.with_stroke(blue);
    assert_eq!(u.verts, t.verts);
    assert_eq!(u.stroke, blue);
    assert_eq!(t.stroke, red());
}

#[test]
fn a_transform_acts_on_each_corner_in_place() {
    let t = Triangle::from_vertexes(1i32, 20, 300, red());
    let out = t.transform(&|v: i32| v * 2 + 1);
    assert_eq!(out.verts, [3, 41, 601]);
    assert_eq!(out.stroke, red());
    assert_eq!(t.verts, [1, 20, 300]);
}

#[test]
fn the_identity_transform_is_a_no_op() {
    let t = face(4.0, red());
    assert_eq!(t.transform(&|v: V| v), t);
    let m = Mesh::new(vec![face(1.0, red()), face(2.0, red())]);
    assert_eq!(m.transform(&|v: V| v), m);
}

#[test]
fn a_shift_there_and_back_gives_the_mesh_again() {
    let m = Mesh::new(vec![face(0.0, red()), face(5.0, Stroke::new([1, 2, 3], 'x'))]);
    let there = m.transform(&shift((10.0, -4.0, 0.5)));
    assert_eq!(there.tris[0].verts, [(9.0, -5.0, 0.5), (11.0, -5.0, 0.5), (10.0, -3.0, 0.5)]);
    assert_eq!(there.tris[1].verts[2], (10.0, -3.0, 5.5));
    let back = there.transform(&shift((-10.0, 4.0, -0.5)));
    assert_eq!(back, m);
}

#[test]
fn a_mesh_transform_keeps_faces_and_strokes_in_order_and_its_receiver_whole() {
    let strokes = [red(), Stroke::new([0, 255, 0], 'g'), Stroke::new([0, 0, 255], 'b')];
    let m = Mesh::new(strokes.iter().enumerate().map(|(i, s)| face(i as f32, *s)).collect());
    let before = m.clone();
    let out = m.transform(&|v: V| (v.0, v.1, v.2 * 10.0));
    assert_eq!(m, before);
    assert_eq!(out.tris.len(), 3);
    for i in 0..3 {
        assert_eq!(out.tris[i].stroke, strokes[i]);
        assert_eq!(out.tris[i].verts[0], (-1.0, -1.0, i as f32 * 10.0));
    }
}

#[test]
fn an_empty_mesh_transforms_to_an_empty_mesh() {
    let m: Mesh<V> = Mesh::new(vec![]);
    assert_eq!(m.transform(&|v: V| v).tris.len(), 0);
}

#[test]
fn pooling_lines_the_faces_up_mesh_after_mesh() {
    let tag = |c: char| Stroke::new([0, 0, 0], c);
    let meshes = vec![
        Mesh::new(vec![face(0.0, tag('a')), face(0.0, tag('b'))]),
        Mesh::new(vec![]),
        Mesh::new(vec![face(0.0, tag('c'))]),
        Mesh::new(vec![face(0.0, tag('d')), face(0.0, tag('e')), face(0.0, tag('f'))]),
    ];
    let tags: String = pool(&meshes).iter().map(|t| t.stroke.tex).collect();
    assert_eq!(tags, "abcdef");
    assert_eq!(pool::<V>(&vec![]).len(), 0);
}
