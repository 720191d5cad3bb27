use glyph3d::interface::input::{ActiveCommand, InterpolationMode};
use glyph3d::rendering::depth_order::{depth_key, sort_by_depth};
use glyph3d::rendering::object::Object;
use glyph3d::rendering::point::Point;
use glyph3d::rendering::rasterizer::ScreenTriangle;
use glyph3d::rendering::render_buffer::{draw_in_order, NoSuchObject, RenderBuffer};
use glyph3d::rendering::screen_buffer::ScreenBuffer;
use glyph3d::rendering::stroke::Stroke;

type Scene = RenderBuffer<&'static str, char>;

fn keyed(depth: i64, tex: char) -> ScreenTriangle {
    ScreenTriangle {
        points: [Point::new(0, 0), Point::new(8, 0), Point::new(0, 8)],
        stroke: Stroke::new([1, 2, 3], tex),
        depth,
    }
}

fn tags(tris: &[ScreenTriangle]) -> String {
    tris.iter().map(|t| t.stroke.tex).collect()
}

fn instant(payload: char) -> ActiveCommand<char> {
    ActiveCommand { command: payload, interpolation: InterpolationMode::Instant, time_passed: 0 }
}

#[test]
fn triangles_are_drawn_in_ascending_depth() {
    let sorted = Scene::order_tris_by_z(vec![keyed(5, 'a'), keyed(-3, 'b'), keyed(1, 'c')]);
    let depths: Vec<i64> = sorted.iter().map(|t| t.depth).collect();
    assert_eq!(depths, vec![-3, 1, 5]);
    assert_eq!(tags(&sorted), "bca");
}

#[test]
fn triangles_of_equal_depth_keep_their_order() {
    let input = vec![
        keyed(2, 'a'),
        keyed(1, 'b'),
        keyed(2, 'c'),
        keyed(1, 'd'),
        keyed(2, 'e'),
        keyed(0, 'f'),
        keyed(1, 'g'),
    ];
    assert_eq!(tags(&Scene::order_tris_by_z(input.clone())), "fbdgace");
    assert_eq!(tags(&sort_by_depth(&input)), "fbdgace");
}

#[test]
fn ordering_nothing_or_one_triangle() {
    assert_eq!(Scene::order_tris_by_z(vec![]), vec![]);
    assert_eq!(Scene::order_tris_by_z(vec![keyed(7, 'x')]), vec![keyed(7, 'x')]);
}

#[test]
fn ordering_agrees_with_a_stable_sort_on_many_keys() {
    let mut input = Vec::new();
    let mut seed: u64 = 12345;
    for i in 0..500u32 {
        seed = seed.wrapping_mul(6364136223846793005).wrapping_add(1442695040888963407);
        let depth = ((seed >> 33) % 17) as i64 - 8;
        let mut t = keyed(depth, 'k');
        t.points[0] = Point::new(i as i32, 0);
        input.push(t);
    }
    let mut expected = input.clone();
    expected.sort_by_key(|t| t.depth);
    assert_eq!(Scene::order_tris_by_z(input), expected);
}

#[test]
fn a_later_triangle_covers_an_earlier_one() {
    let mut buf = ScreenBuffer::new(4, 4);
    let big = keyed(0, 'b');
    let mut small = keyed(0, 's');
    small.points = [Point::new(0, 0), Point::new(2, 0), Point::new(0, 2)];
    draw_in_order(&mut buf, &vec![big, small]);
    let rows: Vec<String> =
        (0..4).map(|y| (0..4).map(|x| buf.buffer[y * 4 + x].tex).collect()).collect();
    // The slanted edge of `small` runs downwards, so the cells whose
    // centres lie on it are its own.
    assert_eq!(rows, vec!["ssbb", "sbbb", "bbbb", "bbbb"]);
    let mut buf = ScreenBuffer::new(4, 4);
    draw_in_order(&mut buf, &vec![small, big]);
    assert!(buf.buffer.iter().all(|s| s.tex == 'b'));
}

#[test]
fn a_frame_is_drawn_far_to_near() {
    let mut near = keyed(9, 'n');
    near.points = [Point::new(0, 0), Point::new(4, 0), Point::new(0, 4)];
    let far = keyed(-9, 'f');
    let mut buf = ScreenBuffer::new(4, 4);
    Scene::write_meshes_to_buffer(vec![near, far], &mut buf);
    let rows: Vec<String> =
        (0..4).map(|y| (0..4).map(|x| buf.buffer[y * 4 + x].tex).collect()).collect();
    assert_eq!(rows, vec!["nnnn", "nnnf", "nnff", "nfff"]);
}

#[test]
fn a_new_scene_is_empty_and_takes_objects_in_order() {
    let mut scene = Scene::new();
    assert_eq!(scene.objs.len(), 0);
    scene.add_mesh_worldspace(Object::new("cube"));
    scene.add_mesh_worldspace(Object::new("torus"));
    assert_eq!(scene.objs.len(), 2);
    assert_eq!(scene.objs[0].body, "cube");
    assert_eq!(scene.objs[1].body, "torus");
    scene.clear();
    assert_eq!(scene.objs.len(), 0);
}

#[test]
fn a_command_goes_to_the_object_it_names() {
    let mut scene = Scene::new();
    scene.add_mesh_worldspace(Object::new("cube"));
    scene.add_mesh_worldspace(Object::new("torus"));
    assert_eq!(scene.add_command_to_obj(instant('m'), 1), Ok(()));
    assert_eq!(scene.add_command_to_obj(instant('r'), 1), Ok(()));
    assert_eq!(scene.objs[0].active_commands, vec![]);
    assert_eq!(scene.objs[1].active_commands, vec![instant('m'), instant('r')]);
}

#[test]
fn a_command_to_no_object_is_refused() {
    let mut scene = Scene::new();
    assert_eq!(
        scene.add_command_to_obj(instant('m'), 0),
        Err(NoSuchObject { index: 0, count: 0 })
    );
    scene.add_mesh_worldspace(Object::new("cube"));
    assert_eq!(
        scene.add_command_to_obj(instant('m'), 5),
        Err(NoSuchObject { index: 5, count: 1 })
    );
    assert_eq!(scene.objs[0].active_commands, vec![]);
}

#[test]
fn time_passes_for_every_object() {
    let mut scene = Scene::new();
    scene.add_mesh_worldspace(Object::new("cube"));
    scene.add_mesh_worldspace(Object::new("torus"));
    scene.add_command_to_obj(instant('a'), 0).unwrap();
    scene.add_command_to_obj(instant('b'), 1).unwrap();
    scene.pass_obj_time(16_667_000);
    scene.pass_obj_time(16_667_000);
    assert_eq!(scene.objs[0].active_commands[0].time_passed, 33_334_000);
    assert_eq!(scene.objs[1].active_commands[0].time_passed, 33_334_000);
}

#[test]
fn resolving_the_scene_resolves_every_object() {
    let mut scene = Scene::new();
    scene.add_mesh_worldspace(Object::new("cube"));
    scene.add_mesh_worldspace(Object::new("torus"));
    scene.add_command_to_obj(instant('a'), 1).unwrap();
    let endless = ActiveCommand {
        command: 'c',
        interpolation: InterpolationMode::Continuous,
        time_passed: 0,
    };
    scene.add_command_to_obj(endless, 1).unwrap();
    let out = scene.resolve_objects();
    assert_eq!(out.len(), 2);
    assert_eq!(out[0].len(), 0);
    assert_eq!(out[1].len(), 2);
    assert!(out[1][0].over && !out[1][1].over);
    assert_eq!(scene.objs[1].active_commands, vec![endless]);
    assert_eq!(scene.objs[1].body, "torus");
}

#[test]
fn depth_keys_of_some_numbers() {
    assert_eq!(depth_key(0.0f32.to_bits()), 0);
    assert_eq!(depth_key((-0.0f32).to_bits()), 0);
    assert_eq!(depth_key(1.0f32.to_bits()), 0x3f80_0000);
    assert_eq!(depth_key((-1.0f32).to_bits()), -0x3f80_0000);
    assert_eq!(depth_key(f32::INFINITY.to_bits()), 0x7f80_0000);
    assert_eq!(depth_key(f32::NEG_INFINITY.to_bits()), -0x7f80_0000);
    assert_eq!(depth_key(f32::NAN.to_bits()), 0);
    assert_eq!(depth_key(0x7f80_0001), 0);
    assert_eq!(depth_key(0xffff_ffff), 0);
    assert_eq!(depth_key(1), 1);
    assert_eq!(depth_key(0x8000_0001), -1);
}

#[test]
fn depth_keys_are_ordered_as_the_numbers_are() {
    let samples = [
        f32::NEG_INFINITY,
        f32::MIN,
        -1.0e10,
        -3.5,
        -3.0,
        -1.0,
        -f32::MIN_POSITIVE,
        -1.0e-45,
        -0.0,
        0.0,
        1.0e-45,
        f32::MIN_POSITIVE,
        0.333,
        1.0,
        1.0000001,
        5.0,
        1.0e10,
        f32::MAX,
        f32::INFINITY,
    ];
    for a in samples {
        for b in samples {
            let (ka, kb) = (depth_key(a.to_bits()), depth_key(b.to_bits()));
            assert_eq!(ka < kb, a < b, "{} {}", a, b);
            assert_eq!(ka == kb, a == b, "{} {}", a, b);
        }
    }
}
