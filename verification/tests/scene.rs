use gloom::AnimationDriver;
use gloom::CameraInput;
use gloom::CameraRig;
use gloom::Real;
use gloom::SceneGraph;
use gloom::Vec3r;
use nalgebra_glm as glm;

fn r(v: f32) -> Real {
    glm::vec1(v)
}

fn f(v: &Real) -> f32 {
    v.x
}

fn v3(x: f32, y: f32, z: f32) -> Vec3r {
    Vec3r { x: r(x), y: r(y), z: r(z) }
}

fn close(a: f32, b: f32) -> bool {
    (a - b).abs() < 1e-4
}

fn visit_order(g: &SceneGraph) -> Vec<usize> {
    let identity: gloom::Mat4 = glm::identity();
    g.traverse(0, &identity, &identity).iter().map(|c| c.node).collect()
}

#[test]
fn traversal_visits_line_graph_once_in_order() {
    let mut g = SceneGraph::new();
    let mut prev = 0usize;
    for _ in 0..5 {
        let n = g.new_drawable_node(1, 3);
        assert!(g.add_child(prev, n));
        prev = n;
    }
    // the root is not drawable, so the emission is the chain below it
    assert_eq!(visit_order(&g), vec![1, 2, 3, 4, 5]);
}

#[test]
fn traversal_visits_balanced_tree_pre_order() {
    let mut g = SceneGraph::new();
    let mut handles = vec![0usize];
    for _ in 0..6 {
        handles.push(g.new_drawable_node(1, 3));
    }
    // 0 -> (1, 2), 1 -> (3, 4), 2 -> (5, 6)
    assert!(g.add_child(0, handles[1]));
    assert!(g.add_child(0, handles[2]));
    assert!(g.add_child(handles[1], handles[3]));
    assert!(g.add_child(handles[1], handles[4]));
    assert!(g.add_child(handles[2], handles[5]));
    assert!(g.add_child(handles[2], handles[6]));
    assert_eq!(visit_order(&g), vec![1, 3, 4, 2, 5, 6]);
}

#[test]
fn traversal_visits_wide_star_once_each() {
    let mut g = SceneGraph::new();
    for _ in 0..100 {
        let n = g.new_drawable_node(7, 9);
        assert!(g.add_child(0, n));
    }
    let mut order = visit_order(&g);
    assert_eq!(order.len(), 100);
    order.sort();
    order.dedup();
    assert_eq!(order.len(), 100);
}

#[test]
fn detached_node_is_not_visited() {
    let mut g = SceneGraph::new();
    let a = g.new_drawable_node(1, 3);
    let _orphan = g.new_drawable_node(2, 3);
    assert!(g.add_child(0, a));
    assert_eq!(visit_order(&g), vec![a]);
}

#[test]
fn add_child_refuses_double_attachment_and_bad_order() {
    let mut g = SceneGraph::new();
    let a = g.new_node();
    let b = g.new_node();
    assert!(g.add_child(0, a));
    // already attached
    assert!(!g.add_child(0, a));
    // child handle must be greater than the parent's
    assert!(!g.add_child(b, a));
    // out of bounds
    assert!(!g.add_child(0, 17));
    assert!(g.add_child(a, b));
}

#[test]
fn world_transform_of_pure_translation() {
    let mut g = SceneGraph::new();
    let a = g.new_drawable_node(1, 3);
    assert!(g.add_child(0, a));
    g.set_position(a, v3(1.0, 2.0, 3.0));
    let identity: gloom::Mat4 = glm::identity();
    let cmds = g.traverse(0, &identity, &identity);
    assert_eq!(cmds.len(), 1);
    let world = cmds[0].normal;
    let p = world * glm::vec4(0.0f32, 0.0, 0.0, 1.0);
    assert!(close(p.x, 1.0));
    assert!(close(p.y, 2.0));
    assert!(close(p.z, 3.0));
    assert!(close(p.w, 1.0));
    // the whole matrix is a pure translation
    let expected = glm::translation(&glm::vec3(1.0f32, 2.0, 3.0));
    for (a, b) in world.as_slice().iter().zip(expected.as_slice().iter()) {
        assert!(close(*a, *b));
    }
}

#[test]
fn rotation_happens_about_the_reference_point() {
    let mut g = SceneGraph::new();
    let a = g.new_drawable_node(1, 3);
    assert!(g.add_child(0, a));
    g.set_reference_point(a, v3(5.0, 0.0, 0.0));
    g.set_rotation(a, v3(0.0, std::f32::consts::PI, 0.0));
    let identity: gloom::Mat4 = glm::identity();
    let cmds = g.traverse(0, &identity, &identity);
    let world = cmds[0].normal;
    // a 180 degree turn about y at pivot (5,0,0) maps (6,0,0) to (4,0,0)
    let p = world * glm::vec4(6.0f32, 0.0, 0.0, 1.0);
    assert!(close(p.x, 4.0));
    assert!(close(p.y, 0.0));
    assert!(close(p.z, 0.0));
}

#[test]
fn child_transform_composes_with_parent() {
    let mut g = SceneGraph::new();
    let a = g.new_node();
    let b = g.new_drawable_node(1, 3);
    assert!(g.add_child(0, a));
    assert!(g.add_child(a, b));
    g.set_position(a, v3(10.0, 0.0, 0.0));
    g.set_position(b, v3(0.0, 5.0, 0.0));
    let identity: gloom::Mat4 = glm::identity();
    let cmds = g.traverse(0, &identity, &identity);
    let world = cmds[0].normal;
    let p = world * glm::vec4(0.0f32, 0.0, 0.0, 1.0);
    assert!(close(p.x, 10.0));
    assert!(close(p.y, 5.0));
}

#[test]
fn view_projection_multiplies_into_draw_command() {
    let mut g = SceneGraph::new();
    let a = g.new_drawable_node(4, 6);
    assert!(g.add_child(0, a));
    g.set_position(a, v3(0.0, 0.0, -10.0));
    let vp = glm::perspective(1.5f32, 0.8, 1.0, 100.0);
    let cmds = g.render(&vp);
    assert_eq!(cmds.len(), 1);
    assert_eq!(cmds[0].drawable.vao_id, 4);
    assert_eq!(cmds[0].drawable.index_count, 6);
    let expected = vp * glm::translation(&glm::vec3(0.0f32, 0.0, -10.0));
    for (x, y) in cmds[0].mvp.as_slice().iter().zip(expected.as_slice().iter()) {
        assert!(close(*x, *y));
    }
}

#[test]
fn camera_starts_looking_down_negative_z() {
    let cam = CameraRig::new();
    let view = cam.view_direction();
    assert!(close(f(&view.x), 0.0));
    assert!(close(f(&view.y), 0.0));
    assert!(close(f(&view.z), -1.0));
    let strafe = cam.normal_direction();
    assert!(close(f(&strafe.x), 1.0));
    assert!(close(f(&strafe.y), 0.0));
    assert!(close(f(&strafe.z), 0.0));
}

#[test]
fn camera_advance_and_strafe_move_position() {
    let mut cam = CameraRig::new();
    cam.advance(r(0.5), true);
    assert!(close(f(&cam.position.z), -5.0));
    cam.strafe(r(0.2), false);
    assert!(close(f(&cam.position.x), -2.0));
    cam.ascend(r(0.1), true);
    assert!(close(f(&cam.position.y), 1.0));
}

#[test]
fn camera_turn_recomputes_view_direction() {
    let mut cam = CameraRig::new();
    let half_pi = std::f32::consts::FRAC_PI_2;
    cam.turn_yaw(r(half_pi), true);
    assert!(close(f(&cam.yaw), half_pi));
    let view = cam.view_direction();
    assert!(close(f(&view.x), 1.0));
    assert!(close(f(&view.z), 0.0));
    cam.turn_pitch(r(0.3), false);
    assert!(close(f(&cam.pitch), -0.3));
    let view = cam.view_direction();
    assert!(close(f(&view.y), (-0.3f32).sin()));
}

#[test]
fn camera_input_dispatch_matches_direct_operations() {
    let mut a = CameraRig::new();
    let mut b = CameraRig::new();
    a.handle_input(CameraInput::Forward, r(0.3));
    b.advance(r(0.3), true);
    assert_eq!(f(&a.position.z).to_bits(), f(&b.position.z).to_bits());
    a.handle_input(CameraInput::YawLeft, r(0.2));
    b.turn_yaw(r(0.2), false);
    assert_eq!(f(&a.yaw).to_bits(), f(&b.yaw).to_bits());
    a.handle_input(CameraInput::StrafeLeft, r(0.1));
    b.strafe(r(0.1), false);
    assert_eq!(f(&a.position.x).to_bits(), f(&b.position.x).to_bits());
    a.handle_input(CameraInput::Descend, r(0.4));
    b.ascend(r(0.4), false);
    assert_eq!(f(&a.position.y).to_bits(), f(&b.position.y).to_bits());
    a.handle_input(CameraInput::PitchUp, r(0.25));
    b.turn_pitch(r(0.25), true);
    assert_eq!(f(&a.pitch).to_bits(), f(&b.pitch).to_bits());
}

#[test]
fn camera_view_projection_matches_direct_composition() {
    let mut cam = CameraRig::new();
    cam.advance(r(0.25), true);
    cam.turn_yaw(r(0.4), true);
    cam.turn_pitch(r(0.2), true);
    let m = cam.try_view_projection(r(1.333), r(20.0), r(1.0), r(1000.0)).unwrap();
    let expected = glm::perspective(1.333f32, 20.0, 1.0, 1000.0)
        * glm::rotation(-f(&cam.pitch), &glm::vec3(1.0, 0.0, 0.0))
        * glm::rotation(f(&cam.yaw), &glm::vec3(0.0, 1.0, 0.0))
        * glm::translation(&glm::vec3(
            -f(&cam.position.x),
            -f(&cam.position.y),
            -f(&cam.position.z),
        ));
    for (x, y) in m.as_slice().iter().zip(expected.as_slice().iter()) {
        assert_eq!(x.to_bits(), y.to_bits());
    }
}

#[test]
fn view_projection_rejects_degenerate_frustums() {
    let cam = CameraRig::new();
    // zero or near-epsilon aspect ratio
    assert!(cam.try_view_projection(r(0.0), r(20.0), r(1.0), r(1000.0)).is_none());
    assert!(cam.try_view_projection(r(1e-8), r(20.0), r(1.0), r(1000.0)).is_none());
    // superimposed near and far planes
    assert!(cam.try_view_projection(r(1.5), r(20.0), r(10.0), r(10.0)).is_none());
    // a sane frustum passes
    assert!(cam.try_view_projection(r(1.5), r(20.0), r(1.0), r(1000.0)).is_some());
}

#[test]
fn animation_sample_is_deterministic_and_periodic() {
    let t = 1.25f32;
    let a = AnimationDriver::sample(r(t), r(0.0));
    let b = AnimationDriver::sample(r(t), r(0.0));
    assert_eq!(f(&a.x).to_bits(), f(&b.x).to_bits());
    assert_eq!(f(&a.yaw).to_bits(), f(&b.yaw).to_bits());
    let period = 2.0 * std::f32::consts::PI;
    let c = AnimationDriver::sample(r(t + period), r(0.0));
    assert!(close(f(&a.x), f(&c.x)));
    assert!(close(f(&a.z), f(&c.z)));
    assert!(close(f(&a.pitch), f(&c.pitch)));
    assert!(close(f(&a.roll), f(&c.roll)));
}

#[test]
fn animation_is_continuous_in_time() {
    let t = 0.75f32;
    let a = AnimationDriver::sample(r(t), r(0.5));
    let b = AnimationDriver::sample(r(t + 1e-4), r(0.5));
    assert!((f(&a.x) - f(&b.x)).abs() < 1e-2);
    assert!((f(&a.z) - f(&b.z)).abs() < 1e-2);
    assert!((f(&a.yaw) - f(&b.yaw)).abs() < 1e-2);
}

#[test]
fn animation_phase_staggers_by_even_turn_shares() {
    let phase = AnimationDriver::stagger_phase(1, 4);
    assert!(close(f(&phase), std::f32::consts::FRAC_PI_2));
    let a = AnimationDriver::sample(r(0.0), phase);
    let b = AnimationDriver::sample(phase, r(0.0));
    assert_eq!(f(&a.x).to_bits(), f(&b.x).to_bits());
}

#[test]
fn animation_apply_writes_pose_into_node() {
    let mut g = SceneGraph::new();
    let a = g.new_drawable_node(1, 3);
    assert!(g.add_child(0, a));
    g.set_position(a, v3(0.0, 8.0, 0.0));
    let heading = AnimationDriver::sample(r(2.0), r(0.0));
    let hx = f(&heading.x);
    let hz = f(&heading.z);
    let hyaw = f(&heading.yaw);
    AnimationDriver::apply(&mut g, a, &heading);
    let node = g.node(a);
    assert_eq!(f(&node.position.x).to_bits(), hx.to_bits());
    assert!(close(f(&node.position.y), 8.0));
    assert_eq!(f(&node.position.z).to_bits(), hz.to_bits());
    assert_eq!(f(&node.rotation.y).to_bits(), hyaw.to_bits());
}
