pub mod animation;
pub mod camera;
pub mod fp;
pub mod geometry;
pub mod obj_reader;
pub mod linalg;
pub mod scene_graph;
pub mod shape_generator;

pub use animation::{AnimationDriver, Heading};
pub use camera::{CameraInput, CameraRig};
pub use fp::Real;
pub use geometry::GeometryBuffers;
pub use obj_reader::{Diagnostic, ObjEntry, ObjParse, ObjReader};
pub use linalg::{Mat4, Vec3r};
pub use scene_graph::{DrawCommand, Drawable, SceneGraph, SceneNode};
pub use shape_generator::ShapeGenerator;
