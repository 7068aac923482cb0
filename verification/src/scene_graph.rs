//! The hierarchical scene graph: an arena of exclusively owned nodes
//! addressed by stable handles.
//!
//! A node holds a local transform (position, and rotation about a reference
//! point) and an optional drawable; the graph holds each node's child
//! handles. A child is always created after its parent and attached at most
//! once, so a child handle is strictly greater than its parent's: the graph
//! is a forest by construction and every traversal terminates.
//!
//! Traversal is depth-first and pre-order: it composes each node's local
//! transform onto the accumulated parent transform exactly as the renderer
//! does — `world = acc * translation(position) * (translation(reference) *
//! rot_x * rot_y * rot_z * translation(-reference))` — and emits one draw
//! command per drawable node, carrying the view-projection times the world
//! transform and, as the normal matrix, the raw world transform itself
//! rather than its inverse transpose — a deliberate approximation, sound
//! here because the nodes are never scaled.

use vstd::prelude::*;

use crate::fp::{f32_of_u32, neg_bits, real_bits, real_neg, real_of_u32};
use crate::linalg::{
    bits3, identity_bits, mat_bits, mat_identity, mat_mul, mat_mul_bits, mat_rotation_x,
    mat_rotation_y, mat_rotation_z, mat_translation, rot_bits, translation_bits, Mat4, Vec3r,
};

verus! {

/// An uploaded drawable: the renderer-side object identifier and the number
/// of indices to draw with it.
#[derive(Clone, Copy, Debug, PartialEq, Eq, Structural)]
pub struct Drawable {
    pub vao_id: u32,
    pub index_count: i32,
}

/// One scene node's data: local transform fields and an optional drawable.
#[derive(Clone, Copy)]
pub struct SceneNode {
    pub position: Vec3r,
    pub rotation: Vec3r,
    pub reference_point: Vec3r,
    pub drawable: Option<Drawable>,
}

/// One emitted draw: the visited node's handle, the combined
/// view-projection-world matrix, the world matrix handed to the shader as
/// the normal matrix, and the drawable.
pub struct DrawCommand {
    pub node: usize,
    pub mvp: Mat4,
    pub normal: Mat4,
    pub drawable: Drawable,
}

/// Specification view of a [`DrawCommand`]: handle, matrix entry bits, and
/// drawable.
pub open spec fn cmd_view(c: DrawCommand) -> (int, Seq<u32>, Seq<u32>, Drawable) {
    (c.node as int, mat_bits(c.mvp), mat_bits(c.normal), c.drawable)
}

/// Entry bits of the translation by a node's position.
pub open spec fn local_pos_mat(n: SceneNode) -> Seq<u32> {
    translation_bits(real_bits(n.position.x), real_bits(n.position.y), real_bits(n.position.z))
}

/// Entry bits of a node's pivot-relative rotation: translate to the
/// reference point, rotate about x, then y, then z, translate back.
pub open spec fn local_rot_mat(n: SceneNode) -> Seq<u32> {
    mat_mul_bits(
        mat_mul_bits(
            mat_mul_bits(
                mat_mul_bits(
                    translation_bits(
                        real_bits(n.reference_point.x),
                        real_bits(n.reference_point.y),
                        real_bits(n.reference_point.z),
                    ),
                    rot_bits(real_bits(n.rotation.x), 0),
                ),
                rot_bits(real_bits(n.rotation.y), 1),
            ),
            rot_bits(real_bits(n.rotation.z), 2),
        ),
        translation_bits(
            neg_bits(real_bits(n.reference_point.x)),
            neg_bits(real_bits(n.reference_point.y)),
            neg_bits(real_bits(n.reference_point.z)),
        ),
    )
}

/// Entry bits of a node's world transform under the accumulated parent
/// transform `acc`.
pub open spec fn world_after(acc: Seq<u32>, n: SceneNode) -> Seq<u32> {
    mat_mul_bits(mat_mul_bits(acc, local_pos_mat(n)), local_rot_mat(n))
}

/// The scene graph arena. Handle 0 is the root, created with the graph; the
/// children lists and attachment flags are kept apart from the node data so
/// that the forest invariant is under the graph's sole control.
pub struct SceneGraph {
    nodes: Vec<SceneNode>,
    children: Vec<Vec<usize>>,
    attached: Vec<bool>,
}

impl SceneGraph {
    /// Number of nodes in the arena.
    pub closed spec fn spec_len(&self) -> int {
        self.nodes@.len() as int
    }

    /// The node data behind handle `i`.
    pub closed spec fn spec_node(&self, i: int) -> SceneNode {
        self.nodes@[i]
    }

    /// The child handles of node `i`, in attachment order.
    pub closed spec fn children_of(&self, i: int) -> Seq<usize> {
        self.children@[i]@
    }

    /// Whether node `i` is attached as some node's child.
    pub closed spec fn is_attached(&self, i: int) -> bool {
        self.attached@[i]
    }

    /// The arena invariant: the root exists; every child handle is greater
    /// than its parent's and in bounds; no handle appears twice among the
    /// children lists; and the attached flag records exactly the handles
    /// that appear.
    pub closed spec fn wf(&self) -> bool {
        &&& self.spec_len() >= 1
        &&& self.children@.len() == self.spec_len()
        &&& self.attached@.len() == self.spec_len()
        &&& forall|i: int, k: int|
            0 <= i < self.spec_len() && 0 <= k < self.children_of(i).len() ==> i
                < #[trigger] self.children_of(i)[k] < self.spec_len()
        &&& forall|i1: int, k1: int, i2: int, k2: int|
            0 <= i1 < self.spec_len() && 0 <= k1 < self.children_of(i1).len() && 0 <= i2
                < self.spec_len() && 0 <= k2 < self.children_of(i2).len()
                && #[trigger] self.children_of(i1)[k1] == #[trigger] self.children_of(i2)[k2]
                ==> i1 == i2 && k1 == k2
        &&& forall|i: int|
            0 <= i < self.spec_len() ==> (#[trigger] self.is_attached(i) <==> exists|p: int, k: int|
                0 <= p < self.spec_len() && 0 <= k < self.children_of(p).len()
                    && #[trigger] self.children_of(p)[k] == i)
    }

    /// A graph holding only the root: a pure grouping node at the origin.
    pub fn new() -> (g: SceneGraph)
        ensures
            g.wf(),
            g.spec_len() == 1,
            g.children_of(0).len() == 0,
            g.spec_node(0).drawable is None,
            bits3(g.spec_node(0).position) == seq![f32_of_u32(0), f32_of_u32(0), f32_of_u32(0)],
            bits3(g.spec_node(0).rotation) == seq![f32_of_u32(0), f32_of_u32(0), f32_of_u32(0)],
            bits3(g.spec_node(0).reference_point) == seq![
                f32_of_u32(0),
                f32_of_u32(0),
                f32_of_u32(0),
            ],
    {
        let zero = real_of_u32(0);
        let origin = Vec3r { x: zero, y: zero, z: zero };
        let root = SceneNode {
            position: origin,
            rotation: origin,
            reference_point: origin,
            drawable: None,
        };
        let mut nodes: Vec<SceneNode> = Vec::new();
        nodes.push(root);
        let mut children: Vec<Vec<usize>> = Vec::new();
        children.push(Vec::new());
        let mut attached: Vec<bool> = Vec::new();
        attached.push(false);
        let g = SceneGraph { nodes, children, attached };
        proof {
            assert(bits3(g.spec_node(0).position) =~= seq![
                f32_of_u32(0),
                f32_of_u32(0),
                f32_of_u32(0),
            ]);
        }
        g
    }

    /// Adds a detached grouping node at the origin and returns its handle.
    pub fn new_node(&mut self) -> (h: usize)
        requires
            old(self).wf(),
        ensures
            final(self).wf(),
            h as int == old(self).spec_len(),
            final(self).spec_len() == old(self).spec_len() + 1,
            forall|i: int|
                0 <= i < old(self).spec_len() ==> #[trigger] final(self).spec_node(i) == old(self).spec_node(i),
            forall|i: int|
                0 <= i < old(self).spec_len() ==> #[trigger] final(self).children_of(i) == old(self).children_of(i),
            forall|i: int|
                0 <= i < old(self).spec_len() ==> #[trigger] final(self).is_attached(i) == old(self).is_attached(i),
            final(self).children_of(h as int).len() == 0,
            !final(self).is_attached(h as int),
            final(self).spec_node(h as int).drawable is None,
            bits3(final(self).spec_node(h as int).position) == seq![
                f32_of_u32(0),
                f32_of_u32(0),
                f32_of_u32(0),
            ],
            bits3(final(self).spec_node(h as int).rotation) == seq![
                f32_of_u32(0),
                f32_of_u32(0),
                f32_of_u32(0),
            ],
            bits3(final(self).spec_node(h as int).reference_point) == seq![
                f32_of_u32(0),
                f32_of_u32(0),
                f32_of_u32(0),
            ],
    {
        let zero = real_of_u32(0);
        let origin = Vec3r { x: zero, y: zero, z: zero };
        let node = SceneNode {
            position: origin,
            rotation: origin,
            reference_point: origin,
            drawable: None,
        };
        let h = self.nodes.len();
        self.nodes.push(node);
        self.children.push(Vec::new());
        self.attached.push(false);
        proof {
            assert(bits3(self.spec_node(h as int).position) =~= seq![
                f32_of_u32(0),
                f32_of_u32(0),
                f32_of_u32(0),
            ]);
            assert forall|i: int, k: int|
                0 <= i < self.spec_len() && 0 <= k < self.children_of(i).len() implies i
                < #[trigger] self.children_of(i)[k] < self.spec_len() by {
                let oldg = *old(self);
                if i < oldg.spec_len() {
                    assert(self.children_of(i) == oldg.children_of(i));
                    assert(i < oldg.children_of(i)[k] < oldg.spec_len());
                } else {
                    assert(self.children_of(i).len() == 0);
                }
            }
            assert forall|i1: int, k1: int, i2: int, k2: int|
                0 <= i1 < self.spec_len() && 0 <= k1 < self.children_of(i1).len() && 0 <= i2
                    < self.spec_len() && 0 <= k2 < self.children_of(i2).len()
                    && #[trigger] self.children_of(i1)[k1] == #[trigger] self.children_of(i2)[k2]
                implies i1 == i2 && k1 == k2 by {
                let oldg = *old(self);
                assert(self.children_of(i1).len() > 0 ==> i1 < oldg.spec_len());
                assert(self.children_of(i2).len() > 0 ==> i2 < oldg.spec_len());
                assert(self.children_of(i1) == oldg.children_of(i1));
                assert(self.children_of(i2) == oldg.children_of(i2));
            }
            assert forall|i: int|
                0 <= i < self.spec_len() implies (#[trigger] self.is_attached(i) <==> exists|
                p: int,
                k: int,
            |
                0 <= p < self.spec_len() && 0 <= k < self.children_of(p).len()
                    && #[trigger] self.children_of(p)[k] == i) by {
                let oldg = *old(self);
                assert(forall|p: int|
                    0 <= p < oldg.spec_len() ==> #[trigger] self.children_of(p)
                        == oldg.children_of(p));
                if i < oldg.spec_len() {
                    assert(self.is_attached(i) == oldg.is_attached(i));
                    if oldg.is_attached(i) {
                        let (p, k): (int, int) = choose|p: int, k: int|
                            0 <= p < oldg.spec_len() && 0 <= k < oldg.children_of(p).len()
                                && #[trigger] oldg.children_of(p)[k] == i;
                        assert(self.children_of(p)[k] == i);
                    } else {
                        if exists|p: int, k: int|
                            0 <= p < self.spec_len() && 0 <= k < self.children_of(p).len()
                                && #[trigger] self.children_of(p)[k] == i {
                            let (p, k): (int, int) = choose|p: int, k: int|
                                0 <= p < self.spec_len() && 0 <= k < self.children_of(p).len()
                                    && #[trigger] self.children_of(p)[k] == i;
                            if p < oldg.spec_len() {
                                assert(oldg.children_of(p)[k] == i);
                                assert(oldg.is_attached(i));
                                assert(false);
                            } else {
                                assert(self.children_of(p).len() == 0);
                                assert(false);
                            }
                        }
                    }
                } else {
                    assert(!self.is_attached(i));
                    if exists|p: int, k: int|
                        0 <= p < self.spec_len() && 0 <= k < self.children_of(p).len()
                            && #[trigger] self.children_of(p)[k] == i {
                        let (p, k): (int, int) = choose|p: int, k: int|
                            0 <= p < self.spec_len() && 0 <= k < self.children_of(p).len()
                                && #[trigger] self.children_of(p)[k] == i;
                        if p < oldg.spec_len() {
                            assert(oldg.children_of(p)[k] == i);
                            assert(oldg.children_of(p)[k] < oldg.spec_len());
                            assert(false);
                        } else {
                            assert(self.children_of(p).len() == 0);
                            assert(false);
                        }
                    }
                }
            }
        }
        h
    }

    /// Adds a detached drawable node at the origin and returns its handle.
    pub fn new_drawable_node(&mut self, vao_id: u32, index_count: i32) -> (h: usize)
        requires
            old(self).wf(),
        ensures
            final(self).wf(),
            h as int == old(self).spec_len(),
            final(self).spec_len() == old(self).spec_len() + 1,
            forall|i: int|
                0 <= i < old(self).spec_len() ==> #[trigger] final(self).spec_node(i) == old(self).spec_node(i),
            forall|i: int|
                0 <= i < old(self).spec_len() ==> #[trigger] final(self).children_of(i) == old(self).children_of(i),
            forall|i: int|
                0 <= i < old(self).spec_len() ==> #[trigger] final(self).is_attached(i) == old(self).is_attached(i),
            final(self).children_of(h as int).len() == 0,
            !final(self).is_attached(h as int),
            final(self).spec_node(h as int).drawable == Some(Drawable { vao_id, index_count }),
            bits3(final(self).spec_node(h as int).position) == seq![
                f32_of_u32(0),
                f32_of_u32(0),
                f32_of_u32(0),
            ],
            bits3(final(self).spec_node(h as int).rotation) == seq![
                f32_of_u32(0),
                f32_of_u32(0),
                f32_of_u32(0),
            ],
            bits3(final(self).spec_node(h as int).reference_point) == seq![
                f32_of_u32(0),
                f32_of_u32(0),
                f32_of_u32(0),
            ],
    {
        let h = self.new_node();
        let ghost mid = *self;
        let node = self.nodes[h];
        let updated = SceneNode {
            position: node.position,
            rotation: node.rotation,
            reference_point: node.reference_point,
            drawable: Some(Drawable { vao_id, index_count }),
        };
        self.nodes[h] = updated;
        proof {
            self.lemma_same_shape_wf(mid);
            assert forall|i: int|
                0 <= i < old(self).spec_len() implies #[trigger] self.spec_node(i) == old(
                self,
            ).spec_node(i) by {
                assert(mid.spec_node(i) == old(self).spec_node(i));
                assert(self.spec_node(i) == mid.spec_node(i));
            }
            assert forall|i: int|
                0 <= i < old(self).spec_len() implies #[trigger] self.children_of(i) == old(
                self,
            ).children_of(i) by {
                assert(mid.children_of(i) == old(self).children_of(i));
            }
            assert forall|i: int|
                0 <= i < old(self).spec_len() implies #[trigger] self.is_attached(i) == old(
                self,
            ).is_attached(i) by {
                assert(mid.is_attached(i) == old(self).is_attached(i));
            }
            assert(self.children_of(h as int) == mid.children_of(h as int));
            assert(self.is_attached(h as int) == mid.is_attached(h as int));
            assert(self.spec_node(h as int).position == mid.spec_node(h as int).position);
            assert(self.spec_node(h as int).rotation == mid.spec_node(h as int).rotation);
            assert(self.spec_node(h as int).reference_point == mid.spec_node(
                h as int,
            ).reference_point);
        }
        h
    }

    /// Attaches `child` under `parent` and returns whether it happened: it
    /// does exactly when the handles are in bounds, the child was created
    /// after the parent, and the child is not yet attached anywhere.
    pub fn add_child(&mut self, parent: usize, child: usize) -> (ok: bool)
        requires
            old(self).wf(),
        ensures
            final(self).wf(),
            ok == (parent < child && child < old(self).spec_len() && !old(self).is_attached(
                child as int,
            )),
            ok ==> {
                &&& final(self).spec_len() == old(self).spec_len()
                &&& final(self).children_of(parent as int) == old(self).children_of(
                    parent as int,
                ).push(child)
                &&& final(self).is_attached(child as int)
                &&& forall|i: int|
                    0 <= i < old(self).spec_len() ==> #[trigger] final(self).spec_node(i) == old(self).spec_node(i)
                &&& forall|i: int|
                    0 <= i < old(self).spec_len() && i != parent ==> #[trigger] final(self).children_of(i) == old(self).children_of(i)
                &&& forall|i: int|
                    0 <= i < old(self).spec_len() && i != child ==> #[trigger] final(self).is_attached(i) == old(self).is_attached(i)
            },
            !ok ==> *final(self) == *old(self),
    {
        if !(parent < child && child < self.nodes.len()) {
            return false;
        }
        if self.attached[child] {
            return false;
        }
        let mut parent_children = self.children[parent].clone();
        proof {
            assert(parent_children@ =~= old(self).children_of(parent as int));
        }
        parent_children.push(child);
        self.children[parent] = parent_children;
        self.attached[child] = true;

        proof {
            let oldg = *old(self);
            let newg = *self;
            let pi = parent as int;
            let ci = child as int;
            assert(newg.children_of(pi) =~= oldg.children_of(pi).push(child));
            assert(forall|i: int|
                0 <= i < newg.spec_len() && i != pi ==> #[trigger] newg.children_of(i)
                    == oldg.children_of(i));
            assert forall|i1: int, k1: int, i2: int, k2: int|
                0 <= i1 < newg.spec_len() && 0 <= k1 < newg.children_of(i1).len() && 0 <= i2
                    < newg.spec_len() && 0 <= k2 < newg.children_of(i2).len()
                    && #[trigger] newg.children_of(i1)[k1] == #[trigger] newg.children_of(i2)[k2]
                implies i1 == i2 && k1 == k2 by {
                let new_slot1 = i1 == pi && k1 == oldg.children_of(pi).len();
                let new_slot2 = i2 == pi && k2 == oldg.children_of(pi).len();
                if new_slot1 && new_slot2 {
                } else if new_slot1 {
                    assert(newg.children_of(i2)[k2] == oldg.children_of(i2)[k2]);
                    assert(oldg.is_attached(ci));
                    assert(false);
                } else if new_slot2 {
                    assert(newg.children_of(i1)[k1] == oldg.children_of(i1)[k1]);
                    assert(oldg.is_attached(ci));
                    assert(false);
                } else {
                    assert(newg.children_of(i1)[k1] == oldg.children_of(i1)[k1]);
                    assert(newg.children_of(i2)[k2] == oldg.children_of(i2)[k2]);
                }
            }
            assert forall|i: int|
                0 <= i < newg.spec_len() implies (#[trigger] newg.is_attached(i) <==> exists|
                p: int,
                k: int,
            |
                0 <= p < newg.spec_len() && 0 <= k < newg.children_of(p).len()
                    && #[trigger] newg.children_of(p)[k] == i) by {
                if i == ci {
                    assert(newg.children_of(pi)[oldg.children_of(pi).len() as int] == i);
                } else {
                    if newg.is_attached(i) {
                        assert(oldg.is_attached(i));
                        let (p, k): (int, int) = choose|p: int, k: int|
                            0 <= p < oldg.spec_len() && 0 <= k < oldg.children_of(p).len()
                                && #[trigger] oldg.children_of(p)[k] == i;
                        assert(newg.children_of(p)[k] == i);
                    } else {
                        assert(!oldg.is_attached(i));
                        if exists|p: int, k: int|
                            0 <= p < newg.spec_len() && 0 <= k < newg.children_of(p).len()
                                && #[trigger] newg.children_of(p)[k] == i {
                            let (p, k): (int, int) = choose|p: int, k: int|
                                0 <= p < newg.spec_len() && 0 <= k < newg.children_of(p).len()
                                    && #[trigger] newg.children_of(p)[k] == i;
                            if p == pi && k == oldg.children_of(pi).len() {
                                assert(false);
                            } else {
                                assert(oldg.children_of(p)[k] == i);
                                assert(oldg.is_attached(i));
                                assert(false);
                            }
                        }
                    }
                }
            }
        }
        true
    }

    /// Replaces the local position of node `h`.
    pub fn set_position(&mut self, h: usize, v: Vec3r)
        requires
            old(self).wf(),
            h < old(self).spec_len(),
        ensures
            final(self).wf(),
            final(self).spec_len() == old(self).spec_len(),
            final(self).spec_node(h as int) == (SceneNode {
                position: v,
                ..old(self).spec_node(h as int)
            }),
            forall|i: int|
                0 <= i < old(self).spec_len() && i != h ==> #[trigger] final(self).spec_node(i)
                    == old(self).spec_node(i),
            forall|i: int|
                0 <= i < old(self).spec_len() ==> #[trigger] final(self).children_of(i) == old(self).children_of(i),
            forall|i: int|
                0 <= i < old(self).spec_len() ==> #[trigger] final(self).is_attached(i) == old(self).is_attached(i),
    {
        let node = self.nodes[h];
        self.nodes[h] = SceneNode {
            position: v,
            rotation: node.rotation,
            reference_point: node.reference_point,
            drawable: node.drawable,
        };
        proof {
            self.lemma_same_shape_wf(*old(self));
        }
    }

    /// Replaces the local rotation of node `h`.
    pub fn set_rotation(&mut self, h: usize, v: Vec3r)
        requires
            old(self).wf(),
            h < old(self).spec_len(),
        ensures
            final(self).wf(),
            final(self).spec_len() == old(self).spec_len(),
            final(self).spec_node(h as int) == (SceneNode {
                rotation: v,
                ..old(self).spec_node(h as int)
            }),
            forall|i: int|
                0 <= i < old(self).spec_len() && i != h ==> #[trigger] final(self).spec_node(i)
                    == old(self).spec_node(i),
            forall|i: int|
                0 <= i < old(self).spec_len() ==> #[trigger] final(self).children_of(i) == old(self).children_of(i),
            forall|i: int|
                0 <= i < old(self).spec_len() ==> #[trigger] final(self).is_attached(i) == old(self).is_attached(i),
    {
        let node = self.nodes[h];
        self.nodes[h] = SceneNode {
            position: node.position,
            rotation: v,
            reference_point: node.reference_point,
            drawable: node.drawable,
        };
        proof {
            self.lemma_same_shape_wf(*old(self));
        }
    }

    /// Replaces the rotation pivot of node `h`.
    pub fn set_reference_point(&mut self, h: usize, v: Vec3r)
        requires
            old(self).wf(),
            h < old(self).spec_len(),
        ensures
            final(self).wf(),
            final(self).spec_len() == old(self).spec_len(),
            final(self).spec_node(h as int) == (SceneNode {
                reference_point: v,
                ..old(self).spec_node(h as int)
            }),
            forall|i: int|
                0 <= i < old(self).spec_len() && i != h ==> #[trigger] final(self).spec_node(i)
                    == old(self).spec_node(i),
            forall|i: int|
                0 <= i < old(self).spec_len() ==> #[trigger] final(self).children_of(i) == old(self).children_of(i),
            forall|i: int|
                0 <= i < old(self).spec_len() ==> #[trigger] final(self).is_attached(i) == old(self).is_attached(i),
    {
        let node = self.nodes[h];
        self.nodes[h] = SceneNode {
            position: node.position,
            rotation: node.rotation,
            reference_point: v,
            drawable: node.drawable,
        };
        proof {
            self.lemma_same_shape_wf(*old(self));
        }
    }

    /// The node data behind handle `h`.
    pub fn node(&self, h: usize) -> (r: SceneNode)
        requires
            h < self.spec_len(),
        ensures
            r == self.spec_node(h as int),
    {
        self.nodes[h]
    }

    /// A graph agreeing with a well-formed one on length, children lists and
    /// attachment flags is itself well formed.
    proof fn lemma_same_shape_wf(&self, other: SceneGraph)
        requires
            other.wf(),
            self.spec_len() == other.spec_len(),
            self.children@ == other.children@,
            self.attached@ == other.attached@,
        ensures
            self.wf(),
    {
        assert(forall|i: int|
            0 <= i < self.spec_len() ==> #[trigger] self.children_of(i) == other.children_of(i));
        assert(forall|i: int|
            0 <= i < self.spec_len() ==> #[trigger] self.is_attached(i) == other.is_attached(i));
        assert forall|i: int|
            0 <= i < self.spec_len() implies (#[trigger] self.is_attached(i) <==> exists|
            p: int,
            k: int,
        |
            0 <= p < self.spec_len() && 0 <= k < self.children_of(p).len()
                && #[trigger] self.children_of(p)[k] == i) by {
            if self.is_attached(i) {
                let (p, k): (int, int) = choose|p: int, k: int|
                    0 <= p < other.spec_len() && 0 <= k < other.children_of(p).len()
                        && #[trigger] other.children_of(p)[k] == i;
                assert(self.children_of(p)[k] == i);
            } else {
                if exists|p: int, k: int|
                    0 <= p < self.spec_len() && 0 <= k < self.children_of(p).len()
                        && #[trigger] self.children_of(p)[k] == i {
                    let (p, k): (int, int) = choose|p: int, k: int|
                        0 <= p < self.spec_len() && 0 <= k < self.children_of(p).len()
                            && #[trigger] self.children_of(p)[k] == i;
                    assert(other.children_of(p)[k] == i);
                    assert(other.is_attached(i));
                    assert(false);
                }
            }
        }
    }

    /// Number of nodes held.
    pub fn len(&self) -> (r: usize)
        ensures
            r as int == self.spec_len(),
    {
        self.nodes.len()
    }

    /// Emits the draw commands of the subtree under `root`, depth first and
    /// pre-order, composing each node's local transform onto `accumulated`
    /// and pairing every drawable with the view-projection times its world
    /// transform and with the world transform as the normal matrix.
    pub fn traverse(&self, root: usize, view_projection: &Mat4, accumulated: &Mat4) -> (r: Vec<
        DrawCommand,
    >)
        requires
            self.wf(),
            root < self.spec_len(),
        ensures
            r@.map_values(|c: DrawCommand| cmd_view(c)) == draw_seq(
                *self,
                root as int,
                mat_bits(*view_projection),
                mat_bits(*accumulated),
            ),
        decreases self.spec_len() - root,
    {
        let ghost vpb: Seq<u32> = mat_bits(*view_projection);
        let ghost accb: Seq<u32> = mat_bits(*accumulated);
        let node = self.nodes[root];
        let position_transformation = mat_translation(&node.position);
        let t_ref = mat_translation(&node.reference_point);
        let rx = mat_rotation_x(node.rotation.x);
        let ry = mat_rotation_y(node.rotation.y);
        let rz = mat_rotation_z(node.rotation.z);
        let neg_ref = Vec3r {
            x: real_neg(node.reference_point.x),
            y: real_neg(node.reference_point.y),
            z: real_neg(node.reference_point.z),
        };
        let t_back = mat_translation(&neg_ref);
        let rotation_transformation = mat_mul(
            &mat_mul(&mat_mul(&mat_mul(&t_ref, &rx), &ry), &rz),
            &t_back,
        );
        let next_transformation = mat_mul(
            &mat_mul(accumulated, &position_transformation),
            &rotation_transformation,
        );
        let ghost w: Seq<u32> = world_after(accb, self.spec_node(root as int));
        proof {
            assert(mat_bits(next_transformation) == w);
        }

        let mut out: Vec<DrawCommand> = Vec::new();
        if let Some(d) = node.drawable {
            let mvp = mat_mul(view_projection, &next_transformation);
            out.push(DrawCommand { node: root, mvp, normal: next_transformation, drawable: d });
        }
        proof {
            match self.spec_node(root as int).drawable {
                Some(d) => {
                    assert(out@.map_values(|c: DrawCommand| cmd_view(c)) =~= seq![
                        (root as int, mat_mul_bits(vpb, w), w, d),
                    ]);
                },
                None => {
                    assert(out@.map_values(|c: DrawCommand| cmd_view(c)) =~= Seq::<
                        (int, Seq<u32>, Seq<u32>, Drawable),
                    >::empty());
                },
            }
            assert(out@.map_values(|c: DrawCommand| cmd_view(c)) + draw_kids(
                *self,
                root as int,
                0,
                vpb,
                w,
            ) =~= draw_seq(*self, root as int, vpb, accb));
        }

        let n_children = self.children[root].len();
        let mut k: usize = 0;
        while k < n_children
            invariant
                self.wf(),
                root < self.spec_len(),
                n_children == self.children_of(root as int).len(),
                k <= n_children,
                mat_bits(next_transformation) == w,
                vpb == mat_bits(*view_projection),
                w == world_after(accb, self.spec_node(root as int)),
                out@.map_values(|c: DrawCommand| cmd_view(c)) + draw_kids(
                    *self,
                    root as int,
                    k as int,
                    vpb,
                    w,
                ) == draw_seq(*self, root as int, vpb, accb),
            decreases n_children - k,
        {
            let c = self.children[root][k];
            proof {
                assert(root < self.children_of(root as int)[k as int] < self.spec_len());
            }
            let mut sub = self.traverse(c, view_projection, &next_transformation);
            let ghost out0 = out@.map_values(|cc: DrawCommand| cmd_view(cc));
            let ghost subm = sub@.map_values(|cc: DrawCommand| cmd_view(cc));
            out.append(&mut sub);
            proof {
                assert(out@.map_values(|cc: DrawCommand| cmd_view(cc)) =~= out0 + subm);
                assert(draw_kids(*self, root as int, k as int, vpb, w) == draw_seq(
                    *self,
                    c as int,
                    vpb,
                    w,
                ) + draw_kids(*self, root as int, k + 1, vpb, w));
                assert((out0 + subm) + draw_kids(*self, root as int, k + 1, vpb, w) =~= out0 + (subm
                    + draw_kids(*self, root as int, k + 1, vpb, w)));
            }
            k += 1;
        }
        proof {
            assert(draw_kids(*self, root as int, k as int, vpb, w) =~= Seq::<
                (int, Seq<u32>, Seq<u32>, Drawable),
            >::empty());
            assert(out@.map_values(|c: DrawCommand| cmd_view(c)) + Seq::<
                (int, Seq<u32>, Seq<u32>, Drawable),
            >::empty() =~= out@.map_values(|c: DrawCommand| cmd_view(c)));
        }
        out
    }

    /// Emits the whole scene's draw commands from the root under the given
    /// view-projection matrix, starting from the identity accumulated
    /// transform.
    pub fn render(&self, view_projection: &Mat4) -> (r: Vec<DrawCommand>)
        requires
            self.wf(),
        ensures
            r@.map_values(|c: DrawCommand| cmd_view(c)) == draw_seq(
                *self,
                0,
                mat_bits(*view_projection),
                identity_bits(),
            ),
    {
        let identity = mat_identity();
        self.traverse(0, view_projection, &identity)
    }
}

/// Pre-order listing of the handles in the subtree under `i`: the node
/// itself, then each child's subtree in attachment order.
pub open spec fn preorder(g: SceneGraph, i: int) -> Seq<int>
    decreases g.spec_len() - i, 1int, 0int,
{
    if 0 <= i < g.spec_len() {
        seq![i] + preorder_kids(g, i, 0)
    } else {
        seq![i]
    }
}

/// Concatenated pre-order listings of the subtrees under the children of
/// `i`, from child slot `k` on.
pub open spec fn preorder_kids(g: SceneGraph, i: int, k: int) -> Seq<int>
    decreases g.spec_len() - i, 0int, g.children_of(i).len() - k,
{
    if 0 <= i < g.spec_len() && 0 <= k < g.children_of(i).len() {
        let c = g.children_of(i)[k] as int;
        (if i < c < g.spec_len() {
            preorder(g, c)
        } else {
            Seq::empty()
        }) + preorder_kids(g, i, k + 1)
    } else {
        Seq::empty()
    }
}

/// The draw commands of the subtree under `i`, in pre-order, as
/// specification values: handle, view-projection times world transform
/// entries, world transform entries, drawable.
pub open spec fn draw_seq(g: SceneGraph, i: int, vp: Seq<u32>, acc: Seq<u32>) -> Seq<
    (int, Seq<u32>, Seq<u32>, Drawable),
>
    decreases g.spec_len() - i, 1int, 0int,
{
    if 0 <= i < g.spec_len() {
        let w = world_after(acc, g.spec_node(i));
        (match g.spec_node(i).drawable {
            Some(d) => seq![(i, mat_mul_bits(vp, w), w, d)],
            None => Seq::empty(),
        }) + draw_kids(g, i, 0, vp, w)
    } else {
        Seq::empty()
    }
}

/// Concatenated draw commands of the subtrees under the children of `i`,
/// from child slot `k` on, each under the world transform `w` of node `i`.
pub open spec fn draw_kids(g: SceneGraph, i: int, k: int, vp: Seq<u32>, w: Seq<u32>) -> Seq<
    (int, Seq<u32>, Seq<u32>, Drawable),
>
    decreases g.spec_len() - i, 0int, g.children_of(i).len() - k,
{
    if 0 <= i < g.spec_len() && 0 <= k < g.children_of(i).len() {
        let c = g.children_of(i)[k] as int;
        (if i < c < g.spec_len() {
            draw_seq(g, c, vp, w)
        } else {
            Seq::empty()
        }) + draw_kids(g, i, k + 1, vp, w)
    } else {
        Seq::empty()
    }
}

/// Whether node `x` is reachable from node `r`: equal to it, or reachable
/// from one of its children.
pub open spec fn reach(g: SceneGraph, r: int, x: int) -> bool
    decreases g.spec_len() - r, 1int, 0int,
{
    if 0 <= r < g.spec_len() {
        r == x || reach_kids(g, r, 0, x)
    } else {
        r == x
    }
}

/// Whether node `x` is reachable from one of the children of `r`, looking at
/// child slots `k` and later.
pub open spec fn reach_kids(g: SceneGraph, r: int, k: int, x: int) -> bool
    decreases g.spec_len() - r, 0int, g.children_of(r).len() - k,
{
    if 0 <= r < g.spec_len() && 0 <= k < g.children_of(r).len() {
        let c = g.children_of(r)[k] as int;
        (if r < c < g.spec_len() {
            reach(g, c, x)
        } else {
            false
        }) || reach_kids(g, r, k + 1, x)
    } else {
        false
    }
}

/// An element is in a concatenation exactly when it is in one of the parts.
proof fn lemma_concat_contains<A>(a: Seq<A>, b: Seq<A>, x: A)
    ensures
        (a + b).contains(x) <==> a.contains(x) || b.contains(x),
{
    if (a + b).contains(x) {
        let j = choose|j: int| 0 <= j < (a + b).len() && (a + b)[j] == x;
        if j < a.len() {
            assert(a[j] == x);
        } else {
            assert(b[j - a.len()] == x);
        }
    }
    if a.contains(x) {
        let j = choose|j: int| 0 <= j < a.len() && a[j] == x;
        assert((a + b)[j] == x);
    }
    if b.contains(x) {
        let j = choose|j: int| 0 <= j < b.len() && b[j] == x;
        assert((a + b)[a.len() + j] == x);
    }
}

/// Every handle in a subtree listing is at least the root's and in bounds.
proof fn lemma_preorder_range(g: SceneGraph, i: int)
    requires
        g.wf(),
        0 <= i < g.spec_len(),
    ensures
        forall|x: int| #[trigger] preorder(g, i).contains(x) ==> i <= x < g.spec_len(),
    decreases g.spec_len() - i, 1int, 0int,
{
    lemma_preorder_kids_range(g, i, 0);
    assert forall|x: int| #[trigger] preorder(g, i).contains(x) implies i <= x < g.spec_len() by {
        lemma_concat_contains(seq![i], preorder_kids(g, i, 0), x);
        if seq![i].contains(x) {
            assert(x == i);
        }
    }
}

/// Every handle in a children listing is strictly greater than the parent's
/// and in bounds.
proof fn lemma_preorder_kids_range(g: SceneGraph, i: int, k: int)
    requires
        g.wf(),
        0 <= i < g.spec_len(),
        0 <= k,
    ensures
        forall|x: int| #[trigger] preorder_kids(g, i, k).contains(x) ==> i < x < g.spec_len(),
    decreases g.spec_len() - i, 0int, g.children_of(i).len() - k,
{
    if k < g.children_of(i).len() {
        let c = g.children_of(i)[k] as int;
        assert(i < c < g.spec_len());
        lemma_preorder_range(g, c);
        lemma_preorder_kids_range(g, i, k + 1);
        assert forall|x: int| #[trigger] preorder_kids(g, i, k).contains(x) implies i < x
            < g.spec_len() by {
            lemma_concat_contains(preorder(g, c), preorder_kids(g, i, k + 1), x);
        }
    }
}

/// Each subtree listing contains its own root.
proof fn lemma_preorder_contains_root(g: SceneGraph, i: int)
    requires
        g.wf(),
        0 <= i < g.spec_len(),
    ensures
        preorder(g, i).contains(i),
{
    assert(preorder(g, i)[0] == i);
}

/// Every handle in a subtree listing other than the root has a parent slot,
/// and that parent is in the same listing.
proof fn lemma_preorder_parent(g: SceneGraph, i: int, x: int)
    requires
        g.wf(),
        0 <= i < g.spec_len(),
        preorder(g, i).contains(x),
        x != i,
    ensures
        exists|p: int, k: int|
            0 <= p < g.spec_len() && 0 <= k < g.children_of(p).len() && #[trigger] g.children_of(
                p,
            )[k] == x && preorder(g, i).contains(p),
    decreases g.spec_len() - i, 1int, 0int,
{
    lemma_concat_contains(seq![i], preorder_kids(g, i, 0), x);
    assert(preorder_kids(g, i, 0).contains(x));
    lemma_preorder_kids_parent(g, i, 0, x);
    let (p, k): (int, int) = choose|p: int, k: int|
        0 <= p < g.spec_len() && 0 <= k < g.children_of(p).len() && #[trigger] g.children_of(p)[k]
            == x && (p == i || preorder_kids(g, i, 0).contains(p));
    lemma_preorder_contains_root(g, i);
    lemma_concat_contains(seq![i], preorder_kids(g, i, 0), p);
    assert(preorder(g, i).contains(p));
    assert(g.children_of(p)[k] == x);
}

/// Parent-slot existence over a children listing: the parent is either the
/// listing's own node or inside the listing.
proof fn lemma_preorder_kids_parent(g: SceneGraph, i: int, k: int, x: int)
    requires
        g.wf(),
        0 <= i < g.spec_len(),
        0 <= k,
        preorder_kids(g, i, k).contains(x),
    ensures
        exists|p: int, kk: int|
            0 <= p < g.spec_len() && 0 <= kk < g.children_of(p).len() && #[trigger] g.children_of(
                p,
            )[kk] == x && (p == i || preorder_kids(g, i, k).contains(p)),
    decreases g.spec_len() - i, 0int, g.children_of(i).len() - k,
{
    assert(k < g.children_of(i).len());
    let c = g.children_of(i)[k] as int;
    assert(i < c < g.spec_len());
    lemma_concat_contains(preorder(g, c), preorder_kids(g, i, k + 1), x);
    if preorder(g, c).contains(x) {
        if x == c {
            assert(g.children_of(i)[k] == x);
        } else {
            lemma_preorder_parent(g, c, x);
            let (p, kk): (int, int) = choose|p: int, kk: int|
                0 <= p < g.spec_len() && 0 <= kk < g.children_of(p).len()
                    && #[trigger] g.children_of(p)[kk] == x && preorder(g, c).contains(p);
            lemma_concat_contains(preorder(g, c), preorder_kids(g, i, k + 1), p);
            assert(preorder_kids(g, i, k).contains(p));
            assert(g.children_of(p)[kk] == x);
        }
    } else {
        lemma_preorder_kids_parent(g, i, k + 1, x);
        let (p, kk): (int, int) = choose|p: int, kk: int|
            0 <= p < g.spec_len() && 0 <= kk < g.children_of(p).len() && #[trigger] g.children_of(
                p,
            )[kk] == x && (p == i || preorder_kids(g, i, k + 1).contains(p));
        if p != i {
            lemma_concat_contains(preorder(g, c), preorder_kids(g, i, k + 1), p);
            assert(preorder_kids(g, i, k).contains(p));
        }
        assert(g.children_of(p)[kk] == x);
    }
}

/// No handle lies in the subtrees of two different child slots of the same
/// node.
proof fn lemma_subtree_disjoint(g: SceneGraph, i: int, k1: int, k2: int, x: int)
    requires
        g.wf(),
        0 <= i < g.spec_len(),
        0 <= k1 < g.children_of(i).len(),
        0 <= k2 < g.children_of(i).len(),
        k1 != k2,
        0 <= x,
    ensures
        !(preorder(g, g.children_of(i)[k1] as int).contains(x) && preorder(
            g,
            g.children_of(i)[k2] as int,
        ).contains(x)),
    decreases x,
{
    let c1 = g.children_of(i)[k1] as int;
    let c2 = g.children_of(i)[k2] as int;
    assert(i < c1 < g.spec_len());
    assert(i < c2 < g.spec_len());
    assert(c1 != c2);
    lemma_preorder_range(g, c1);
    lemma_preorder_range(g, c2);
    if !(preorder(g, c1).contains(x) && preorder(g, c2).contains(x)) {
    } else if x == c1 {
        lemma_preorder_parent(g, c2, x);
        let (p, kk): (int, int) = choose|p: int, kk: int|
            0 <= p < g.spec_len() && 0 <= kk < g.children_of(p).len() && #[trigger] g.children_of(
                p,
            )[kk] == x && preorder(g, c2).contains(p);
        assert(g.children_of(i)[k1] == x);
        assert(p == i && kk == k1);
        assert(c2 <= i < g.spec_len());
        assert(false);
    } else if x == c2 {
        lemma_preorder_parent(g, c1, x);
        let (p, kk): (int, int) = choose|p: int, kk: int|
            0 <= p < g.spec_len() && 0 <= kk < g.children_of(p).len() && #[trigger] g.children_of(
                p,
            )[kk] == x && preorder(g, c1).contains(p);
        assert(g.children_of(i)[k2] == x);
        assert(p == i && kk == k2);
        assert(c1 <= i < g.spec_len());
        assert(false);
    } else {
        lemma_preorder_parent(g, c1, x);
        let (p1, kk1): (int, int) = choose|p: int, kk: int|
            0 <= p < g.spec_len() && 0 <= kk < g.children_of(p).len() && #[trigger] g.children_of(
                p,
            )[kk] == x && preorder(g, c1).contains(p);
        lemma_preorder_parent(g, c2, x);
        let (p2, kk2): (int, int) = choose|p: int, kk: int|
            0 <= p < g.spec_len() && 0 <= kk < g.children_of(p).len() && #[trigger] g.children_of(
                p,
            )[kk] == x && preorder(g, c2).contains(p);
        assert(p1 == p2 && kk1 == kk2);
        assert(p1 < g.children_of(p1)[kk1]);
        assert(p1 < x);
        lemma_subtree_disjoint(g, i, k1, k2, p1);
        assert(false);
    }
}

/// Membership in a children listing picks out one child slot's subtree.
proof fn lemma_preorder_kids_member(g: SceneGraph, i: int, k: int, x: int)
    requires
        g.wf(),
        0 <= i < g.spec_len(),
        0 <= k,
        preorder_kids(g, i, k).contains(x),
    ensures
        exists|k2: int|
            k <= k2 < g.children_of(i).len() && preorder(
                g,
                #[trigger] g.children_of(i)[k2] as int,
            ).contains(x),
    decreases g.children_of(i).len() - k,
{
    assert(k < g.children_of(i).len());
    let c = g.children_of(i)[k] as int;
    assert(i < c < g.spec_len());
    lemma_concat_contains(preorder(g, c), preorder_kids(g, i, k + 1), x);
    if preorder(g, c).contains(x) {
        assert(preorder(g, g.children_of(i)[k] as int).contains(x));
    } else {
        lemma_preorder_kids_member(g, i, k + 1, x);
    }
}

/// A subtree listing has no duplicate handles.
proof fn lemma_preorder_nodup(g: SceneGraph, i: int)
    requires
        g.wf(),
        0 <= i < g.spec_len(),
    ensures
        preorder(g, i).no_duplicates(),
    decreases g.spec_len() - i, 1int, 0int,
{
    lemma_preorder_kids_nodup(g, i, 0);
    lemma_preorder_kids_range(g, i, 0);
    let s = preorder(g, i);
    let kids = preorder_kids(g, i, 0);
    assert forall|a: int, b: int|
        0 <= a < s.len() && 0 <= b < s.len() && a != b implies s[a] != s[b] by {
        if a == 0 {
            assert(s[b] == kids[b - 1]);
            assert(kids.contains(kids[b - 1]));
        } else if b == 0 {
            assert(s[a] == kids[a - 1]);
            assert(kids.contains(kids[a - 1]));
        } else {
            assert(s[a] == kids[a - 1]);
            assert(s[b] == kids[b - 1]);
        }
    }
}

/// A children listing has no duplicate handles.
proof fn lemma_preorder_kids_nodup(g: SceneGraph, i: int, k: int)
    requires
        g.wf(),
        0 <= i < g.spec_len(),
        0 <= k,
    ensures
        preorder_kids(g, i, k).no_duplicates(),
    decreases g.spec_len() - i, 0int, g.children_of(i).len() - k,
{
    if k < g.children_of(i).len() {
        let c = g.children_of(i)[k] as int;
        assert(i < c < g.spec_len());
        let sub = preorder(g, c);
        let rest = preorder_kids(g, i, k + 1);
        lemma_preorder_nodup(g, c);
        lemma_preorder_kids_nodup(g, i, k + 1);
        lemma_preorder_range(g, c);
        assert forall|a: int, b: int|
            0 <= a < (sub + rest).len() && 0 <= b < (sub + rest).len() && a != b implies (sub
            + rest)[a] != (sub + rest)[b] by {
            if a < sub.len() && b < sub.len() {
            } else if a >= sub.len() && b >= sub.len() {
                assert((sub + rest)[a] == rest[a - sub.len()]);
                assert((sub + rest)[b] == rest[b - sub.len()]);
            } else {
                let (ja, jb): (int, int) = if a < sub.len() {
                    (a, b)
                } else {
                    (b, a)
                };
                let v = (sub + rest)[ja];
                let w = (sub + rest)[jb];
                if v == w {
                    assert(sub[ja] == v);
                    assert(sub.contains(v));
                    assert(rest[jb - sub.len()] == v);
                    assert(rest.contains(v));
                    lemma_preorder_kids_member(g, i, k + 1, v);
                    let k2 = choose|k2: int|
                        k + 1 <= k2 < g.children_of(i).len() && preorder(
                            g,
                            #[trigger] g.children_of(i)[k2] as int,
                        ).contains(v);
                    assert(0 <= v);
                    lemma_subtree_disjoint(g, i, k, k2, v);
                }
            }
        }
        assert(preorder_kids(g, i, k) == sub + rest);
    }
}

/// Pre-order membership coincides with reachability.
proof fn lemma_preorder_is_reach(g: SceneGraph, i: int)
    requires
        g.wf(),
        0 <= i < g.spec_len(),
    ensures
        forall|x: int| #[trigger] preorder(g, i).contains(x) <==> reach(g, i, x),
    decreases g.spec_len() - i, 1int, 0int,
{
    lemma_preorder_kids_is_reach(g, i, 0);
    assert forall|x: int| #[trigger] preorder(g, i).contains(x) <==> reach(g, i, x) by {
        lemma_concat_contains(seq![i], preorder_kids(g, i, 0), x);
        if x == i {
            assert(seq![i].contains(x)) by {
                assert(seq![i][0] == x);
            }
        }
        if seq![i].contains(x) {
            assert(x == i);
        }
    }
}

/// Children-listing membership coincides with reachability through a child.
proof fn lemma_preorder_kids_is_reach(g: SceneGraph, i: int, k: int)
    requires
        g.wf(),
        0 <= i < g.spec_len(),
        0 <= k,
    ensures
        forall|x: int| #[trigger] preorder_kids(g, i, k).contains(x) <==> reach_kids(g, i, k, x),
    decreases g.spec_len() - i, 0int, g.children_of(i).len() - k,
{
    if k < g.children_of(i).len() {
        let c = g.children_of(i)[k] as int;
        assert(i < c < g.spec_len());
        lemma_preorder_is_reach(g, c);
        lemma_preorder_kids_is_reach(g, i, k + 1);
        assert forall|x: int|
            #[trigger] preorder_kids(g, i, k).contains(x) <==> reach_kids(g, i, k, x) by {
            lemma_concat_contains(preorder(g, c), preorder_kids(g, i, k + 1), x);
        }
    }
}

/// The predicate picking the drawable handles of a graph.
pub open spec fn drawable_at(g: SceneGraph) -> spec_fn(int) -> bool {
    |h: int| g.spec_node(h).drawable is Some
}

/// The projection from a specification draw command to its handle.
pub open spec fn handle_of() -> spec_fn((int, Seq<u32>, Seq<u32>, Drawable)) -> int {
    |t: (int, Seq<u32>, Seq<u32>, Drawable)| t.0
}

/// Filtering a one-element sequence keeps or drops its element.
proof fn lemma_filter_singleton(x: int, pred: spec_fn(int) -> bool)
    ensures
        seq![x].filter(pred) == if pred(x) {
            seq![x]
        } else {
            Seq::<int>::empty()
        },
{
    reveal_with_fuel(Seq::<int>::filter, 2);
    assert(seq![x].drop_last() =~= Seq::<int>::empty());
    if pred(x) {
        assert(Seq::<int>::empty().push(x) =~= seq![x]);
    }
}

/// The emitted draw commands' handles are exactly the pre-order visit
/// sequence restricted to the drawable nodes: what the traversal hands out
/// follows the visit order, one command per drawable visit.
pub proof fn lemma_draw_follows_preorder(g: SceneGraph, i: int, vp: Seq<u32>, acc: Seq<u32>)
    requires
        g.wf(),
        0 <= i < g.spec_len(),
    ensures
        draw_seq(g, i, vp, acc).map_values(handle_of()) == preorder(g, i).filter(drawable_at(g)),
    decreases g.spec_len() - i, 1int, 0int,
{
    let w = world_after(acc, g.spec_node(i));
    let head: Seq<(int, Seq<u32>, Seq<u32>, Drawable)> = match g.spec_node(i).drawable {
        Some(d) => seq![(i, mat_mul_bits(vp, w), w, d)],
        None => Seq::empty(),
    };
    lemma_draw_kids_follows_preorder(g, i, 0, vp, w);
    lemma_filter_singleton(i, drawable_at(g));
    Seq::filter_distributes_over_add(seq![i], preorder_kids(g, i, 0), drawable_at(g));
    assert((head + draw_kids(g, i, 0, vp, w)).map_values(handle_of()) =~= head.map_values(
        handle_of(),
    ) + draw_kids(g, i, 0, vp, w).map_values(handle_of()));
    assert(head.map_values(handle_of()) =~= seq![i].filter(drawable_at(g)));
}

/// The children part of [`lemma_draw_follows_preorder`].
proof fn lemma_draw_kids_follows_preorder(g: SceneGraph, i: int, k: int, vp: Seq<u32>, w: Seq<u32>)
    requires
        g.wf(),
        0 <= i < g.spec_len(),
        0 <= k,
    ensures
        draw_kids(g, i, k, vp, w).map_values(handle_of()) == preorder_kids(g, i, k).filter(
            drawable_at(g),
        ),
    decreases g.spec_len() - i, 0int, g.children_of(i).len() - k,
{
    if k < g.children_of(i).len() {
        let c = g.children_of(i)[k] as int;
        assert(i < c < g.spec_len());
        lemma_draw_follows_preorder(g, c, vp, w);
        lemma_draw_kids_follows_preorder(g, i, k + 1, vp, w);
        Seq::filter_distributes_over_add(preorder(g, c), preorder_kids(g, i, k + 1), drawable_at(g));
        assert((draw_seq(g, c, vp, w) + draw_kids(g, i, k + 1, vp, w)).map_values(handle_of())
            =~= draw_seq(g, c, vp, w).map_values(handle_of()) + draw_kids(
            g,
            i,
            k + 1,
            vp,
            w,
        ).map_values(handle_of()));
    } else {
        assert(draw_kids(g, i, k, vp, w).map_values(handle_of()) =~= Seq::<int>::empty());
        reveal_with_fuel(Seq::<int>::filter, 1);
        assert(preorder_kids(g, i, k).filter(drawable_at(g)) =~= Seq::<int>::empty());
    }
}

/// The traversal law: from any node of a well-formed graph, the pre-order
/// visit sequence lists every handle reachable from that node exactly once
/// — it has no duplicates, and it holds a handle if and only if the handle
/// is reachable — so a traversal visits every node of the subtree exactly
/// once and never steps outside it.
pub proof fn lemma_traversal_visits_once(g: SceneGraph, root: int)
    requires
        g.wf(),
        0 <= root < g.spec_len(),
    ensures
        preorder(g, root).no_duplicates(),
        forall|x: int| #[trigger] preorder(g, root).contains(x) <==> reach(g, root, x),
        forall|x: int| #[trigger] preorder(g, root).contains(x) ==> root <= x < g.spec_len(),
{
    lemma_preorder_nodup(g, root);
    lemma_preorder_is_reach(g, root);
    lemma_preorder_range(g, root);
}

} // verus!
