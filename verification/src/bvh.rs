use vstd::prelude::*;
use crate::geometry::{box_entry, lemma_box_before_triangle, triangle_distance, triangle_hit, triangle_within, within, Aabb, Ray, Triangle};
use crate::hit::Hit;
use crate::math::Vec3;

verus! {

/// What hangs below a node of the hierarchy: one triangle, or two nodes
/// further down the node list.
#[derive(Clone, Copy, Debug, PartialEq, Eq, Structural)]
pub enum BvhNodeKind {
    Leaf { triangle: u32 },
    Inner { left: u32, right: u32 },
}

/// A node of the bounding-volume hierarchy with the box around everything
/// below it. The root is node 0.
#[derive(Clone, Copy, Debug, PartialEq, Eq, Structural)]
pub struct BvhNode {
    pub bounds: Aabb,
    pub kind: BvhNodeKind,
}

pub open spec fn box_within(inner: Aabb, outer: Aabb) -> bool {
    within(inner.min, outer) && within(inner.max, outer)
}

/// Node `i` is sound: a leaf names a triangle that lies in the leaf's box;
/// an inner node names two nodes after it whose boxes lie in its own.
pub open spec fn node_ok(nodes: Seq<BvhNode>, tris: Seq<Triangle>, i: int) -> bool {
    match nodes[i].kind {
        BvhNodeKind::Leaf { triangle } => triangle < tris.len() && triangle_within(
            tris[triangle as int],
            nodes[i].bounds,
        ),
        BvhNodeKind::Inner { left, right } => {
            &&& i < left < nodes.len()
            &&& i < right < nodes.len()
            &&& box_within(nodes[left as int].bounds, nodes[i].bounds)
            &&& box_within(nodes[right as int].bounds, nodes[i].bounds)
        },
    }
}

pub open spec fn bvh_ok(nodes: Seq<BvhNode>, tris: Seq<Triangle>) -> bool {
    forall|i: int| 0 <= i < nodes.len() ==> #[trigger] node_ok(nodes, tris, i)
}

/// Triangle `t` hangs below node `i`.
pub open spec fn reaches(nodes: Seq<BvhNode>, i: int, t: int) -> bool
    decreases nodes.len() - i,
{
    if 0 <= i < nodes.len() {
        match nodes[i].kind {
            BvhNodeKind::Leaf { triangle } => triangle == t,
            BvhNodeKind::Inner { left, right } => (i < left < nodes.len() && reaches(
                nodes,
                left as int,
                t,
            )) || (i < right < nodes.len() && reaches(nodes, right as int, t)),
        }
    } else {
        false
    }
}

/// The number of nodes below node `i`, itself included, a node counted as
/// often as there are ways down to it.
pub open spec fn weight(nodes: Seq<BvhNode>, i: int) -> nat
    decreases nodes.len() - i,
{
    if 0 <= i < nodes.len() {
        match nodes[i].kind {
            BvhNodeKind::Leaf { triangle } => 1,
            BvhNodeKind::Inner { left, right } => 1 + (if i < left < nodes.len() {
                weight(nodes, left as int)
            } else {
                0
            }) + (if i < right < nodes.len() {
                weight(nodes, right as int)
            } else {
                0
            }),
        }
    } else {
        0
    }
}

/// The number of nodes on the longest way down from node `i`, itself
/// included.
pub open spec fn height(nodes: Seq<BvhNode>, i: int) -> nat
    decreases nodes.len() - i,
{
    if 0 <= i < nodes.len() {
        match nodes[i].kind {
            BvhNodeKind::Leaf { triangle } => 1,
            BvhNodeKind::Inner { left, right } => {
                let l = if i < left < nodes.len() {
                    height(nodes, left as int)
                } else {
                    0
                };
                let r = if i < right < nodes.len() {
                    height(nodes, right as int)
                } else {
                    0
                };
                if l >= r {
                    1 + l
                } else {
                    1 + r
                }
            },
        }
    } else {
        0
    }
}

/// What a walk of the hierarchy found: the nearest hit, the triangle that
/// was hit, and the greatest number of nodes that waited on the stack at
/// one time.
#[derive(Clone, Copy, Debug, PartialEq, Eq, Structural)]
pub struct Traced {
    pub hit: Hit,
    pub triangle: u32,
    pub depth: usize,
}

/// In a sound hierarchy every triangle below a node lies in the node's box.
pub proof fn lemma_reached_within(nodes: Seq<BvhNode>, tris: Seq<Triangle>, i: int, t: int)
    requires
        bvh_ok(nodes, tris),
        reaches(nodes, i, t),
    ensures
        0 <= i < nodes.len(),
        0 <= t < tris.len(),
        triangle_within(tris[t], nodes[i].bounds),
    decreases nodes.len() - i,
{
    assert(node_ok(nodes, tris, i));
    match nodes[i].kind {
        BvhNodeKind::Leaf { triangle } => {},
        BvhNodeKind::Inner { left, right } => {
            if i < left < nodes.len() && reaches(nodes, left as int, t) {
                lemma_reached_within(nodes, tris, left as int, t);
            } else {
                lemma_reached_within(nodes, tris, right as int, t);
            }
        },
    }
}

/// `hit`, on triangle `id`, is the nearest hit of `ray` on the triangles of
/// the hierarchy within `limit`: it is the hit on a triangle of the
/// hierarchy, and no triangle of the hierarchy is hit nearer; or nothing is
/// hit within the limit, and `hit` says so.
pub open spec fn is_nearest(
    ray: Ray,
    tris: Seq<Triangle>,
    nodes: Seq<BvhNode>,
    limit: u32,
    hit: Hit,
    id: u32,
) -> bool {
    if hit.is_none() {
        forall|t: int| #[trigger]
            reaches(nodes, 0, t) ==> match triangle_distance(ray, tris[t]) {
                Some(d) => d > limit,
                None => true,
            }
    } else {
        &&& reaches(nodes, 0, id as int)
        &&& hit == triangle_hit(ray, tris[id as int])
        &&& hit.distance <= limit
        &&& forall|t: int| #[trigger]
            reaches(nodes, 0, t) ==> match triangle_distance(ray, tris[t]) {
                Some(d) => hit.distance <= d,
                None => true,
            }
    }
}

/// No triangle below `node` is hit before `entry`.
spec fn not_before(ray: Ray, tris: Seq<Triangle>, nodes: Seq<BvhNode>, node: int, entry: u32) -> bool {
    forall|t: int| #[trigger]
        reaches(nodes, node, t) ==> match triangle_distance(ray, tris[t]) {
            Some(d) => entry <= d,
            None => true,
        }
}

/// Triangle `t` hangs below a node that waits on the stack.
spec fn pending(nodes: Seq<BvhNode>, stack: Seq<(u32, u32)>, t: int) -> bool {
    exists|k: int| 0 <= k < stack.len() && #[trigger] reaches(nodes, stack[k].0 as int, t)
}

spec fn stack_weight(nodes: Seq<BvhNode>, stack: Seq<(u32, u32)>) -> nat
    decreases stack.len(),
{
    if stack.len() == 0 {
        0
    } else {
        stack_weight(nodes, stack.drop_last()) + weight(nodes, stack.last().0 as int)
    }
}

/// Whatever hangs below `node` hangs below the root.
spec fn below_root(nodes: Seq<BvhNode>, node: int) -> bool {
    forall|t: int| #[trigger] reaches(nodes, node, t) ==> reaches(nodes, 0, t)
}

spec fn entry_ok(ray: Ray, tris: Seq<Triangle>, nodes: Seq<BvhNode>, entry: (u32, u32)) -> bool {
    &&& entry.0 < nodes.len()
    &&& not_before(ray, tris, nodes, entry.0 as int, entry.1)
    &&& below_root(nodes, entry.0 as int)
}

spec fn stack_ok(ray: Ray, tris: Seq<Triangle>, nodes: Seq<BvhNode>, stack: Seq<(u32, u32)>) -> bool {
    forall|k: int| 0 <= k < stack.len() ==> entry_ok(ray, tris, nodes, #[trigger] stack[k])
}

/// Triangle `t` is dealt with: it is not hit within the limit, or no nearer
/// than the best hit so far, or it still waits.
spec fn settled(
    ray: Ray,
    tris: Seq<Triangle>,
    nodes: Seq<BvhNode>,
    limit: u32,
    best: Hit,
    stack: Seq<(u32, u32)>,
    t: int,
) -> bool {
    match triangle_distance(ray, tris[t]) {
        Some(d) => d > limit || (best.is_some() && best.distance <= d) || pending(nodes, stack, t),
        None => true,
    }
}

spec fn accounted(
    ray: Ray,
    tris: Seq<Triangle>,
    nodes: Seq<BvhNode>,
    limit: u32,
    best: Hit,
    stack: Seq<(u32, u32)>,
) -> bool {
    forall|t: int| #[trigger]
        reaches(nodes, 0, t) ==> settled(ray, tris, nodes, limit, best, stack, t)
}

spec fn best_ok(ray: Ray, tris: Seq<Triangle>, nodes: Seq<BvhNode>, limit: u32, best: Hit, id: u32) -> bool {
    best.is_some() ==> {
        &&& reaches(nodes, 0, id as int)
        &&& best == triangle_hit(ray, tris[id as int])
        &&& triangle_distance(ray, tris[id as int]) == Some(best.distance)
        &&& best.distance <= limit
    }
}

/// The node in place `k` of the stack has no more than the height of the
/// root less `k` levels below it.
spec fn stack_shallow(nodes: Seq<BvhNode>, stack: Seq<(u32, u32)>) -> bool {
    forall|k: int|
        0 <= k < stack.len() ==> k + height(nodes, (#[trigger] stack[k]).0 as int) <= height(
            nodes,
            0,
        )
}

proof fn lemma_shallow_push(nodes: Seq<BvhNode>, stack: Seq<(u32, u32)>, top: (u32, u32))
    requires
        stack_shallow(nodes, stack),
        stack.len() + height(nodes, top.0 as int) <= height(nodes, 0),
    ensures
        stack_shallow(nodes, stack.push(top)),
{
    let pushed = stack.push(top);
    assert forall|k: int| 0 <= k < pushed.len() implies k + height(
        nodes,
        (#[trigger] pushed[k]).0 as int,
    ) <= height(nodes, 0) by {
        if k < stack.len() {
            assert(pushed[k] == stack[k]);
        }
    }
}

proof fn lemma_pending_push(nodes: Seq<BvhNode>, stack: Seq<(u32, u32)>, top: (u32, u32), t: int)
    ensures
        pending(nodes, stack.push(top), t) <==> pending(nodes, stack, t) || reaches(
            nodes,
            top.0 as int,
            t,
        ),
{
    let pushed = stack.push(top);
    if pending(nodes, stack, t) {
        let k = choose|k: int| 0 <= k < stack.len() && #[trigger] reaches(nodes, stack[k].0 as int, t);
        assert(pushed[k] == stack[k]);
        assert(reaches(nodes, pushed[k].0 as int, t));
    }
    if reaches(nodes, top.0 as int, t) {
        assert(pushed[stack.len() as int] == top);
        assert(reaches(nodes, pushed[stack.len() as int].0 as int, t));
    }
    if pending(nodes, pushed, t) {
        let k = choose|k: int| 0 <= k < pushed.len() && #[trigger] reaches(nodes, pushed[k].0 as int, t);
        if k < stack.len() {
            assert(pushed[k] == stack[k]);
            assert(reaches(nodes, stack[k].0 as int, t));
        } else {
            assert(pushed[k] == top);
        }
    }
}

proof fn lemma_weight_push(nodes: Seq<BvhNode>, stack: Seq<(u32, u32)>, top: (u32, u32))
    ensures
        stack_weight(nodes, stack.push(top)) == stack_weight(nodes, stack) + weight(
            nodes,
            top.0 as int,
        ),
{
    assert(stack.push(top).drop_last() == stack);
}

proof fn lemma_stack_push(
    ray: Ray,
    tris: Seq<Triangle>,
    nodes: Seq<BvhNode>,
    stack: Seq<(u32, u32)>,
    top: (u32, u32),
)
    requires
        stack_ok(ray, tris, nodes, stack),
        entry_ok(ray, tris, nodes, top),
    ensures
        stack_ok(ray, tris, nodes, stack.push(top)),
{
    let pushed = stack.push(top);
    assert forall|k: int| 0 <= k < pushed.len() implies entry_ok(
        ray,
        tris,
        nodes,
        #[trigger] pushed[k],
    ) by {
        if k < stack.len() {
            assert(pushed[k] == stack[k]);
        }
    }
}

/// What the slab test of a child's box says of the triangles below the
/// child.
proof fn lemma_child(ray: Ray, tris: Seq<Triangle>, nodes: Seq<BvhNode>, parent: int, child: int)
    requires
        bvh_ok(nodes, tris),
        0 <= parent < child < nodes.len(),
        below_root(nodes, parent),
        nodes[parent].kind matches BvhNodeKind::Inner { left, right } && (left == child || right
            == child),
    ensures
        below_root(nodes, child),
        match box_entry(ray, nodes[child].bounds) {
            Some(e) => not_before(ray, tris, nodes, child, e),
            None => forall|t: int| #[trigger]
                reaches(nodes, child, t) ==> triangle_distance(ray, tris[t]) is None,
        },
{
    assert forall|t: int| #[trigger] reaches(nodes, child, t) implies reaches(nodes, 0, t) by {
        assert(reaches(nodes, parent, t));
    }
    lemma_box_bounds(ray, tris, nodes, child);
}

proof fn lemma_box_bounds(ray: Ray, tris: Seq<Triangle>, nodes: Seq<BvhNode>, node: int)
    requires
        bvh_ok(nodes, tris),
        0 <= node < nodes.len(),
    ensures
        match box_entry(ray, nodes[node].bounds) {
            Some(e) => not_before(ray, tris, nodes, node, e),
            None => forall|t: int| #[trigger]
                reaches(nodes, node, t) ==> triangle_distance(ray, tris[t]) is None,
        },
{
    assert forall|t: int| #[trigger] reaches(nodes, node, t) && triangle_distance(
        ray,
        tris[t],
    ) is Some implies box_entry(ray, nodes[node].bounds) is Some && box_entry(
        ray,
        nodes[node].bounds,
    ).unwrap() <= triangle_distance(ray, tris[t]).unwrap() by {
        lemma_reached_within(nodes, tris, node, t);
        lemma_box_before_triangle(ray, tris[t], nodes[node].bounds);
    }
}

/// The nearest hit of `ray` on the triangles of the hierarchy, no farther
/// than `max_distance`, and the triangle that is hit. The hierarchy is
/// walked from the root with a stack of nodes still to visit; a node whose
/// box the ray enters no sooner than the best hit so far is passed over,
/// and of two children the one entered first is visited first. The stack
/// never holds more nodes than the hierarchy is high.
pub fn trace_nearest(
    ray: &Ray,
    triangles: &Vec<Triangle>,
    nodes: &Vec<BvhNode>,
    max_distance: u32,
) -> (r: Traced)
    requires
        bvh_ok(nodes@, triangles@),
    ensures
        is_nearest(*ray, triangles@, nodes@, max_distance, r.hit, r.triangle),
        r.depth <= height(nodes@, 0),
{
    let mut best = Hit::none();
    let mut best_id: u32 = 0;
    let mut deepest: usize = 0;
    let mut stack: Vec<(u32, u32)> = Vec::new();
    let ghost tris = triangles@;
    let ghost ns = nodes@;
    if nodes.len() > 0 {
        proof {
            lemma_box_bounds(*ray, tris, ns, 0);
        }
        match nodes[0].bounds.entry(ray) {
            Some(e) => {
                stack.push((0, e));
                deepest = 1;
                proof {
                    assert(stack_shallow(ns, stack@));
                    assert(entry_ok(*ray, tris, ns, (0u32, e)));
                    assert forall|t: int| #[trigger] reaches(ns, 0, t) implies settled(
                        *ray,
                        tris,
                        ns,
                        max_distance,
                        best,
                        stack@,
                        t,
                    ) by {
                        assert(reaches(ns, stack@[0].0 as int, t));
                    }
                }
            },
            None => {},
        }
    }
    while stack.len() > 0
        invariant
            tris == triangles@,
            ns == nodes@,
            bvh_ok(ns, tris),
            stack_ok(*ray, tris, ns, stack@),
            best_ok(*ray, tris, ns, max_distance, best, best_id),
            accounted(*ray, tris, ns, max_distance, best, stack@),
            stack_shallow(ns, stack@),
            stack@.len() <= deepest <= height(ns, 0),
        decreases stack_weight(ns, stack@),
    {
        let ghost before = stack@;
        let ghost old_best = best;
        let (i, e) = stack.pop().unwrap();
        let ghost rest = stack@;
        proof {
            assert(before == rest.push((i, e)));
            assert(before[before.len() - 1] == (i, e));
            assert(entry_ok(*ray, tris, ns, (i, e)));
            lemma_weight_push(ns, rest, (i, e));
            assert(stack_ok(*ray, tris, ns, rest)) by {
                assert forall|k: int| 0 <= k < rest.len() implies entry_ok(
                    *ray,
                    tris,
                    ns,
                    #[trigger] rest[k],
                ) by {
                    assert(rest[k] == before[k]);
                }
            }
            assert(node_ok(ns, tris, i as int));
            assert(weight(ns, i as int) >= 1);
            assert(stack_shallow(ns, rest)) by {
                assert forall|k: int| 0 <= k < rest.len() implies k + height(
                    ns,
                    (#[trigger] rest[k]).0 as int,
                ) <= height(ns, 0) by {
                    assert(rest[k] == before[k]);
                }
            }
            assert(rest.len() + height(ns, i as int) <= height(ns, 0));
        }
        let bound = if best.is_some() {
            best.distance - 1
        } else {
            max_distance
        };
        if e > bound {
            proof {
                assert forall|t: int| #[trigger] reaches(ns, 0, t) implies settled(
                    *ray,
                    tris,
                    ns,
                    max_distance,
                    best,
                    rest,
                    t,
                ) by {
                    assert(settled(*ray, tris, ns, max_distance, old_best, before, t));
                    lemma_pending_push(ns, rest, (i, e), t);
                }
            }
        } else {
            match nodes[i as usize].kind {
                BvhNodeKind::Leaf { triangle } => {
                    let h = triangles[triangle as usize].hit(ray);
                    if h.is_some() && h.distance <= bound {
                        best = h;
                        best_id = triangle;
                    }
                    proof {
                        assert(reaches(ns, i as int, triangle as int));
                        assert forall|t: int| #[trigger] reaches(ns, 0, t) implies settled(
                            *ray,
                            tris,
                            ns,
                            max_distance,
                            best,
                            rest,
                            t,
                        ) by {
                            assert(settled(*ray, tris, ns, max_distance, old_best, before, t));
                            lemma_pending_push(ns, rest, (i, e), t);
                        }
                    }
                },
                BvhNodeKind::Inner { left, right } => {
                    proof {
                        lemma_child(*ray, tris, ns, i as int, left as int);
                        lemma_child(*ray, tris, ns, i as int, right as int);
                    }
                    let le = nodes[left as usize].bounds.entry(ray);
                    let re = nodes[right as usize].bounds.entry(ray);
                    let (first, second) = match (le, re) {
                        (Some(a), Some(b)) => if a <= b {
                            (Some((right, b)), Some((left, a)))
                        } else {
                            (Some((left, a)), Some((right, b)))
                        },
                        (Some(a), None) => (Some((left, a)), None),
                        (None, Some(b)) => (Some((right, b)), None),
                        (None, None) => (None, None),
                    };
                    match first {
                        Some(entry) => {
                            proof {
                                lemma_stack_push(*ray, tris, ns, stack@, entry);
                                lemma_weight_push(ns, stack@, entry);
                                lemma_shallow_push(ns, stack@, entry);
                            }
                            stack.push(entry);
                        },
                        None => {},
                    }
                    let ghost mid = stack@;
                    match second {
                        Some(entry) => {
                            proof {
                                assert(first is Some);
                                lemma_stack_push(*ray, tris, ns, stack@, entry);
                                lemma_weight_push(ns, stack@, entry);
                                lemma_shallow_push(ns, stack@, entry);
                            }
                            stack.push(entry);
                        },
                        None => {},
                    }
                    if stack.len() > deepest {
                        proof {
                            let top = stack@.len() - 1;
                            assert(entry_ok(*ray, tris, ns, stack@[top]));
                            assert(height(ns, stack@[top].0 as int) >= 1);
                        }
                        deepest = stack.len();
                    }
                    proof {
                        assert forall|t: int| #[trigger] reaches(ns, 0, t) implies settled(
                            *ray,
                            tris,
                            ns,
                            max_distance,
                            best,
                            stack@,
                            t,
                        ) by {
                            assert(settled(*ray, tris, ns, max_distance, old_best, before, t));
                            lemma_pending_push(ns, rest, (i, e), t);
                            if first is Some {
                                lemma_pending_push(ns, rest, first.unwrap(), t);
                                assert(mid == rest.push(first.unwrap()));
                            } else {
                                assert(mid == rest);
                            }
                            if second is Some {
                                lemma_pending_push(ns, mid, second.unwrap(), t);
                                assert(stack@ == mid.push(second.unwrap()));
                            } else {
                                assert(stack@ == mid);
                            }
                            if triangle_distance(*ray, tris[t]) is Some && reaches(
                                ns,
                                i as int,
                                t,
                            ) {
                                if reaches(ns, left as int, t) {
                                    assert(le is Some);
                                    assert(first == Some((left, le.unwrap())) || second == Some(
                                        (left, le.unwrap()),
                                    ));
                                } else {
                                    assert(reaches(ns, right as int, t));
                                    assert(re is Some);
                                    assert(first == Some((right, re.unwrap())) || second == Some(
                                        (right, re.unwrap()),
                                    ));
                                }
                            }
                        }
                    }
                },
            }
        }
    }
    proof {
        assert forall|t: int| #[trigger] reaches(ns, 0, t) implies match triangle_distance(
            *ray,
            tris[t],
        ) {
            Some(d) => if best.is_some() {
                best.distance <= d
            } else {
                d > max_distance
            },
            None => true,
        } by {
            assert(settled(*ray, tris, ns, max_distance, best, stack@, t));
            assert(!pending(ns, stack@, t));
            if best.is_some() && triangle_distance(*ray, tris[t]) is Some {
                let d = triangle_distance(*ray, tris[t]).unwrap();
                if d > max_distance {
                    assert(best.distance <= d);
                }
            }
        }
    }
    Traced { hit: best, triangle: best_id, depth: deepest }
}

fn point_within(p: Vec3, b: &Aabb) -> (inside: bool)
    ensures
        inside == within(p, *b),
{
    b.min.x <= p.x && p.x <= b.max.x && b.min.y <= p.y && p.y <= b.max.y && b.min.z <= p.z && p.z
        <= b.max.z
}

fn is_node_ok(nodes: &Vec<BvhNode>, triangles: &Vec<Triangle>, i: usize) -> (ok: bool)
    requires
        i < nodes@.len(),
    ensures
        ok == node_ok(nodes@, triangles@, i as int),
{
    let node = &nodes[i];
    match node.kind {
        BvhNodeKind::Leaf { triangle } => {
            if (triangle as usize) < triangles.len() {
                let t = &triangles[triangle as usize];
                point_within(t.v0, &node.bounds) && point_within(t.v1, &node.bounds)
                    && point_within(t.v2, &node.bounds)
            } else {
                false
            }
        },
        BvhNodeKind::Inner { left, right } => {
            if i < left as usize && (left as usize) < nodes.len() && i < right as usize && (
            right as usize) < nodes.len() {
                let l = &nodes[left as usize].bounds;
                let r = &nodes[right as usize].bounds;
                point_within(l.min, &node.bounds) && point_within(l.max, &node.bounds)
                    && point_within(r.min, &node.bounds) && point_within(r.max, &node.bounds)
            } else {
                false
            }
        },
    }
}

/// Says whether the hierarchy is sound for these triangles; see [`bvh_ok`].
pub fn is_bvh_ok(nodes: &Vec<BvhNode>, triangles: &Vec<Triangle>) -> (ok: bool)
    ensures
        ok == bvh_ok(nodes@, triangles@),
{
    let mut i: usize = 0;
    while i < nodes.len()
        invariant
            i <= nodes@.len(),
            forall|k: int| 0 <= k < i ==> #[trigger] node_ok(nodes@, triangles@, k),
        decreases nodes@.len() - i,
    {
        if !is_node_ok(nodes, triangles, i) {
            return false;
        }
        i += 1;
    }
    true
}

/// A hierarchy without nodes holds no triangle, so nothing is ever hit in
/// it.
pub proof fn lemma_empty_hierarchy(ray: Ray, tris: Seq<Triangle>, limit: u32, hit: Hit, id: u32)
    requires
        is_nearest(ray, tris, Seq::<BvhNode>::empty(), limit, hit, id),
    ensures
        hit.is_none(),
{
}

/// Some triangle of the hierarchy is hit by `ray` no farther than `limit`.
pub open spec fn occluded(ray: Ray, tris: Seq<Triangle>, nodes: Seq<BvhNode>, limit: u32) -> bool {
    exists|t: int| #[trigger]
        reaches(nodes, 0, t) && triangle_distance(ray, tris[t]) is Some && triangle_distance(
            ray,
            tris[t],
        ).unwrap() <= limit
}

/// Says whether anything of the hierarchy is hit by `ray` no farther than
/// `max_distance`; see [`occluded`].
pub fn trace_any(
    ray: &Ray,
    triangles: &Vec<Triangle>,
    nodes: &Vec<BvhNode>,
    max_distance: u32,
) -> (hit: bool)
    requires
        bvh_ok(nodes@, triangles@),
    ensures
        hit == occluded(*ray, triangles@, nodes@, max_distance),
{
    let traced = trace_nearest(ray, triangles, nodes, max_distance);
    proof {
        if traced.hit.is_some() {
            assert(reaches(nodes@, 0, traced.triangle as int));
            assert(triangle_distance(*ray, triangles@[traced.triangle as int]) is Some);
        }
    }
    traced.hit.is_some()
}

/// Every triangle hangs below the root.
pub open spec fn covers(nodes: Seq<BvhNode>, tris: Seq<Triangle>) -> bool {
    forall|t: int| 0 <= t < tris.len() ==> #[trigger] reaches(nodes, 0, t)
}

/// Node `j` hangs below node `i`, or is node `i`.
pub open spec fn descends(nodes: Seq<BvhNode>, i: int, j: int) -> bool
    decreases nodes.len() - i,
{
    if 0 <= i < nodes.len() {
        i == j || match nodes[i].kind {
            BvhNodeKind::Leaf { triangle } => false,
            BvhNodeKind::Inner { left, right } => (i < left < nodes.len() && descends(
                nodes,
                left as int,
                j,
            )) || (i < right < nodes.len() && descends(nodes, right as int, j)),
        }
    } else {
        false
    }
}

/// Node `j` is one of the two nodes that node `p` names.
pub open spec fn is_child(nodes: Seq<BvhNode>, p: int, j: int) -> bool {
    &&& 0 <= p < j < nodes.len()
    &&& nodes[p].kind matches BvhNodeKind::Inner { left, right }
    &&& (left == j || right == j)
}

proof fn lemma_descends_child(nodes: Seq<BvhNode>, i: int, p: int, j: int)
    requires
        descends(nodes, i, p),
        is_child(nodes, p, j),
    ensures
        descends(nodes, i, j),
    decreases nodes.len() - i,
{
    if i == p {
        assert(descends(nodes, j, j));
    } else {
        match nodes[i].kind {
            BvhNodeKind::Leaf { triangle } => {},
            BvhNodeKind::Inner { left, right } => {
                if i < left < nodes.len() && descends(nodes, left as int, p) {
                    lemma_descends_child(nodes, left as int, p, j);
                } else {
                    lemma_descends_child(nodes, right as int, p, j);
                }
            },
        }
    }
}

proof fn lemma_descends_parent(nodes: Seq<BvhNode>, i: int, j: int) -> (p: int)
    requires
        descends(nodes, i, j),
        i != j,
    ensures
        descends(nodes, i, p),
        is_child(nodes, p, j),
    decreases nodes.len() - i,
{
    match nodes[i].kind {
        BvhNodeKind::Leaf { triangle } => 0,
        BvhNodeKind::Inner { left, right } => {
            let c = if i < left < nodes.len() && descends(nodes, left as int, j) {
                left as int
            } else {
                right as int
            };
            if c == j {
                assert(descends(nodes, i, i));
                i
            } else {
                let p = lemma_descends_parent(nodes, c, j);
                p
            }
        },
    }
}

proof fn lemma_descends_in_range(nodes: Seq<BvhNode>, i: int, j: int)
    requires
        descends(nodes, i, j),
    ensures
        0 <= i <= j < nodes.len(),
    decreases nodes.len() - i,
{
    if i != j {
        match nodes[i].kind {
            BvhNodeKind::Leaf { triangle } => {},
            BvhNodeKind::Inner { left, right } => {
                if i < left < nodes.len() && descends(nodes, left as int, j) {
                    lemma_descends_in_range(nodes, left as int, j);
                } else {
                    lemma_descends_in_range(nodes, right as int, j);
                }
            },
        }
    }
}

/// A triangle hangs below a node exactly if a leaf below the node names it.
proof fn lemma_reaches_by_leaf(nodes: Seq<BvhNode>, i: int, t: int)
    requires
        reaches(nodes, i, t),
    ensures
        exists|j: int| #[trigger]
            descends(nodes, i, j) && nodes[j].kind == (BvhNodeKind::Leaf { triangle: t as u32 }) && 0
                <= t <= u32::MAX,
    decreases nodes.len() - i,
{
    match nodes[i].kind {
        BvhNodeKind::Leaf { triangle } => {
            assert(descends(nodes, i, i));
        },
        BvhNodeKind::Inner { left, right } => {
            let c = if i < left < nodes.len() && reaches(nodes, left as int, t) {
                left as int
            } else {
                right as int
            };
            lemma_reaches_by_leaf(nodes, c, t);
            let j = choose|j: int| #[trigger]
                descends(nodes, c, j) && nodes[j].kind == (BvhNodeKind::Leaf { triangle: t as u32 })
                    && 0 <= t <= u32::MAX;
            assert(descends(nodes, i, j));
        },
    }
}

proof fn lemma_leaf_reaches(nodes: Seq<BvhNode>, i: int, j: int, t: u32)
    requires
        descends(nodes, i, j),
        nodes[j].kind == (BvhNodeKind::Leaf { triangle: t }),
    ensures
        reaches(nodes, i, t as int),
    decreases nodes.len() - i,
{
    if i != j {
        match nodes[i].kind {
            BvhNodeKind::Leaf { triangle } => {},
            BvhNodeKind::Inner { left, right } => {
                if i < left < nodes.len() && descends(nodes, left as int, j) {
                    lemma_leaf_reaches(nodes, left as int, j, t);
                } else {
                    lemma_leaf_reaches(nodes, right as int, j, t);
                }
            },
        }
    } else {
        lemma_descends_in_range(nodes, i, j);
    }
}

/// Says whether every triangle hangs below the root; see [`covers`].
pub fn is_covering(nodes: &Vec<BvhNode>, triangles: &Vec<Triangle>) -> (ok: bool)
    ensures
        ok == covers(nodes@, triangles@),
{
    let n = nodes.len();
    let mut reached: Vec<bool> = vec![false; n];
    let mut seen: Vec<bool> = vec![false; triangles.len()];
    if n > 0 {
        reached[0] = true;
        assert(descends(nodes@, 0, 0));
    }
    let mut i: usize = 0;
    while i < n
        invariant
            n == nodes@.len(),
            i <= n,
            reached@.len() == n,
            seen@.len() == triangles@.len(),
            forall|j: int| 0 <= j < n && #[trigger] reached@[j] ==> descends(nodes@, 0, j),
            n > 0 ==> reached@[0],
            forall|p: int, j: int|
                0 <= p < i && #[trigger] descends(nodes@, 0, p) && #[trigger] is_child(nodes@, p, j)
                    ==> reached@[j],
            forall|t: int|
                0 <= t < seen@.len() && #[trigger] seen@[t] ==> reaches(nodes@, 0, t),
            forall|j: int, t: u32|
                0 <= j < i && #[trigger] descends(nodes@, 0, j) && nodes@[j].kind == (
                BvhNodeKind::Leaf { triangle: t }) && t < seen@.len() ==> #[trigger] seen@[t as int],
        decreases n - i,
    {
        proof {
            if descends(nodes@, 0, i as int) && i > 0 {
                let p = lemma_descends_parent(nodes@, 0, i as int);
                assert(reached@[i as int]);
            }
        }
        if reached[i] {
            match nodes[i].kind {
                BvhNodeKind::Leaf { triangle } => {
                    if (triangle as usize) < seen.len() {
                        proof {
                            lemma_leaf_reaches(nodes@, 0, i as int, triangle);
                        }
                        seen[triangle as usize] = true;
                    }
                },
                BvhNodeKind::Inner { left, right } => {
                    if i < left as usize && (left as usize) < n {
                        proof {
                            lemma_descends_child(nodes@, 0, i as int, left as int);
                        }
                        reached[left as usize] = true;
                    }
                    if i < right as usize && (right as usize) < n {
                        proof {
                            lemma_descends_child(nodes@, 0, i as int, right as int);
                        }
                        reached[right as usize] = true;
                    }
                },
            }
        }
        i += 1;
    }
    let mut t: usize = 0;
    while t < seen.len()
        invariant
            t <= seen@.len(),
            n == nodes@.len(),
            seen@.len() == triangles@.len(),
            forall|k: int| 0 <= k < t ==> #[trigger] seen@[k],
            forall|k: int|
                0 <= k < seen@.len() && #[trigger] seen@[k] ==> reaches(nodes@, 0, k),
            forall|j: int, k: u32|
                0 <= j < n && #[trigger] descends(nodes@, 0, j) && nodes@[j].kind == (
                BvhNodeKind::Leaf { triangle: k }) && k < seen@.len() ==> #[trigger] seen@[k as int],
        decreases seen@.len() - t,
    {
        if !seen[t] {
            proof {
                if reaches(nodes@, 0, t as int) {
                    lemma_reaches_by_leaf(nodes@, 0, t as int);
                    let j = choose|j: int| #[trigger]
                        descends(nodes@, 0, j) && nodes@[j].kind == (
                        BvhNodeKind::Leaf { triangle: t as u32 }) && 0 <= t <= u32::MAX;
                    lemma_descends_in_range(nodes@, 0, j);
                    assert(seen@[(t as u32) as int]);
                }
            }
            return false;
        }
        t += 1;
    }
    proof {
        assert forall|k: int| 0 <= k < triangles@.len() implies #[trigger] reaches(
            nodes@,
            0,
            k,
        ) by {
            assert(seen@[k]);
        }
    }
    true
}

/// In a hierarchy that holds every triangle, the nearest hit in the
/// hierarchy is the nearest hit on any triangle of the scene.
pub proof fn lemma_nearest_of_all(
    ray: Ray,
    tris: Seq<Triangle>,
    nodes: Seq<BvhNode>,
    limit: u32,
    hit: Hit,
    id: u32,
    t: int,
)
    requires
        covers(nodes, tris),
        is_nearest(ray, tris, nodes, limit, hit, id),
        0 <= t < tris.len(),
    ensures
        match triangle_distance(ray, tris[t]) {
            Some(d) => if hit.is_none() {
                d > limit
            } else {
                hit.distance <= d
            },
            None => true,
        },
{
    assert(reaches(nodes, 0, t));
}

} // verus!
