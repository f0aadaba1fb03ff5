//! The entity graph: flattened scene nodes and the depth-first traversal
//! that composes world transforms.
//!
//! Entities are nodes projected into a flat array; parent-child links are
//! integer indices (arena pattern). A synthetic root entity holds the scene's
//! declared root indices as children. The traversal visits each entity at
//! most once, records the visit order, the parent links and the composed
//! world transform of every visited entity, and rejects graphs in which a
//! node is referenced twice (a shared subtree or a cycle).
use vstd::prelude::*;

use crate::error::LoadError;
use crate::linalg::{mat_mul, mat_product, Mat};
use crate::resources::Node;

verus! {

/// The render-time projection of a decoded node: same shape, addressed by a
/// stable index into the model's flat entity array.
#[derive(Debug)]
pub struct Entity {
    pub name: Option<String>,
    pub mesh_index: Option<usize>,
    pub children: Vec<usize>,
    pub transform: Mat,
}

/// The entity a decoded node projects to: the same fields, resource links
/// still expressed as indices.
pub open spec fn spec_entity_of(node: Node) -> Entity {
    Entity {
        name: node.name,
        mesh_index: node.mesh_index,
        children: node.children,
        transform: node.transform,
    }
}

impl From<Node> for Entity {
    /// Projects a decoded node into the flat entity array.
    fn from(node: Node) -> (r: Entity) {
        Entity {
            name: node.name,
            mesh_index: node.mesh_index,
            children: node.children,
            transform: node.transform,
        }
    }
}

impl vstd::std_specs::convert::FromSpecImpl<Node> for Entity {
    open spec fn obeys_from_spec() -> bool {
        true
    }

    open spec fn from_spec(node: Node) -> Entity {
        spec_entity_of(node)
    }
}

/// The parent marker for entities whose parent is the synthetic root.
pub const ROOT_PARENT: usize = usize::MAX;

/// Every child index of every entity is inside the entity array.
pub open spec fn children_in_bounds(entities: Seq<Entity>) -> bool {
    forall|p: int, k: int|
        0 <= p < entities.len() && 0 <= k < entities[p].children@.len()
            ==> (entities[p].children@[k] as int) < entities.len()
}

/// Every index in `roots` is inside the entity array.
pub open spec fn roots_in_bounds(roots: Seq<usize>, n: int) -> bool {
    forall|k: int| 0 <= k < roots.len() ==> (roots[k] as int) < n
}

/// How often `c` occurs in `s`.
pub open spec fn count_in(s: Seq<usize>, c: usize) -> nat
    decreases s.len(),
{
    if s.len() == 0 {
        0
    } else {
        count_in(s.drop_first(), c) + if s[0] == c {
            1nat
        } else {
            0nat
        }
    }
}

/// How often `c` occurs in the children lists of the first `upto` entities.
pub open spec fn count_in_children(entities: Seq<Entity>, upto: int, c: usize) -> nat
    decreases upto,
{
    if upto <= 0 {
        0
    } else {
        count_in_children(entities, upto - 1, c) + count_in(entities[upto - 1].children@, c)
    }
}

/// How often `c` is referenced over the whole graph: as a scene root or as a
/// child of any entity.
pub open spec fn ref_count(roots: Seq<usize>, entities: Seq<Entity>, c: usize) -> nat {
    count_in(roots, c) + count_in_children(entities, entities.len() as int, c)
}

/// The node graph is a forest: no entity is referenced twice, so the
/// reachable part has no shared subtree and no cycle.
pub open spec fn is_forest(roots: Seq<usize>, entities: Seq<Entity>) -> bool {
    forall|c: usize| (c as int) < entities.len() ==> ref_count(roots, entities, c) <= 1
}

proof fn lemma_count_at_least_one(s: Seq<usize>, c: usize, k: int)
    requires
        0 <= k < s.len(),
        s[k] == c,
    ensures
        count_in(s, c) >= 1,
    decreases s.len(),
{
    if k == 0 {
    } else {
        lemma_count_at_least_one(s.drop_first(), c, k - 1);
    }
}

proof fn lemma_count_at_least_two(s: Seq<usize>, c: usize, k1: int, k2: int)
    requires
        0 <= k1 < k2 < s.len(),
        s[k1] == c,
        s[k2] == c,
    ensures
        count_in(s, c) >= 2,
    decreases s.len(),
{
    if k1 == 0 {
        lemma_count_at_least_one(s.drop_first(), c, k2 - 1);
    } else {
        lemma_count_at_least_two(s.drop_first(), c, k1 - 1, k2 - 1);
    }
}

proof fn lemma_children_count_monotone(entities: Seq<Entity>, u1: int, u2: int, c: usize)
    requires
        u1 <= u2,
    ensures
        count_in_children(entities, u1, c) <= count_in_children(entities, u2, c),
    decreases u2 - u1,
{
    if u1 < u2 {
        lemma_children_count_monotone(entities, u1, u2 - 1, c);
    }
}

proof fn lemma_children_count_lower(entities: Seq<Entity>, p: int, c: usize)
    requires
        0 <= p < entities.len(),
    ensures
        count_in_children(entities, entities.len() as int, c) >= count_in(
            entities[p].children@,
            c,
        ),
{
    lemma_children_count_monotone(entities, p + 1, entities.len() as int, c);
}

proof fn lemma_children_count_two(entities: Seq<Entity>, p1: int, p2: int, c: usize)
    requires
        0 <= p1 < p2 < entities.len(),
        count_in(entities[p1].children@, c) >= 1,
        count_in(entities[p2].children@, c) >= 1,
    ensures
        count_in_children(entities, entities.len() as int, c) >= 2,
{
    lemma_children_count_monotone(entities, p1 + 1, p2, c);
    lemma_children_count_monotone(entities, p2 + 1, entities.len() as int, c);
}

/// How many entries of `s` are true.
pub open spec fn count_true(s: Seq<bool>) -> nat
    decreases s.len(),
{
    if s.len() == 0 {
        0
    } else {
        count_true(s.drop_last()) + if s.last() {
            1nat
        } else {
            0nat
        }
    }
}

proof fn lemma_count_true_le_len(s: Seq<bool>)
    ensures
        count_true(s) <= s.len(),
    decreases s.len(),
{
    if s.len() > 0 {
        lemma_count_true_le_len(s.drop_last());
    }
}

proof fn lemma_count_true_monotone(a: Seq<bool>, b: Seq<bool>)
    requires
        a.len() == b.len(),
        forall|i: int| 0 <= i < a.len() && a[i] ==> b[i],
    ensures
        count_true(a) <= count_true(b),
    decreases a.len(),
{
    if a.len() > 0 {
        assert(forall|i: int|
            0 <= i < a.drop_last().len() && a.drop_last()[i] ==> b.drop_last()[i]);
        lemma_count_true_monotone(a.drop_last(), b.drop_last());
    }
}

proof fn lemma_count_true_update(s: Seq<bool>, i: int)
    requires
        0 <= i < s.len(),
        !s[i],
    ensures
        count_true(s.update(i, true)) == count_true(s) + 1,
    decreases s.len(),
{
    let u = s.update(i, true);
    if i == s.len() - 1 {
        assert(u.drop_last() =~= s.drop_last());
    } else {
        assert(u.drop_last() =~= s.drop_last().update(i, true));
        lemma_count_true_update(s.drop_last(), i);
    }
}

/// The traversal's working state and result: per-entity world transforms,
/// visit marks, parent links and the depth-first visit order. `slot` and
/// `depth` are proof-only records of where each entity was referenced and
/// how deep it sits.
pub struct Traversal {
    pub worlds: Vec<Mat>,
    pub visited: Vec<bool>,
    pub parent: Vec<usize>,
    pub order: Vec<usize>,
    pub slot: Ghost<Seq<int>>,
    pub depth: Ghost<Seq<nat>>,
}

/// The traversal state has one entry per entity.
pub open spec fn t_wf(entities: Seq<Entity>, t: Traversal) -> bool {
    &&& t.worlds@.len() == entities.len()
    &&& t.visited@.len() == entities.len()
    &&& t.parent@.len() == entities.len()
    &&& t.slot@.len() == entities.len()
    &&& t.depth@.len() == entities.len()
}

/// What holds of one visited entity `c`: its recorded parent link points at
/// a real reference to `c` (a root slot or a child slot of a visited
/// parent), its depth extends the parent's, and its world transform is the
/// parent's world transform times its own local transform.
pub open spec fn visited_entry_ok(
    entities: Seq<Entity>,
    t: Traversal,
    roots: Seq<usize>,
    rootw: Seq<u32>,
    c: int,
) -> bool {
    let p = t.parent@[c];
    if p == ROOT_PARENT {
        &&& 0 <= t.slot@[c] < roots.len()
        &&& (roots[t.slot@[c]] as int) == c
        &&& t.depth@[c] == 0
        &&& t.worlds@[c]@ == mat_product(rootw, entities[c].transform@)
    } else {
        &&& (p as int) < entities.len()
        &&& t.visited@[p as int]
        &&& 0 <= t.slot@[c] < entities[p as int].children@.len()
        &&& (entities[p as int].children@[t.slot@[c]] as int) == c
        &&& t.depth@[c] == t.depth@[p as int] + 1
        &&& t.worlds@[c]@ == mat_product(t.worlds@[p as int]@, entities[c].transform@)
    }
}

/// The traversal invariant: every visited entity's record is consistent,
/// and the visit order lists exactly the visited entities, each once.
pub open spec fn t_inv(
    entities: Seq<Entity>,
    t: Traversal,
    roots: Seq<usize>,
    rootw: Seq<u32>,
) -> bool {
    &&& t_wf(entities, t)
    &&& forall|c: int|
        0 <= c < entities.len() && t.visited@[c] ==> visited_entry_ok(entities, t, roots, rootw, c)
    &&& t.order@.no_duplicates()
    &&& forall|k: int|
        0 <= k < t.order@.len() ==> (t.order@[k] as int) < entities.len() && t.visited@[t.order@[k] as int]
    &&& forall|c: int| 0 <= c < entities.len() && t.visited@[c] ==> t.order@.contains(c as usize)
}

/// Entities visited in `o` stay visited in `t` and keep their records.
pub open spec fn preserves_visited(o: Traversal, t: Traversal, n: int) -> bool {
    forall|c: int|
        #![trigger o.visited@[c]]
        0 <= c < n && o.visited@[c] ==> {
            &&& t.visited@[c]
            &&& t.parent@[c] == o.parent@[c]
            &&& t.slot@[c] == o.slot@[c]
            &&& t.depth@[c] == o.depth@[c]
            &&& t.worlds@[c] == o.worlds@[c]
        }
}

/// Entities that became visited between `o` and `t` were parented either to
/// `pid` or to another entity that became visited in the same span.
pub open spec fn new_visit_parented(o: Traversal, t: Traversal, n: int, pid: usize) -> bool {
    forall|c: int|
        #![trigger t.parent@[c]]
        0 <= c < n && t.visited@[c] && !o.visited@[c] ==> (t.parent@[c] == pid || ((
        t.parent@[c] as int) < n && t.visited@[t.parent@[c] as int] && !o.visited@[t.parent@[
            c
        ] as int]))
}

/// Entities that became visited between `o` and `t` have all their children
/// visited in `t`.
pub open spec fn new_visits_closed(o: Traversal, t: Traversal, entities: Seq<Entity>) -> bool {
    forall|c: int, j: int|
        #![trigger t.visited@[c], entities[c].children@[j]]
        0 <= c < entities.len() && t.visited@[c] && !o.visited@[c] && 0 <= j < entities[
            c
        ].children@.len() ==> t.visited@[entities[c].children@[j] as int]
}

proof fn lemma_push_preserves_contains(s: Seq<usize>, x: usize, y: usize)
    requires
        s.contains(y),
    ensures
        s.push(x).contains(y),
{
    let i = choose|i: int| 0 <= i < s.len() && s[i] == y;
    assert(s.push(x)[i] == y);
}

/// Expands the child list `cs` of entity `pid` (or of the synthetic root,
/// when `pid` is `ROOT_PARENT`): marks each child, records its parent link
/// and composed world transform, then recurses into its own children.
/// Meeting an already visited child means some entity is referenced twice,
/// which refutes the forest property.
fn visit(
    entities: &Vec<Entity>,
    cs: &Vec<usize>,
    pid: usize,
    pworld: &Mat,
    t: &mut Traversal,
    roots: Ghost<Seq<usize>>,
    rootw: Ghost<Seq<u32>>,
) -> (r: Result<(), LoadError>)
    requires
        entities@.len() < usize::MAX,
        children_in_bounds(entities@),
        roots_in_bounds(cs@, entities@.len() as int),
        t_inv(entities@, *old(t), roots@, rootw@),
        if pid == ROOT_PARENT {
            cs@ == roots@ && pworld@ == rootw@
        } else {
            &&& (pid as int) < entities@.len()
            &&& old(t).visited@[pid as int]
            &&& cs@ == entities@[pid as int].children@
            &&& pworld@ == old(t).worlds@[pid as int]@
        },
        forall|c: int|
            0 <= c < entities@.len() && old(t).visited@[c] ==> old(t).parent@[c] != pid,
    ensures
        r is Ok ==> t_inv(entities@, *final(t), roots@, rootw@),
        r is Ok ==> preserves_visited(*old(t), *final(t), entities@.len() as int),
        r is Ok ==> forall|j: int|
            0 <= j < cs@.len() ==> final(t).visited@[cs@[j] as int],
        r is Ok ==> new_visit_parented(*old(t), *final(t), entities@.len() as int, pid),
        r is Ok ==> new_visits_closed(*old(t), *final(t), entities@),
        r is Err ==> !is_forest(roots@, entities@),
        r is Err ==> r->Err_0 == LoadError::DuplicateNodeReference,
    decreases entities@.len() - count_true(old(t).visited@),
{
    let ghost orig = *old(t);
    let ghost nn = entities@.len() as int;
    let mut k: usize = 0;
    while k < cs.len()
        invariant
            entities@.len() < usize::MAX,
            nn == entities@.len() as int,
            children_in_bounds(entities@),
            roots_in_bounds(cs@, nn),
            if pid == ROOT_PARENT {
                cs@ == roots@ && pworld@ == rootw@
            } else {
                &&& (pid as int) < nn
                &&& t.visited@[pid as int]
                &&& cs@ == entities@[pid as int].children@
                &&& pworld@ == t.worlds@[pid as int]@
            },
            forall|c: int| 0 <= c < nn && orig.visited@[c] ==> orig.parent@[c] != pid,
            orig == *old(t),
            t_wf(entities@, orig),
            t_inv(entities@, *t, roots@, rootw@),
            preserves_visited(orig, *t, nn),
            new_visit_parented(orig, *t, nn, pid),
            new_visits_closed(orig, *t, entities@),
            0 <= k <= cs@.len(),
            forall|j: int| 0 <= j < k ==> t.visited@[cs@[j] as int],
            forall|c: int|
                #![trigger t.parent@[c]]
                0 <= c < nn && t.visited@[c] && t.parent@[c] == pid ==> 0 <= t.slot@[c] < k,
        decreases cs@.len() - k,
    {
        let c = cs[k];
        if t.visited[c] {
            proof {
                let cc = c as int;
                assert(visited_entry_ok(entities@, *t, roots@, rootw@, cc));
                let p0 = t.parent@[cc];
                if pid == ROOT_PARENT {
                    if p0 == ROOT_PARENT {
                        lemma_count_at_least_two(roots@, c, t.slot@[cc], k as int);
                    } else {
                        lemma_count_at_least_one(roots@, c, k as int);
                        lemma_count_at_least_one(
                            entities@[p0 as int].children@,
                            c,
                            t.slot@[cc],
                        );
                        lemma_children_count_lower(entities@, p0 as int, c);
                    }
                } else {
                    if p0 == ROOT_PARENT {
                        lemma_count_at_least_one(roots@, c, t.slot@[cc]);
                        lemma_count_at_least_one(entities@[pid as int].children@, c, k as int);
                        lemma_children_count_lower(entities@, pid as int, c);
                    } else if p0 == pid {
                        lemma_count_at_least_two(
                            entities@[pid as int].children@,
                            c,
                            t.slot@[cc],
                            k as int,
                        );
                        lemma_children_count_lower(entities@, pid as int, c);
                    } else {
                        lemma_count_at_least_one(
                            entities@[p0 as int].children@,
                            c,
                            t.slot@[cc],
                        );
                        lemma_count_at_least_one(entities@[pid as int].children@, c, k as int);
                        if p0 < pid {
                            lemma_children_count_two(entities@, p0 as int, pid as int, c);
                        } else {
                            lemma_children_count_two(entities@, pid as int, p0 as int, c);
                        }
                    }
                }
                assert(ref_count(roots@, entities@, c) >= 2);
                assert(!is_forest(roots@, entities@));
            }
            return Err(LoadError::DuplicateNodeReference);
        }
        let ghost pre = *t;
        let ghost d: nat = if pid == ROOT_PARENT {
            0nat
        } else {
            (t.depth@[pid as int] + 1) as nat
        };
        let w = mat_mul(pworld, &entities[c].transform);
        t.worlds.set(c, w);
        t.visited.set(c, true);
        t.parent.set(c, pid);
        t.slot = Ghost(t.slot@.update(c as int, k as int));
        t.depth = Ghost(t.depth@.update(c as int, d));
        t.order.push(c);
        let ghost marked = *t;
        proof {
            let cc = c as int;
            // c's own record is consistent.
            assert(visited_entry_ok(entities@, marked, roots@, rootw@, cc));
            // records of previously visited entities are untouched and their
            // parents are still visited with unchanged worlds.
            assert forall|x: int|
                0 <= x < nn && marked.visited@[x] implies visited_entry_ok(
                entities@,
                marked,
                roots@,
                rootw@,
                x,
            ) by {
                if x != cc {
                    assert(pre.visited@[x]);
                    assert(visited_entry_ok(entities@, pre, roots@, rootw@, x));
                    let px = pre.parent@[x];
                    if px != ROOT_PARENT {
                        assert(pre.visited@[px as int]);
                        assert(px as int != cc);
                    }
                }
            };
            // the visit order gains exactly c.
            assert(!pre.order@.contains(c));
            assert(marked.order@ == pre.order@.push(c));
            assert forall|i: int, j: int|
                0 <= i < j < marked.order@.len() implies marked.order@[i] != marked.order@[
                j
            ] by {
                if j < marked.order@.len() - 1 {
                    assert(pre.order@.no_duplicates());
                } else {
                    assert(marked.order@[j] == c);
                    assert(marked.order@[i] == pre.order@[i]);
                }
            };
            assert(marked.order@.no_duplicates());
            assert forall|x: int|
                0 <= x < nn && marked.visited@[x] implies marked.order@.contains(x as usize) by {
                if x == cc {
                    assert(marked.order@[pre.order@.len() as int] == c);
                } else {
                    assert(pre.order@.contains(x as usize));
                    lemma_push_preserves_contains(pre.order@, c, x as usize);
                }
            };
            assert(t_inv(entities@, marked, roots@, rootw@));
            // the recursive call may not meet an entity already parented to c.
            assert forall|x: int|
                0 <= x < nn && marked.visited@[x] implies marked.parent@[x] != c by {
                if x != cc {
                    assert(pre.visited@[x]);
                    let px = pre.parent@[x];
                    if px != ROOT_PARENT {
                        assert(pre.visited@[px as int]);
                    }
                }
            };
            // termination measure: one more entity is visited than at entry.
            lemma_count_true_monotone(orig.visited@, pre.visited@);
            lemma_count_true_update(pre.visited@, cc);
            lemma_count_true_le_len(marked.visited@);
            assert(count_true(marked.visited@) > count_true(orig.visited@));
        }
        let r = visit(entities, &entities[c].children, c, &w, t, roots, rootw);
        if r.is_err() {
            return r;
        }
        proof {
            let cc = c as int;
            let mid = *t;
            // compose the frame conditions of the recursive call with this
            // iteration's marking step.
            assert forall|x: int|
                #![trigger orig.visited@[x]]
                0 <= x < nn && orig.visited@[x] implies {
                &&& mid.visited@[x]
                &&& mid.parent@[x] == orig.parent@[x]
                &&& mid.slot@[x] == orig.slot@[x]
                &&& mid.depth@[x] == orig.depth@[x]
                &&& mid.worlds@[x] == orig.worlds@[x]
            } by {
                assert(pre.visited@[x]);
                assert(x != cc);
                assert(marked.visited@[x]);
                assert(marked.parent@[x] == orig.parent@[x]);
                assert(marked.slot@[x] == orig.slot@[x]);
                assert(marked.depth@[x] == orig.depth@[x]);
                assert(marked.worlds@[x] == orig.worlds@[x]);
            };
            assert(preserves_visited(orig, mid, nn));
            // the parent's record survives the subtree walk.
            if pid != ROOT_PARENT {
                assert(marked.visited@[pid as int]);
                assert(mid.worlds@[pid as int] == marked.worlds@[pid as int]);
            }
            // every entity newly visited since function entry is parented to
            // pid or to another newly visited entity.
            assert forall|x: int|
                #![trigger mid.parent@[x]]
                0 <= x < nn && mid.visited@[x] && !orig.visited@[x] implies (mid.parent@[x] == pid
                || ((mid.parent@[x] as int) < nn && mid.visited@[mid.parent@[x] as int]
                && !orig.visited@[mid.parent@[x] as int])) by {
                if marked.visited@[x] {
                    if x == cc {
                        assert(mid.parent@[x] == pid);
                    } else {
                        assert(pre.visited@[x]);
                        assert(mid.parent@[x] == pre.parent@[x]);
                        if pre.parent@[x] != pid {
                            assert((pre.parent@[x] as int) < nn && pre.visited@[pre.parent@[
                                x
                            ] as int] && !orig.visited@[pre.parent@[x] as int]);
                            assert(marked.visited@[pre.parent@[x] as int]);
                            assert(mid.visited@[pre.parent@[x] as int]);
                        }
                    }
                } else {
                    // newly visited by the recursive call
                    assert(mid.parent@[x] == c || ((mid.parent@[x] as int) < nn
                        && mid.visited@[mid.parent@[x] as int] && !marked.visited@[mid.parent@[
                        x
                    ] as int]));
                    if mid.parent@[x] == c {
                        assert(mid.visited@[cc] && !orig.visited@[cc]);
                    } else {
                        assert(!orig.visited@[mid.parent@[x] as int]);
                    }
                }
            };
            // every entity newly visited since function entry has all its
            // children visited.
            assert forall|x: int, j: int|
                #![trigger mid.visited@[x], entities@[x].children@[j]]
                0 <= x < nn && mid.visited@[x] && !orig.visited@[x] && 0 <= j < entities@[
                x
            ].children@.len() implies mid.visited@[entities@[x].children@[j] as int] by {
                if marked.visited@[x] {
                    if x == cc {
                        assert(mid.visited@[entities@[cc].children@[j] as int]);
                    } else {
                        assert(pre.visited@[x]);
                        assert(pre.visited@[entities@[x].children@[j] as int]);
                        assert(marked.visited@[entities@[x].children@[j] as int]);
                    }
                }
            };
            // all children expanded so far stay visited.
            assert forall|j: int| 0 <= j < k + 1 implies mid.visited@[cs@[j] as int] by {
                if j < k {
                    assert(pre.visited@[cs@[j] as int]);
                    assert(marked.visited@[cs@[j] as int]);
                } else {
                    assert(marked.visited@[cc]);
                }
            };
            // slots recorded for children of pid stay below the next index.
            assert forall|x: int|
                #![trigger mid.parent@[x]]
                0 <= x < nn && mid.visited@[x] && mid.parent@[x] == pid implies 0 <= mid.slot@[x]
                < k + 1 by {
                if marked.visited@[x] {
                    if x == cc {
                        assert(mid.slot@[x] == k as int);
                    } else {
                        assert(pre.visited@[x]);
                        assert(pre.parent@[x] == pid && pre.slot@[x] == mid.slot@[x]);
                    }
                } else {
                    // newly visited by the call: parented to c or to another
                    // entity the call visited, never to pid.
                    assert(mid.parent@[x] == c || ((mid.parent@[x] as int) < nn
                        && !marked.visited@[mid.parent@[x] as int]));
                    if mid.parent@[x] == c {
                        assert(c != pid);
                        assert(false);
                    } else {
                        if pid == ROOT_PARENT {
                            assert((mid.parent@[x] as int) < nn);
                            assert(mid.parent@[x] != pid);
                        } else {
                            assert(marked.visited@[pid as int]);
                            assert(mid.parent@[x] != pid);
                        }
                        assert(false);
                    }
                }
            };
        }
        k += 1;
    }
    Ok(())
}

/// What the finished traversal guarantees: a consistent record for every
/// visited entity, every scene root visited, and the visited set closed
/// under children.
pub open spec fn traversal_complete(
    entities: Seq<Entity>,
    roots: Seq<usize>,
    rootw: Seq<u32>,
    t: Traversal,
) -> bool {
    &&& t_inv(entities, t, roots, rootw)
    &&& forall|j: int| 0 <= j < roots.len() ==> t.visited@[roots[j] as int]
    &&& forall|c: int, j: int|
        #![trigger t.visited@[c], entities[c].children@[j]]
        0 <= c < entities.len() && t.visited@[c] && 0 <= j < entities[c].children@.len()
            ==> t.visited@[entities[c].children@[j] as int]
}

/// Walks the forest under the synthetic root entity depth-first and computes
/// every reachable entity's world transform as its parent's world transform
/// times its own local transform, with the root's own transform as the base.
///
/// Succeeds on every forest; an entity the walk reaches twice (a shared
/// subtree or a cycle) is rejected.
pub fn compute_world_transforms(entities: &Vec<Entity>, root: &Entity) -> (r: Result<
    Traversal,
    LoadError,
>)
    requires
        entities@.len() < usize::MAX,
        children_in_bounds(entities@),
        roots_in_bounds(root.children@, entities@.len() as int),
    ensures
        is_forest(root.children@, entities@) ==> r is Ok,
        r is Ok ==> traversal_complete(entities@, root.children@, root.transform@, r->Ok_0),
        r is Err ==> !is_forest(root.children@, entities@),
        r is Err ==> r->Err_0 == LoadError::DuplicateNodeReference,
{
    let ghost nn = entities@.len() as int;
    let n = entities.len();
    let mut worlds: Vec<Mat> = Vec::new();
    let mut visited: Vec<bool> = Vec::new();
    let mut parent: Vec<usize> = Vec::new();
    let zero: Mat = [
        0u32, 0u32, 0u32, 0u32, 0u32, 0u32, 0u32, 0u32, 0u32, 0u32, 0u32, 0u32, 0u32, 0u32, 0u32,
        0u32,
    ];
    while worlds.len() < n
        invariant
            worlds.len() == visited.len() == parent.len(),
            worlds.len() <= n,
            forall|i: int| 0 <= i < visited.len() ==> !visited[i],
        decreases n - worlds.len(),
    {
        worlds.push(zero);
        visited.push(false);
        parent.push(ROOT_PARENT);
    }
    let mut t = Traversal {
        worlds,
        visited,
        parent,
        order: Vec::new(),
        slot: Ghost(Seq::new(entities@.len(), |i: int| 0int)),
        depth: Ghost(Seq::new(entities@.len(), |i: int| 0nat)),
    };
    let ghost roots = root.children@;
    let ghost rootw = root.transform@;
    proof {
        assert(t_inv(entities@, t, roots, rootw));
    }
    let r = visit(
        entities,
        &root.children,
        ROOT_PARENT,
        &root.transform,
        &mut t,
        Ghost(roots),
        Ghost(rootw),
    );
    match r {
        Ok(()) => Ok(t),
        Err(e) => Err(e),
    }
}

/// The world transform entity `c` would get from multiplying the local
/// transforms of its recorded ancestor chain, root first: the root's base
/// transform, then each ancestor's local transform down to `c`'s own.
/// `fuel` bounds the chain length; the traversal's depth record supplies it.
pub open spec fn chain_world(
    entities: Seq<Entity>,
    t: Traversal,
    rootw: Seq<u32>,
    c: int,
    fuel: nat,
) -> Seq<u32>
    decreases fuel,
{
    if t.parent@[c] == ROOT_PARENT || fuel == 0 {
        mat_product(rootw, entities[c].transform@)
    } else {
        mat_product(
            chain_world(entities, t, rootw, t.parent@[c] as int, (fuel - 1) as nat),
            entities[c].transform@,
        )
    }
}

/// Every visited entity's world transform equals the matrix product of its
/// ancestor chain's local transforms, root to leaf, left-multiplied onto the
/// root's base transform.
pub proof fn lemma_world_is_ancestor_chain(
    entities: Seq<Entity>,
    roots: Seq<usize>,
    rootw: Seq<u32>,
    t: Traversal,
    c: int,
)
    requires
        t_inv(entities, t, roots, rootw),
        0 <= c < entities.len(),
        t.visited@[c],
    ensures
        t.worlds@[c]@ == chain_world(entities, t, rootw, c, t.depth@[c]),
    decreases t.depth@[c],
{
    assert(visited_entry_ok(entities, t, roots, rootw, c));
    if t.parent@[c] != ROOT_PARENT {
        let p = t.parent@[c] as int;
        lemma_world_is_ancestor_chain(entities, roots, rootw, t, p);
    }
}

/// `c` can be reached from the scene roots by following at most `fuel`
/// child edges.
pub open spec fn reachable_in(
    entities: Seq<Entity>,
    roots: Seq<usize>,
    c: int,
    fuel: nat,
) -> bool
    decreases fuel,
{
    if exists|j: int| 0 <= j < roots.len() && (roots[j] as int) == c {
        true
    } else if fuel == 0 {
        false
    } else {
        exists|p: int, j: int|
            #![trigger entities[p].children@[j]]
            0 <= p < entities.len() && reachable_in(entities, roots, p, (fuel - 1) as nat) && 0
                <= j < entities[p].children@.len() && (entities[p].children@[j] as int) == c
    }
}

/// `c` can be reached from the scene roots by following child edges.
pub open spec fn reachable(entities: Seq<Entity>, roots: Seq<usize>, c: int) -> bool {
    exists|fuel: nat| reachable_in(entities, roots, c, fuel)
}

proof fn lemma_reachable_is_visited_fuel(
    entities: Seq<Entity>,
    roots: Seq<usize>,
    rootw: Seq<u32>,
    t: Traversal,
    c: int,
    fuel: nat,
)
    requires
        traversal_complete(entities, roots, rootw, t),
        0 <= c < entities.len(),
        reachable_in(entities, roots, c, fuel),
    ensures
        t.visited@[c],
    decreases fuel,
{
    if exists|j: int| 0 <= j < roots.len() && (roots[j] as int) == c {
        let j = choose|j: int| 0 <= j < roots.len() && (roots[j] as int) == c;
        assert(t.visited@[roots[j] as int]);
    } else {
        assert(fuel > 0);
        let (p, j): (int, int) = choose|p: int, j: int|
            #![trigger entities[p].children@[j]]
            0 <= p < entities.len() && reachable_in(entities, roots, p, (fuel - 1) as nat) && 0
                <= j < entities[p].children@.len() && (entities[p].children@[j] as int) == c;
        lemma_reachable_is_visited_fuel(entities, roots, rootw, t, p, (fuel - 1) as nat);
        assert(t.visited@[entities[p].children@[j] as int]);
    }
}

/// Every entity reachable from the scene roots was visited.
pub proof fn lemma_reachable_is_visited(
    entities: Seq<Entity>,
    roots: Seq<usize>,
    rootw: Seq<u32>,
    t: Traversal,
    c: int,
)
    requires
        traversal_complete(entities, roots, rootw, t),
        0 <= c < entities.len(),
        reachable(entities, roots, c),
    ensures
        t.visited@[c],
{
    let fuel = choose|fuel: nat| reachable_in(entities, roots, c, fuel);
    lemma_reachable_is_visited_fuel(entities, roots, rootw, t, c, fuel);
}

/// Every visited entity is reachable from the scene roots.
pub proof fn lemma_visited_is_reachable(
    entities: Seq<Entity>,
    roots: Seq<usize>,
    rootw: Seq<u32>,
    t: Traversal,
    c: int,
)
    requires
        t_inv(entities, t, roots, rootw),
        0 <= c < entities.len(),
        t.visited@[c],
    ensures
        reachable(entities, roots, c),
    decreases t.depth@[c],
{
    assert(visited_entry_ok(entities, t, roots, rootw, c));
    if t.parent@[c] == ROOT_PARENT {
        let j = t.slot@[c];
        assert(reachable_in(entities, roots, c, 0));
    } else {
        let p = t.parent@[c] as int;
        lemma_visited_is_reachable(entities, roots, rootw, t, p);
        let fuel = choose|fuel: nat| reachable_in(entities, roots, p, fuel);
        assert(reachable_in(entities, roots, p, fuel));
        let j = t.slot@[c];
        assert(0 <= j < entities[p].children@.len() && (entities[p].children@[j] as int) == c);
        assert(reachable_in(entities, roots, p, (fuel + 1 - 1) as nat));
        assert(reachable_in(entities, roots, c, fuel + 1));
    }
}

/// On a forest in which every entity is reachable from the scene roots, the
/// traversal visits all `N` entities exactly once: the visit order is a
/// duplicate-free list of length `N` that contains every entity.
pub proof fn lemma_traversal_visits_all_once(
    entities: Seq<Entity>,
    roots: Seq<usize>,
    rootw: Seq<u32>,
    t: Traversal,
)
    requires
        traversal_complete(entities, roots, rootw, t),
        forall|c: int| 0 <= c < entities.len() ==> reachable(entities, roots, c),
    ensures
        t.order@.len() == entities.len(),
        t.order@.no_duplicates(),
        forall|c: int| 0 <= c < entities.len() ==> t.order@.contains(#[trigger] (c as usize)),
{
    let nn = entities.len() as int;
    assert forall|c: int| 0 <= c < nn implies t.visited@[c] by {
        lemma_reachable_is_visited(entities, roots, rootw, t, c);
    };
    let oi = t.order@.map_values(|x: usize| x as int);
    assert(oi.len() == t.order@.len());
    assert forall|i: int, j: int| 0 <= i < j < oi.len() implies oi[i] != oi[j] by {
        assert(t.order@[i] != t.order@[j]);
    };
    assert(oi.no_duplicates());
    oi.unique_seq_to_set();
    let range = vstd::set_lib::set_int_range(0, nn);
    vstd::set_lib::lemma_int_range(0, nn);
    assert forall|x: int| range.contains(x) implies oi.to_set().contains(x) by {
        assert(t.visited@[x]);
        assert(t.order@.contains(x as usize));
        let k = choose|k: int| 0 <= k < t.order@.len() && t.order@[k] == x as usize;
        assert(oi[k] == x);
    };
    assert forall|x: int| oi.to_set().contains(x) implies range.contains(x) by {
        let k = choose|k: int| 0 <= k < oi.len() && oi[k] == x;
        assert((t.order@[k] as int) < nn && t.visited@[t.order@[k] as int]);
    };
    assert(oi.to_set() =~= range);
    assert(t.order@.len() == nn);
    assert forall|c: int| 0 <= c < nn implies t.order@.contains(#[trigger] (c as usize)) by {
        assert(t.visited@[c]);
    };
}

} // verus!
