//! Kinematic-tree structure of an articulated creature.
//!
//! A creature is a list of named bodies and a list of joints, each joint
//! linking a parent body (`body_a`) to a child body (`body_b`). Poses are
//! computed by forward kinematics along the joints, so the order in which the
//! joints are visited matters: a joint's parent pose must be known before the
//! joint places its child. This module holds the names-only skeleton of a
//! creature and the graph logic on it.
use vstd::prelude::*;

verus! {

/// What kind of constraint a joint is.
#[derive(Clone, Copy, Debug, PartialEq, Eq, Structural)]
pub enum JointKindTag {
    Revolute,
    Spherical,
    Fixed,
}

/// Where an edited body pose goes: the creature's root pose, or the bind
/// rotation of a child body and the anchor of the joint that places it.
#[derive(Clone, Copy, Debug, PartialEq, Eq, Structural)]
pub enum PoseEditTarget {
    /// Nothing to update (no root body, or the body is placed by no joint).
    Unchanged,
    /// The body is the articulation root.
    Root,
    /// The body is placed by joint `joint_index`; `body_index` is the body's
    /// first entry in the body list, if it has one.
    Child { joint_index: usize, body_index: Option<usize> },
}

/// The names a joint links: `body_a` is the parent, `body_b` the child.
#[derive(Clone, Debug)]
pub struct JointLink {
    pub name: String,
    pub body_a: String,
    pub body_b: String,
    pub kind: JointKindTag,
}

/// Names-only skeleton of a creature description: bodies in authoring order
/// and joints in authoring order.
#[derive(Clone, Debug)]
pub struct CreatureSkeleton {
    pub bodies: Vec<String>,
    pub joints: Vec<JointLink>,
}

impl CreatureSkeleton {
    /// `name` is the child (`body_b`) of some joint.
    pub open spec fn is_child(&self, name: Seq<char>) -> bool {
        exists|j: int| 0 <= j < self.joints@.len() && #[trigger] self.joints@[j].body_b@ == name
    }

    /// `name` is the name of a body that is no joint's child.
    pub open spec fn is_root_name(&self, name: Seq<char>) -> bool {
        &&& exists|i: int| 0 <= i < self.bodies@.len() && #[trigger] self.bodies@[i]@ == name
        &&& !self.is_child(name)
    }

    /// `name` is a root body or the child of one of the joints listed (by index) in `order`.
    pub open spec fn is_placed_by(&self, order: Seq<usize>, name: Seq<char>) -> bool {
        ||| self.is_root_name(name)
        ||| exists|q: int|
            0 <= q < order.len() && #[trigger] self.joints@[order[q] as int].body_b@ == name
    }

    /// `order` lists joint indices, each at most once.
    pub open spec fn is_joint_listing(&self, order: Seq<usize>) -> bool {
        &&& forall|p: int| 0 <= p < order.len() ==> #[trigger] order[p] < self.joints@.len()
        &&& forall|p: int, q: int| 0 <= p < q < order.len() ==> order[p] != order[q]
    }

    /// Every joint's parent is a root body or the child of an earlier joint.
    pub open spec fn is_topological(&self, order: Seq<usize>) -> bool {
        forall|p: int|
            0 <= p < order.len() ==> self.is_placed_by(
                order.subrange(0, p),
                #[trigger] self.joints@[order[p] as int].body_a@,
            )
    }

    /// Every joint whose parent is a root body or the child of a listed joint is listed.
    pub open spec fn is_closed(&self, order: Seq<usize>) -> bool {
        forall|j: int|
            0 <= j < self.joints@.len() && self.is_placed_by(order, #[trigger] self.joints@[j].body_a@)
                ==> order.contains(j as usize)
    }

    /// Index of the articulation root: the first body that is no joint's child.
    pub fn articulation_root_index(&self) -> (root: Option<usize>)
        ensures
            match root {
                None => forall|i: int| 0 <= i < self.bodies@.len() ==> self.is_child(#[trigger] self.bodies@[i]@),
                Some(i) => {
                    &&& i < self.bodies@.len()
                    &&& !self.is_child(self.bodies@[i as int]@)
                    &&& forall|k: int| 0 <= k < i ==> self.is_child(#[trigger] self.bodies@[k]@)
                },
            },
            root == self.root_spec(),
    {
        let mut i: usize = 0;
        while i < self.bodies.len()
            invariant
                i <= self.bodies@.len(),
                forall|k: int| 0 <= k < i ==> self.is_child(#[trigger] self.bodies@[k]@),
            decreases self.bodies@.len() - i,
        {
            if !self.is_child_name(&self.bodies[i]) {
                proof {
                    let c = choose|c: int|
                        0 <= c < self.bodies@.len() && !self.is_child(#[trigger] self.bodies@[c]@) && forall|k: int|
                            0 <= k < c ==> self.is_child(#[trigger] self.bodies@[k]@);
                    assert(!self.is_child(self.bodies@[i as int]@));
                    if c < i {
                        assert(self.is_child(self.bodies@[c]@));
                    }
                    if c > i {
                        assert(self.is_child(self.bodies@[i as int]@));
                    }
                }
                return Some(i);
            }
            i = i + 1;
        }
        None
    }

    /// Whether `name` is the child of some joint.
    pub fn is_child_name(&self, name: &String) -> (child: bool)
        ensures
            child == self.is_child(name@),
    {
        let mut j: usize = 0;
        while j < self.joints.len()
            invariant
                j <= self.joints@.len(),
                forall|k: int| 0 <= k < j ==> #[trigger] self.joints@[k].body_b@ != name@,
            decreases self.joints@.len() - j,
        {
            if self.joints[j].body_b == *name {
                return true;
            }
            j = j + 1;
        }
        false
    }

    /// Order in which forward kinematics visits the joints.
    ///
    /// Starts from every root body and walks the joints depth first (the most
    /// recently reached body is expanded next, and its joints are taken in
    /// authoring order). Each joint is listed once, after the joint that
    /// places its parent, and every joint reachable from a root is listed.
    pub fn joint_topology_order(&self) -> (order: Vec<usize>)
        ensures
            self.is_joint_listing(order@),
            self.is_topological(order@),
            self.is_closed(order@),
            order@ == self.depth_first_order(),
    {
        let joint_count = self.joints.len();
        let mut queue: Vec<String> = Vec::new();
        let mut i: usize = 0;
        while i < self.bodies.len()
            invariant
                i <= self.bodies@.len(),
                queue@.len() <= i,
                Self::names(queue@) == self.root_queue(i as int),
                forall|q: int| 0 <= q < queue@.len() ==> self.is_root_name(#[trigger] queue@[q]@),
                forall|k: int|
                    0 <= k < i && !self.is_child(#[trigger] self.bodies@[k]@) ==> exists|q: int|
                        0 <= q < queue@.len() && #[trigger] queue@[q]@ == self.bodies@[k]@,
            decreases self.bodies@.len() - i,
        {
            if !self.is_child_name(&self.bodies[i]) {
                let ghost before = queue@;
                queue.push(self.bodies[i].clone());
                assert(queue@[queue@.len() - 1]@ == self.bodies@[i as int]@);
                assert(Self::names(queue@) =~= Self::names(before).push(self.bodies@[i as int]@));
                assert forall|k: int|
                    0 <= k < i + 1 && !self.is_child(#[trigger] self.bodies@[k]@) implies exists|q: int|
                        0 <= q < queue@.len() && #[trigger] queue@[q]@ == self.bodies@[k]@ by {
                    if k < i {
                        let q = choose|q: int| 0 <= q < before.len() && #[trigger] before[q]@ == self.bodies@[k]@;
                        assert(queue@[q] == before[q]);
                    } else {
                        assert(queue@[queue@.len() - 1]@ == self.bodies@[k]@);
                    }
                }
            }
            i = i + 1;
        }

        let mut visited: Vec<bool> = Vec::new();
        let mut k: usize = 0;
        while k < joint_count
            invariant
                k <= joint_count,
                joint_count == self.joints@.len(),
                visited@.len() == k,
                forall|m: int| 0 <= m < k ==> !#[trigger] visited@[m],
            decreases joint_count - k,
        {
            visited.push(false);
            k = k + 1;
        }

        let mut order: Vec<usize> = Vec::new();
        let ghost mut done: Seq<Seq<char>> = Seq::empty();
        let ghost fuel_total: nat = (self.bodies@.len() + self.joints@.len() + 1) as nat;
        let ghost root_count: nat = queue@.len();
        let ghost mut pops: nat = 0;

        while queue.len() > 0
            invariant
                joint_count == self.joints@.len(),
                fuel_total == self.bodies@.len() + self.joints@.len() + 1,
                root_count <= self.bodies@.len(),
                pops + queue@.len() <= root_count + order@.len(),
                self.dfs(Self::names(queue@), order@, (fuel_total - pops) as nat) == self.depth_first_order(),
                visited@.len() == joint_count,
                self.is_joint_listing(order@),
                self.is_topological(order@),
                forall|m: int| 0 <= m < joint_count ==> (#[trigger] visited@[m] <==> order@.contains(m as usize)),
                // every queued name places joints legitimately
                forall|q: int| 0 <= q < queue@.len() ==> self.is_placed_by(order@, #[trigger] queue@[q]@),
                // every joint whose parent has been expanded is listed
                forall|d: int, m: int|
                    0 <= d < done.len() && 0 <= m < joint_count && #[trigger] self.joints@[m].body_a@
                        == #[trigger] done[d] ==> visited@[m],
                // every body that places joints is expanded or still queued
                forall|b: int|
                    0 <= b < self.bodies@.len() && !self.is_child(#[trigger] self.bodies@[b]@) ==> Self::in_done_or_queue(
                        done,
                        queue@,
                        self.bodies@[b]@,
                    ),
                forall|p: int|
                    0 <= p < order@.len() ==> Self::in_done_or_queue(
                        done,
                        queue@,
                        #[trigger] self.joints@[order@[p] as int].body_b@,
                    ),
            decreases joint_count - order@.len(), queue@.len(),
        {
            let ghost queue_before = queue@;
            let ghost order_before = order@;
            let ghost done_before = done;
            let body = queue.pop().unwrap();
            proof {
                assert(body == queue_before[queue_before.len() - 1]);
                assert(queue@ == queue_before.drop_last());
                Self::lemma_listing_len(self.joints@.len(), order@);
                done = done.push(body@);
                assert(done.drop_last() =~= done_before);
                // names that were queued are now expanded or still queued
                assert forall|n: Seq<char>| Self::in_done_or_queue(done.drop_last(), queue_before, n)
                    implies Self::in_done_or_queue(done, queue@, n) by {
                    if exists|d: int| 0 <= d < done.len() - 1 && done[d] == n {
                        let d = choose|d: int| 0 <= d < done.len() - 1 && done[d] == n;
                        assert(done[d] == n);
                    } else {
                        let q = choose|q: int| 0 <= q < queue_before.len() && #[trigger] queue_before[q]@ == n;
                        if q == queue_before.len() - 1 {
                            assert(done[done.len() - 1] == n);
                        } else {
                            assert(queue@[q] == queue_before[q]);
                        }
                    }
                }
            }
            assert(self.is_placed_by(order@, body@));

            proof {
                assert(Self::names(queue@) =~= Self::names(queue_before).drop_last());
            }
            let mut m: usize = 0;
            while m < joint_count
                invariant
                    m <= joint_count,
                    joint_count == self.joints@.len(),
                    self.expand(body@, Self::names(queue@), order@, m as int) == self.expand(
                        body@,
                        Self::names(queue_before).drop_last(),
                        order_before,
                        0,
                    ),
                    visited@.len() == joint_count,
                    done.len() > 0,
                    done[done.len() - 1] == body@,
                    self.is_placed_by(order@, body@),
                    order_before.len() <= order@.len(),
                    order@.subrange(0, order_before.len() as int) == order_before,
                    queue@.len() + 1 == queue_before.len() + (order@.len() - order_before.len()),
                    self.is_joint_listing(order@),
                    self.is_topological(order@),
                    forall|x: int| 0 <= x < joint_count ==> (#[trigger] visited@[x] <==> order@.contains(x as usize)),
                    forall|q: int| 0 <= q < queue@.len() ==> self.is_placed_by(order@, #[trigger] queue@[q]@),
                    forall|d: int, x: int|
                        0 <= d < done.len() - 1 && 0 <= x < joint_count && #[trigger] self.joints@[x].body_a@
                            == #[trigger] done[d] ==> visited@[x],
                    forall|x: int| 0 <= x < m && #[trigger] self.joints@[x].body_a@ == body@ ==> visited@[x],
                    forall|b: int|
                        0 <= b < self.bodies@.len() && !self.is_child(#[trigger] self.bodies@[b]@) ==> Self::in_done_or_queue(
                            done,
                            queue@,
                            self.bodies@[b]@,
                        ),
                    forall|p: int|
                        0 <= p < order@.len() ==> Self::in_done_or_queue(
                            done,
                            queue@,
                            #[trigger] self.joints@[order@[p] as int].body_b@,
                        ),
                decreases joint_count - m,
            {
                if self.joints[m].body_a == body && !visited[m] {
                    let ghost order_prev = order@;
                    let ghost queue_prev = queue@;
                    visited.set(m, true);
                    order.push(m);
                    queue.push(self.joints[m].body_b.clone());
                    proof {
                        assert(Self::names(queue@) =~= Self::names(queue_prev).push(self.joints@[m as int].body_b@));
                        assert(order@.subrange(0, order_prev.len() as int) =~= order_prev);
                        assert(order@.subrange(0, order_before.len() as int) =~= order_before) by {
                            assert(order_prev.subrange(0, order_before.len() as int) == order_before);
                        }
                        Self::lemma_placed_grows(*self, order_prev, order@);
                        // topological: the new joint's parent is placed by the earlier ones
                        assert forall|p: int| 0 <= p < order@.len() implies self.is_placed_by(
                            order@.subrange(0, p),
                            #[trigger] self.joints@[order@[p] as int].body_a@,
                        ) by {
                            if p < order_prev.len() {
                                assert(order@.subrange(0, p) == order_prev.subrange(0, p));
                            } else {
                                assert(order@.subrange(0, p) == order_prev);
                            }
                        }
                        assert forall|p: int, q: int| 0 <= p < q < order@.len() implies order@[p] != order@[q] by {
                            if q == order@.len() - 1 {
                                assert(!order_prev.contains(m));
                                assert(order_prev[p] == order@[p]);
                            }
                        }
                        assert forall|x: int| 0 <= x < joint_count implies (#[trigger] visited@[x] <==> order@.contains(x as usize)) by {
                            if x == m {
                                assert(order@[order@.len() - 1] == m);
                            } else {
                                if order@.contains(x as usize) {
                                    let p = choose|p: int| 0 <= p < order@.len() && order@[p] == x as usize;
                                    assert(p < order_prev.len());
                                    assert(order_prev[p] == x as usize);
                                }
                                if order_prev.contains(x as usize) {
                                    let p = choose|p: int| 0 <= p < order_prev.len() && order_prev[p] == x as usize;
                                    assert(order@[p] == x as usize);
                                }
                            }
                        }
                        assert forall|q: int| 0 <= q < queue@.len() implies self.is_placed_by(order@, #[trigger] queue@[q]@) by {
                            if q < queue_prev.len() {
                                assert(queue@[q] == queue_prev[q]);
                            } else {
                                assert(self.joints@[order@[order@.len() - 1] as int].body_b@ == queue@[q]@);
                            }
                        }
                        assert(queue@.subrange(0, queue_prev.len() as int) =~= queue_prev);
                        Self::lemma_done_or_queue_push(done, queue_prev, queue@);
                        assert forall|p: int| 0 <= p < order@.len() implies Self::in_done_or_queue(
                            done,
                            queue@,
                            #[trigger] self.joints@[order@[p] as int].body_b@,
                        ) by {
                            if p == order@.len() - 1 {
                                assert(queue@[queue@.len() - 1]@ == self.joints@[order@[p] as int].body_b@);
                            } else {
                                assert(order@[p] == order_prev[p]);
                            }
                        }
                    }
                }
                m = m + 1;
            }
            proof {
                Self::lemma_listing_len(self.joints@.len(), order@);
                Self::lemma_listing_len(self.joints@.len(), order_before);
                assert(Self::names(queue_before).last() == body@);
                pops = pops + 1;
                assert forall|d: int, x: int|
                    0 <= d < done.len() && 0 <= x < joint_count && #[trigger] self.joints@[x].body_a@
                        == #[trigger] done[d] implies visited@[x] by {
                    if d == done.len() - 1 {
                        assert(self.joints@[x].body_a@ == body@);
                    }
                }
            }
        }

        proof {
            assert forall|j: int|
                0 <= j < self.joints@.len() && self.is_placed_by(order@, #[trigger] self.joints@[j].body_a@)
                    implies order@.contains(j as usize) by {
                let n = self.joints@[j].body_a@;
                if self.is_root_name(n) {
                    let b = choose|b: int| 0 <= b < self.bodies@.len() && #[trigger] self.bodies@[b]@ == n;
                    assert(Self::in_done_or_queue(done, queue@, self.bodies@[b]@));
                } else {
                    let q = choose|q: int| 0 <= q < order@.len() && #[trigger] self.joints@[order@[q] as int].body_b@ == n;
                    assert(Self::in_done_or_queue(done, queue@, self.joints@[order@[q] as int].body_b@));
                }
                let d = choose|d: int| 0 <= d < done.len() && done[d] == n;
                assert(self.joints@[j].body_a@ == done[d]);
            }
        }
        order
    }


    /// Joint `j` is a revolute joint that was spawned (so it receives an action slot).
    pub open spec fn is_actuated(&self, spawned: Seq<bool>, j: int) -> bool {
        self.joints@[j].kind == JointKindTag::Revolute && spawned[j]
    }

    /// Number of actuated joints among the first `n` joints.
    pub open spec fn actuated_count(&self, spawned: Seq<bool>, n: int) -> nat
        decreases n,
    {
        if n <= 0 {
            0
        } else {
            self.actuated_count(spawned, n - 1) + if self.is_actuated(spawned, n - 1) { 1nat } else { 0nat }
        }
    }

    /// Action slot of every joint: revolute joints that were spawned get
    /// consecutive action indices in authoring order; every other joint gets none.
    ///
    /// `spawned[j]` tells whether joint `j` exists in the spawned creature.
    pub fn revolute_action_slots(&self, spawned: &Vec<bool>) -> (slots: Vec<Option<usize>>)
        requires
            spawned@.len() == self.joints@.len(),
        ensures
            slots@.len() == self.joints@.len(),
            forall|j: int|
                0 <= j < slots@.len() ==> #[trigger] slots@[j] == if self.is_actuated(spawned@, j) {
                    Some(self.actuated_count(spawned@, j) as usize)
                } else {
                    None
                },
            forall|j: int|
                0 <= j < slots@.len() ==> (#[trigger] slots@[j] is Some <==> (self.joints@[j].kind
                    == JointKindTag::Revolute && spawned@[j])),
    {
        let mut slots: Vec<Option<usize>> = Vec::new();
        let mut next: usize = 0;
        let mut j: usize = 0;
        while j < self.joints.len()
            invariant
                j <= self.joints@.len(),
                spawned@.len() == self.joints@.len(),
                slots@.len() == j,
                next == self.actuated_count(spawned@, j as int),
                next <= j,
                forall|k: int|
                    0 <= k < j ==> #[trigger] slots@[k] == if self.is_actuated(spawned@, k) {
                        Some(self.actuated_count(spawned@, k) as usize)
                    } else {
                        None
                    },
            decreases self.joints@.len() - j,
        {
            if self.joints[j].kind == JointKindTag::Revolute && spawned[j] {
                slots.push(Some(next));
                next = next + 1;
            } else {
                slots.push(None);
            }
            j = j + 1;
        }
        slots
    }

    /// Where an edited absolute body pose is written back into the description.
    pub fn pose_edit_target(&self, body_name: &str) -> (target: PoseEditTarget)
        ensures
            match target {
                PoseEditTarget::Unchanged => match self.root_spec() {
                    None => true,
                    Some(r) => self.bodies@[r as int]@ != body_name@ && forall|j: int|
                        0 <= j < self.joints@.len() ==> #[trigger] self.joints@[j].body_b@ != body_name@,
                },
                PoseEditTarget::Root => match self.root_spec() {
                    Some(r) => self.bodies@[r as int]@ == body_name@,
                    None => false,
                },
                PoseEditTarget::Child { joint_index, body_index } => {
                    &&& self.root_spec() is Some
                    &&& self.bodies@[self.root_spec()->0 as int]@ != body_name@
                    &&& joint_index < self.joints@.len()
                    &&& self.joints@[joint_index as int].body_b@ == body_name@
                    &&& forall|k: int| 0 <= k < joint_index ==> #[trigger] self.joints@[k].body_b@ != body_name@
                    &&& match body_index {
                        Some(b) => b < self.bodies@.len() && self.bodies@[b as int]@ == body_name@
                            && forall|k: int| 0 <= k < b ==> #[trigger] self.bodies@[k]@ != body_name@,
                        None => forall|k: int| 0 <= k < self.bodies@.len() ==> #[trigger] self.bodies@[k]@ != body_name@,
                    }
                },
            },
    {
        let name = String::from_str(body_name);
        let root = match self.articulation_root_index() {
            Some(r) => r,
            None => return PoseEditTarget::Unchanged,
        };
        if self.bodies[root] == name {
            return PoseEditTarget::Root;
        }
        let mut j: usize = 0;
        while j < self.joints.len()
            invariant
                j <= self.joints@.len(),
                name@ == body_name@,
                self.root_spec() == Some(root),
                root < self.bodies@.len(),
                self.bodies@[root as int]@ != body_name@,
                forall|k: int| 0 <= k < j ==> #[trigger] self.joints@[k].body_b@ != body_name@,
            decreases self.joints@.len() - j,
        {
            if self.joints[j].body_b == name {
                let mut b: usize = 0;
                while b < self.bodies.len()
                    invariant
                        b <= self.bodies@.len(),
                        name@ == body_name@,
                        self.root_spec() == Some(root),
                        root < self.bodies@.len(),
                        self.bodies@[root as int]@ != body_name@,
                        j < self.joints@.len(),
                        self.joints@[j as int].body_b@ == body_name@,
                        forall|k: int| 0 <= k < j ==> #[trigger] self.joints@[k].body_b@ != body_name@,
                        forall|k: int| 0 <= k < b ==> #[trigger] self.bodies@[k]@ != body_name@,
                    decreases self.bodies@.len() - b,
                {
                    if self.bodies[b] == name {
                        return PoseEditTarget::Child { joint_index: j, body_index: Some(b) };
                    }
                    b = b + 1;
                }
                return PoseEditTarget::Child { joint_index: j, body_index: None };
            }
            j = j + 1;
        }
        PoseEditTarget::Unchanged
    }

    /// The texts of a queue of names.
    pub open spec fn names(queue: Seq<String>) -> Seq<Seq<char>> {
        queue.map_values(|name: String| name@)
    }

    /// The bodies among the first `k` that are no joint's child, in body order.
    pub open spec fn root_queue(&self, k: int) -> Seq<Seq<char>>
        decreases k,
    {
        if k <= 0 {
            Seq::empty()
        } else if self.is_child(self.bodies@[k - 1]@) {
            self.root_queue(k - 1)
        } else {
            self.root_queue(k - 1).push(self.bodies@[k - 1]@)
        }
    }

    /// Expanding body `body` from joint `m` on: each joint whose parent is
    /// `body` and that is not yet listed is listed, and its child queued.
    pub open spec fn expand(&self, body: Seq<char>, queue: Seq<Seq<char>>, order: Seq<usize>, m: int) -> (
        Seq<Seq<char>>,
        Seq<usize>,
    )
        decreases self.joints@.len() - m,
    {
        if m >= self.joints@.len() {
            (queue, order)
        } else if self.joints@[m].body_a@ == body && !order.contains(m as usize) {
            self.expand(body, queue.push(self.joints@[m].body_b@), order.push(m as usize), m + 1)
        } else {
            self.expand(body, queue, order, m + 1)
        }
    }

    /// The depth-first walk: the most recently queued body is expanded next,
    /// for at most `fuel` expansions.
    pub open spec fn dfs(&self, queue: Seq<Seq<char>>, order: Seq<usize>, fuel: nat) -> Seq<usize>
        decreases fuel,
    {
        if fuel == 0 || queue.len() == 0 {
            order
        } else {
            let next = self.expand(queue.last(), queue.drop_last(), order, 0);
            self.dfs(next.0, next.1, (fuel - 1) as nat)
        }
    }

    /// The joint order forward kinematics uses: the depth-first walk from the
    /// root bodies (queued in body order), with enough expansions to empty the
    /// queue (each expansion takes one queued body, and each body is queued
    /// as a root or as the child of a newly listed joint).
    pub open spec fn depth_first_order(&self) -> Seq<usize> {
        self.dfs(
            self.root_queue(self.bodies@.len() as int),
            Seq::empty(),
            (self.bodies@.len() + self.joints@.len() + 1) as nat,
        )
    }

    /// The index `articulation_root_index` returns.
    pub open spec fn root_spec(&self) -> Option<usize> {
        if exists|i: int| 0 <= i < self.bodies@.len() && !self.is_child(#[trigger] self.bodies@[i]@) {
            let i = choose|i: int|
                0 <= i < self.bodies@.len() && !self.is_child(#[trigger] self.bodies@[i]@) && forall|k: int|
                    0 <= k < i ==> self.is_child(#[trigger] self.bodies@[k]@);
            Some(i as usize)
        } else {
            None
        }
    }

    /// `name` was expanded already (`done`) or is still waiting in `queue`.
    pub open spec fn in_done_or_queue(done: Seq<Seq<char>>, queue: Seq<String>, name: Seq<char>) -> bool {
        ||| exists|d: int| 0 <= d < done.len() && done[d] == name
        ||| exists|q: int| 0 <= q < queue.len() && #[trigger] queue[q]@ == name
    }

    proof fn lemma_done_or_queue_push(done: Seq<Seq<char>>, queue: Seq<String>, pushed: Seq<String>)
        requires
            pushed.len() == queue.len() + 1,
            pushed.subrange(0, queue.len() as int) == queue,
        ensures
            forall|n: Seq<char>| Self::in_done_or_queue(done, queue, n) ==> Self::in_done_or_queue(done, pushed, n),
    {
        assert forall|n: Seq<char>| Self::in_done_or_queue(done, queue, n) implies Self::in_done_or_queue(done, pushed, n) by {
            if !(exists|d: int| 0 <= d < done.len() && done[d] == n) {
                let q = choose|q: int| 0 <= q < queue.len() && #[trigger] queue[q]@ == n;
                assert(pushed[q] == pushed.subrange(0, queue.len() as int)[q]);
                assert(pushed[q]@ == n);
            }
        }
    }

    proof fn lemma_placed_grows(self, order: Seq<usize>, longer: Seq<usize>)
        requires
            order.len() <= longer.len(),
            longer.subrange(0, order.len() as int) == order,
        ensures
            forall|n: Seq<char>| self.is_placed_by(order, n) ==> self.is_placed_by(longer, n),
    {
        assert forall|n: Seq<char>| self.is_placed_by(order, n) implies self.is_placed_by(longer, n) by {
            if !self.is_root_name(n) {
                let q = choose|q: int| 0 <= q < order.len() && #[trigger] self.joints@[order[q] as int].body_b@ == n;
                assert(longer[q] == longer.subrange(0, order.len() as int)[q]);
                assert(self.joints@[longer[q] as int].body_b@ == n);
            }
        }
    }

    proof fn lemma_listing_len(joint_count: nat, order: Seq<usize>)
        requires
            joint_count <= usize::MAX,
            forall|p: int| 0 <= p < order.len() ==> #[trigger] order[p] < joint_count,
            forall|p: int, q: int| 0 <= p < q < order.len() ==> order[p] != order[q],
        ensures
            order.len() <= joint_count,
    {
        assert(order.no_duplicates()) by {
            assert forall|p: int, q: int| 0 <= p < order.len() && 0 <= q < order.len() && p != q implies order[p] != order[q] by {
                if p > q {
                    assert(order[q] != order[p]);
                }
            }
        }
        order.unique_seq_to_set();
        let full = <usize as vstd::set_lib::FiniteRange>::range_set(0, joint_count as usize);
        <usize as vstd::set_lib::FiniteRange>::range_properties(0, joint_count as usize);
        assert(order.to_set().subset_of(full));
        vstd::set_lib::lemma_len_subset(order.to_set(), full);
    }
}

/// Name of the articulation root: the first body that is no joint's child.
pub fn articulation_root_name(creature: &CreatureSkeleton) -> (root: Option<&str>)
    ensures
        match root {
            None => forall|i: int|
                0 <= i < creature.bodies@.len() ==> creature.is_child(#[trigger] creature.bodies@[i]@),
            Some(name) => exists|i: int|
                0 <= i < creature.bodies@.len() && #[trigger] creature.bodies@[i]@ == name@
                && !creature.is_child(name@)
                && forall|k: int| 0 <= k < i ==> creature.is_child(#[trigger] creature.bodies@[k]@),
        },
{
    match creature.articulation_root_index() {
        Some(i) => Some(creature.bodies[i].as_str()),
        None => None,
    }
}

/// Forward kinematics starts at the articulation root: when the skeleton has
/// a root, every joint hanging off it is in the joint order, and the root
/// itself is never placed by a joint.
pub proof fn lemma_root_joints_ordered(skeleton: CreatureSkeleton, order: Seq<usize>)
    requires
        skeleton.is_closed(order),
    ensures
        skeleton.root_spec() matches Some(r) ==> {
            &&& !skeleton.is_child(skeleton.bodies@[r as int]@)
            &&& forall|j: int|
                0 <= j < skeleton.joints@.len() && #[trigger] skeleton.joints@[j].body_a@ == skeleton.bodies@[r as int]@
                    ==> order.contains(j as usize)
        },
{
    if skeleton.root_spec() is Some {
        let i = choose|i: int| 0 <= i < skeleton.bodies@.len() && !skeleton.is_child(#[trigger] skeleton.bodies@[i]@);
        lemma_exists_first_root(skeleton, i);
        let m = choose|m: int|
            0 <= m < skeleton.bodies@.len() && !skeleton.is_child(#[trigger] skeleton.bodies@[m]@) && forall|k: int|
                0 <= k < m ==> skeleton.is_child(#[trigger] skeleton.bodies@[k]@);
        assert(skeleton.bodies@.len() == skeleton.bodies.len());
        let r = skeleton.root_spec()->0;
        assert(r as int == m);
        assert(skeleton.bodies@[m]@ == skeleton.bodies@[r as int]@);
        assert forall|j: int|
            0 <= j < skeleton.joints@.len() && #[trigger] skeleton.joints@[j].body_a@ == skeleton.bodies@[r as int]@
                implies order.contains(j as usize) by {
            assert(skeleton.is_root_name(skeleton.bodies@[r as int]@));
            assert(skeleton.is_placed_by(order, skeleton.joints@[j].body_a@));
        }
    }
}

/// Action slots are consecutive: the actuated joints receive `0, 1, 2, ...`
/// in joint order, so two actuated joints never share a slot.
pub proof fn lemma_action_slots_distinct(skeleton: CreatureSkeleton, spawned: Seq<bool>, a: int, b: int)
    requires
        spawned.len() == skeleton.joints@.len(),
        0 <= a < b <= skeleton.joints@.len(),
    ensures
        skeleton.is_actuated(spawned, a) ==> skeleton.actuated_count(spawned, a) < skeleton.actuated_count(spawned, b),
        skeleton.actuated_count(spawned, a) <= skeleton.actuated_count(spawned, b),
    decreases b - a,
{
    if b > a + 1 {
        lemma_action_slots_distinct(skeleton, spawned, a, b - 1);
    }
}

/// When some body is no joint's child, there is a first such body.
proof fn lemma_exists_first_root(skeleton: CreatureSkeleton, i: int)
    requires
        0 <= i < skeleton.bodies@.len(),
        !skeleton.is_child(skeleton.bodies@[i]@),
    ensures
        exists|m: int|
            0 <= m < skeleton.bodies@.len() && !skeleton.is_child(#[trigger] skeleton.bodies@[m]@) && forall|k: int|
                0 <= k < m ==> skeleton.is_child(#[trigger] skeleton.bodies@[k]@),
    decreases i,
{
    if exists|k: int| 0 <= k < i && !skeleton.is_child(#[trigger] skeleton.bodies@[k]@) {
        let k = choose|k: int| 0 <= k < i && !skeleton.is_child(#[trigger] skeleton.bodies@[k]@);
        lemma_exists_first_root(skeleton, k);
    } else {
        assert(forall|k: int| 0 <= k < i ==> skeleton.is_child(#[trigger] skeleton.bodies@[k]@));
    }
}

/// Only revolute joints that were spawned receive an action slot, every one
/// of them does, and the slots count such joints in joint order: joint `j`'s
/// slot is the number of spawned revolute joints before it.
pub proof fn lemma_only_spawned_revolutes_actuated(skeleton: CreatureSkeleton, spawned: Seq<bool>, j: int)
    requires
        0 <= j < skeleton.joints@.len(),
        spawned.len() == skeleton.joints@.len(),
    ensures
        skeleton.is_actuated(spawned, j) <==> (skeleton.joints@[j].kind == JointKindTag::Revolute && spawned[j]),
        skeleton.actuated_count(spawned, 0) == 0,
        skeleton.actuated_count(spawned, j + 1) == skeleton.actuated_count(spawned, j) + if skeleton.joints@[j].kind
            == JointKindTag::Revolute && spawned[j] {
            1int
        } else {
            0int
        },
{
}

} // verus!
