//! A scene graph for deterministic rendering: a tree of named nodes and an
//! index from names to node ids.

use vstd::prelude::*;
use vstd::string::StringExecFns;

use crate::text::{decimal, decimal_string};

verus! {

/// The seed of a scene that is given no other.
pub const DEFAULT_SEED: u64 = 42;

/// The bit pattern of the number one.
pub const ONE: u32 = 0x3F80_0000;

/// Where a node stands: position, rotation as a quaternion `[x, y, z, w]`,
/// and scale. The components are single-precision numbers, each held as its
/// bit pattern; nothing here computes on them.
#[derive(Debug, Clone, Copy)]
pub struct Transform {
    pub position: [u32; 3],
    pub rotation: [u32; 4],
    pub scale: [u32; 3],
}

/// What a node shows. Numbers that are not counts are single-precision
/// numbers, each held as its bit pattern.
#[derive(Debug, Clone, Copy)]
pub enum ObjectType {
    Mesh { vertices: usize, indices: usize },
    Light { intensity: u32, color: [u32; 3] },
    Camera { fov: u32, near: u32, far: u32 },
    Empty,
}

/// What is known of a scene as a whole.
#[derive(Debug, Clone)]
pub struct SceneMetadata {
    pub version: String,
    pub created_at: u64,
    pub deterministic_seed: u64,
}

/// A node of the scene graph, with the nodes below it.
#[derive(Debug)]
pub struct SceneNode {
    pub id: usize,
    pub name: String,
    pub transform: Transform,
    pub object_type: ObjectType,
    pub children: Vec<SceneNode>,
}

/// A node as contracts see it.
pub struct NodeView {
    pub id: usize,
    pub name: Seq<char>,
    pub transform: Transform,
    pub object_type: ObjectType,
    pub children: Seq<NodeView>,
}

/// The view of a node.
pub open spec fn node_view(node: SceneNode) -> NodeView
    decreases node,
{
    NodeView {
        id: node.id,
        name: node.name@,
        transform: node.transform,
        object_type: node.object_type,
        children: Seq::new(
            node.children@.len(),
            |i: int|
                if 0 <= i < node.children@.len() {
                    node_view(node.children@[i])
                } else {
                    arbitrary()
                },
        ),
    }
}

impl View for SceneNode {
    type V = NodeView;

    open spec fn view(&self) -> NodeView {
        node_view(*self)
    }
}

/// Whether a node, or one below it, has the given id.
pub open spec fn has_id(node: NodeView, id: usize) -> bool
    decreases node,
{
    node.id == id || exists|i: int|
        0 <= i < node.children.len() && has_id(#[trigger] node.children[i], id)
}

/// The first of `children` that has a node of the given id in it, by
/// position; the number of children where none has.
pub open spec fn first_with_id(children: Seq<NodeView>, id: usize) -> int
    decreases children.len(),
{
    if children.len() == 0 {
        0
    } else if has_id(children[0], id) {
        0
    } else {
        1 + first_with_id(children.drop_first(), id)
    }
}

/// A node with one child more, behind the others.
pub open spec fn with_child(node: NodeView, child: NodeView) -> NodeView {
    NodeView {
        id: node.id,
        name: node.name,
        transform: node.transform,
        object_type: node.object_type,
        children: node.children.push(child),
    }
}

/// A node with one of its children replaced.
pub open spec fn with_child_at(node: NodeView, at: int, child: NodeView) -> NodeView {
    NodeView {
        id: node.id,
        name: node.name,
        transform: node.transform,
        object_type: node.object_type,
        children: node.children.update(at, child),
    }
}

/// The tree with `new` attached below the first node of the given id, in
/// the order in which a node stands before its children and a child before
/// the children behind it. The tree as it is where no node has the id.
pub open spec fn attach_under(node: NodeView, parent: usize, new: NodeView) -> NodeView
    decreases node,
{
    if node.id == parent {
        with_child(node, new)
    } else {
        let at = first_with_id(node.children, parent);
        if 0 <= at < node.children.len() {
            with_child_at(node, at, attach_under(node.children[at], parent, new))
        } else {
            node
        }
    }
}

/// The position that `first_with_id` gives is that of the first child with
/// the id, where there is one.
pub proof fn lemma_first_with_id(children: Seq<NodeView>, id: usize)
    ensures
        0 <= first_with_id(children, id) <= children.len(),
        forall|i: int|
            0 <= i < first_with_id(children, id) ==> !has_id(#[trigger] children[i], id),
        first_with_id(children, id) < children.len() ==> has_id(
            children[first_with_id(children, id)],
            id,
        ),
    decreases children.len(),
{
    if children.len() > 0 && !has_id(children[0], id) {
        let rest = children.drop_first();
        lemma_first_with_id(rest, id);
        assert forall|i: int| 0 <= i < first_with_id(children, id) implies !has_id(
            #[trigger] children[i],
            id,
        ) by {
            if i > 0 {
                assert(children[i] == rest[i - 1]);
            }
        }
    }
}

/// A transform that moves, turns and scales nothing.
pub open spec fn identity_transform() -> Transform {
    Transform {
        position: [0u32, 0u32, 0u32],
        rotation: [0u32, 0u32, 0u32, ONE],
        scale: [ONE, ONE, ONE],
    }
}

/// The node that `add_node` makes for a name and a kind of object.
pub open spec fn fresh_node(id: usize, name: Seq<char>, object_type: ObjectType) -> NodeView {
    NodeView { id, name, transform: identity_transform(), object_type, children: Seq::empty() }
}

/// The root of a scene that has no nodes yet.
pub open spec fn empty_root() -> NodeView {
    fresh_node(0, "root"@, ObjectType::Empty)
}

/// The tree after `add_node`: the new node goes below the root where the
/// parent is given as 0, else below the first node of the parent's id.
pub open spec fn attached(tree: NodeView, parent: usize, new: NodeView) -> NodeView {
    if parent == 0 {
        with_child(tree, new)
    } else {
        attach_under(tree, parent, new)
    }
}

/// Whether `add_node` finds the parent.
pub open spec fn attachable(tree: NodeView, parent: usize) -> bool {
    parent == 0 || has_id(tree, parent)
}

/// The text of the error for a parent that is not in the tree.
pub open spec fn parent_not_found(parent: usize) -> Seq<char> {
    "Parent node "@ + decimal(parent as nat) + " not found"@
}

/// The map that a list of names and ids stands for. Where a name stands
/// twice, the later entry counts.
pub open spec fn index_map(entries: Seq<(String, usize)>) -> Map<Seq<char>, usize>
    decreases entries.len(),
{
    if entries.len() == 0 {
        Map::empty()
    } else {
        index_map(entries.drop_last()).insert(entries.last().0@, entries.last().1)
    }
}

/// No name stands twice in the list.
pub open spec fn distinct_names(entries: Seq<(String, usize)>) -> bool {
    forall|i: int, j: int|
        0 <= i < j < entries.len() ==> (#[trigger] entries[i]).0@ != (#[trigger] entries[j]).0@
}

/// A name is in the map exactly if it is in the list, and the map is finite.
pub proof fn lemma_index_map_domain(entries: Seq<(String, usize)>)
    ensures
        index_map(entries).dom().finite(),
        forall|name: Seq<char>|
            index_map(entries).contains_key(name) <==> exists|i: int|
                0 <= i < entries.len() && (#[trigger] entries[i]).0@ == name,
    decreases entries.len(),
{
    if entries.len() > 0 {
        let front = entries.drop_last();
        lemma_index_map_domain(front);
        assert forall|name: Seq<char>| index_map(entries).contains_key(name) implies exists|i: int|
            0 <= i < entries.len() && (#[trigger] entries[i]).0@ == name by {
            if name == entries.last().0@ {
                assert(entries[entries.len() - 1].0@ == name);
            } else {
                assert(index_map(front).contains_key(name));
                let i = choose|i: int| 0 <= i < front.len() && (#[trigger] front[i]).0@ == name;
                assert(entries[i].0@ == name);
            }
        }
        assert forall|name: Seq<char>|
            (exists|i: int| 0 <= i < entries.len() && (#[trigger] entries[i]).0@ == name)
            implies index_map(entries).contains_key(name) by {
            let i = choose|i: int| 0 <= i < entries.len() && (#[trigger] entries[i]).0@ == name;
            if i < front.len() {
                assert(front[i].0@ == name);
            }
        }
    }
}

/// Where no name stands twice, each entry's name maps to that entry's id,
/// and the map has as many names as the list has entries.
pub proof fn lemma_index_map_distinct(entries: Seq<(String, usize)>)
    requires
        distinct_names(entries),
    ensures
        forall|i: int|
            0 <= i < entries.len() ==> index_map(entries)[(#[trigger] entries[i]).0@]
                == entries[i].1,
        index_map(entries).dom().len() == entries.len(),
    decreases entries.len(),
{
    if entries.len() > 0 {
        let front = entries.drop_last();
        assert(distinct_names(front)) by {
            assert forall|i: int, j: int| 0 <= i < j < front.len() implies (#[trigger] front[i]).0@
                != (#[trigger] front[j]).0@ by {
                assert(front[i] == entries[i]);
                assert(front[j] == entries[j]);
            }
        }
        lemma_index_map_distinct(front);
        lemma_index_map_domain(front);
        let last = entries.last();
        assert(!index_map(front).contains_key(last.0@)) by {
            if index_map(front).contains_key(last.0@) {
                let i = choose|i: int| 0 <= i < front.len() && (#[trigger] front[i]).0@ == last.0@;
                assert(entries[i].0@ == entries[entries.len() - 1].0@);
            }
        }
        assert forall|i: int| 0 <= i < entries.len() implies index_map(entries)[(
            #[trigger] entries[i]).0@] == entries[i].1 by {
            if i < front.len() {
                assert(front[i] == entries[i]);
                assert(entries[i].0@ != entries[entries.len() - 1].0@);
            }
        }
        assert(index_map(entries).dom() =~= index_map(front).dom().insert(last.0@));
    }
}

/// Replacing the id of an entry is putting its name in the map anew.
pub proof fn lemma_index_map_update(entries: Seq<(String, usize)>, at: int, entry: (String, usize))
    requires
        distinct_names(entries),
        0 <= at < entries.len(),
        entry.0@ == entries[at].0@,
    ensures
        distinct_names(entries.update(at, entry)),
        index_map(entries.update(at, entry)) == index_map(entries).insert(entry.0@, entry.1),
{
    let updated = entries.update(at, entry);
    assert(distinct_names(updated)) by {
        assert forall|i: int, j: int| 0 <= i < j < updated.len() implies (#[trigger] updated[i]).0@
            != (#[trigger] updated[j]).0@ by {
            assert(entries[i].0@ != entries[j].0@);
        }
    }
    lemma_index_map_distinct(entries);
    lemma_index_map_distinct(updated);
    lemma_index_map_domain(entries);
    lemma_index_map_domain(updated);
    let left = index_map(updated);
    let right = index_map(entries).insert(entry.0@, entry.1);
    assert forall|name: Seq<char>| left.contains_key(name) <==> right.contains_key(name) by {
        if left.contains_key(name) {
            let i = choose|i: int| 0 <= i < updated.len() && (#[trigger] updated[i]).0@ == name;
            assert(entries[i].0@ == name);
        }
        if right.contains_key(name) && name != entry.0@ {
            let i = choose|i: int| 0 <= i < entries.len() && (#[trigger] entries[i]).0@ == name;
            assert(updated[i].0@ == name);
        }
        if name == entry.0@ {
            assert(updated[at].0@ == name);
        }
    }
    assert forall|name: Seq<char>| left.contains_key(name) implies left[name] == right[name] by {
        let i = choose|i: int| 0 <= i < updated.len() && (#[trigger] updated[i]).0@ == name;
        assert(left[updated[i].0@] == updated[i].1);
        if i != at {
            assert(entries[i].0@ != entries[at].0@);
            assert(index_map(entries)[entries[i].0@] == entries[i].1);
        }
    }
    assert(left =~= right);
}

impl Transform {
    /// A transform that moves, turns and scales nothing.
    pub fn identity() -> (transform: Self)
        ensures
            transform == identity_transform(),
    {
        Transform {
        position: [0u32, 0u32, 0u32],
        rotation: [0u32, 0u32, 0u32, ONE],
        scale: [ONE, ONE, ONE],
    }
    }

    /// The identity transform, moved to a position. The coordinates are
    /// given as bit patterns.
    pub fn with_position(x: u32, y: u32, z: u32) -> (transform: Self)
        ensures
            transform.position == [x, y, z],
            transform.rotation == identity_transform().rotation,
            transform.scale == identity_transform().scale,
    {
        Transform { position: [x, y, z], rotation: [0u32, 0u32, 0u32, ONE], scale: [ONE, ONE, ONE] }
    }
}

/// Attaches `node` below the first node of the given id, if there is one;
/// else gives it back.
fn attach(current: &mut SceneNode, parent_id: usize, node: SceneNode) -> (rejected: Option<
    SceneNode,
>)
    ensures
        match rejected {
            None => has_id(old(current)@, parent_id) && final(current)@ == attach_under(
                old(current)@,
                parent_id,
                node@,
            ),
            Some(back) => back == node && !has_id(old(current)@, parent_id) && final(current)@
                == old(current)@,
        },
    decreases old(current)@,
{
    if current.id == parent_id {
        current.children.push(node);
        assert(current@ =~= with_child(old(current)@, node@)) by {
            assert(current@.children =~= old(current)@.children.push(node@));
        }
        return None;
    }
    let ghost before = current@;
    let ghost given = node;
    let mut carried = node;
    let mut i: usize = 0;
    while i < current.children.len()
        invariant
            i <= current.children.len(),
            current@ == before,
            before == old(current)@,
            carried == given,
            given == node,
            before.id != parent_id,
            forall|j: int| 0 <= j < i ==> !has_id(#[trigger] before.children[j], parent_id),
        decreases current.children.len() - i,
    {
        let ghost children_before = current.children@;
        match attach(&mut current.children[i], parent_id, carried) {
            None => {
                proof {
                    let grown = attach_under(before.children[i as int], parent_id, given@);
                    assert(current.children@ == children_before.update(
                        i as int,
                        current.children@[i as int],
                    ));
                    assert(current.children@[i as int]@ == grown);
                    lemma_first_with_id(before.children, parent_id);
                    assert(has_id(before.children[i as int], parent_id));
                    assert(first_with_id(before.children, parent_id) == i);
                    assert(0 <= i < before.children.len());
                    assert(has_id(before, parent_id));
                    let updated = before.children.update(i as int, grown);
                    assert forall|j: int| 0 <= j < before.children.len() implies (
                    #[trigger] current@.children[j]) == updated[j] by {
                        if j != i {
                            assert(current.children@[j] == children_before[j]);
                            assert(before.children[j] == children_before[j]@);
                        }
                    }
                    assert(current@.children =~= before.children.update(i as int, grown));
                    assert(attach_under(before, parent_id, given@) == with_child_at(
                        before,
                        i as int,
                        grown,
                    ));
                }
                return None;
            },
            Some(back) => {
                carried = back;
                proof {
                    assert(current.children@ == children_before.update(
                        i as int,
                        current.children@[i as int],
                    ));
                    assert(current@.children =~= before.children);
                }
            },
        }
        i = i + 1;
    }
    Some(carried)
}

/// Puts a name with its id in a list in which no name stands twice: in the
/// place of the entry of that name, or behind the others.
fn put(entries: &mut Vec<(String, usize)>, name: String, id: usize)
    requires
        distinct_names(old(entries)@),
    ensures
        distinct_names(final(entries)@),
        index_map(final(entries)@) == index_map(old(entries)@).insert(name@, id),
{
    let mut i: usize = 0;
    while i < entries.len()
        invariant
            i <= entries.len(),
            *entries == *old(entries),
            distinct_names(entries@),
            forall|j: int| 0 <= j < i ==> (#[trigger] entries@[j]).0@ != name@,
        decreases entries.len() - i,
    {
        if entries[i].0 == name {
            proof {
                lemma_index_map_update(entries@, i as int, (name, id));
            }
            entries.set(i, (name, id));
            return ;
        }
        i = i + 1;
    }
    let ghost before = entries@;
    entries.push((name, id));
    proof {
        assert(entries@.drop_last() =~= before);
        assert forall|a: int, b: int| 0 <= a < b < entries@.len() implies (
        #[trigger] entries@[a]).0@ != (#[trigger] entries@[b]).0@ by {
            if b < before.len() {
                assert(before[a].0@ != before[b].0@);
            } else {
                assert(before[a].0@ != name@);
            }
        }
    }
}

/// A scene graph: the tree of its nodes, what is known of the scene as a
/// whole, and an index from the names of nodes to their ids.
#[derive(Debug)]
pub struct Scene {
    root: SceneNode,
    metadata: SceneMetadata,
    objects: Vec<(String, usize)>,
}

impl Scene {
    /// The tree of nodes.
    pub closed spec fn tree(&self) -> NodeView {
        self.root@
    }

    /// The index from names to ids.
    pub closed spec fn names(&self) -> Map<Seq<char>, usize> {
        index_map(self.objects@)
    }

    /// The version of the scene's format.
    pub closed spec fn version(&self) -> Seq<char> {
        self.metadata.version@
    }

    /// When the scene was made, in seconds since the Unix epoch.
    pub closed spec fn created_at(&self) -> u64 {
        self.metadata.created_at
    }

    /// The seed of the scene.
    pub closed spec fn seed(&self) -> u64 {
        self.metadata.deterministic_seed
    }

    /// The index holds each name once.
    pub closed spec fn well_formed(&self) -> bool {
        distinct_names(self.objects@)
    }

    /// The index of a scene holds finitely many names.
    pub proof fn lemma_names_finite(&self)
        ensures
            self.names().dom().finite(),
    {
        lemma_index_map_domain(self.objects@);
    }

    /// A scene with the usual seed and no nodes but the root, made at the
    /// given time.
    pub fn new(created_at: u64) -> (scene: Self)
        ensures
            scene.well_formed(),
            scene.tree() == empty_root(),
            scene.names() == Map::<Seq<char>, usize>::empty(),
            scene.version() == "1.0.0"@,
            scene.created_at() == created_at,
            scene.seed() == DEFAULT_SEED,
    {
        Scene::with_seed(DEFAULT_SEED, created_at)
    }

    /// A scene with the given seed and no nodes but the root, made at the
    /// given time.
    pub fn with_seed(seed: u64, created_at: u64) -> (scene: Self)
        ensures
            scene.well_formed(),
            scene.tree() == empty_root(),
            scene.names() == Map::<Seq<char>, usize>::empty(),
            scene.version() == "1.0.0"@,
            scene.created_at() == created_at,
            scene.seed() == seed,
    {
        let root = SceneNode {
            id: 0,
            name: "root".to_owned(),
            transform: Transform::identity(),
            object_type: ObjectType::Empty,
            children: Vec::new(),
        };
        assert(root@.children =~= Seq::<NodeView>::empty());
        Scene {
            root,
            metadata: SceneMetadata {
                version: "1.0.0".to_owned(),
                created_at,
                deterministic_seed: seed,
            },
            objects: Vec::new(),
        }
    }

    /// A scene made of the given parts. Where a name stands twice in
    /// `objects`, the later entry counts.
    pub fn from_parts(
        root: SceneNode,
        metadata: SceneMetadata,
        objects: Vec<(String, usize)>,
    ) -> (scene: Self)
        ensures
            scene.well_formed(),
            scene.tree() == root@,
            scene.names() == index_map(objects@),
            scene.version() == metadata.version@,
            scene.created_at() == metadata.created_at,
            scene.seed() == metadata.deterministic_seed,
    {
        let mut index: Vec<(String, usize)> = Vec::new();
        let mut i: usize = 0;
        while i < objects.len()
            invariant
                i <= objects.len(),
                distinct_names(index@),
                index_map(index@) == index_map(objects@.take(i as int)),
            decreases objects.len() - i,
        {
            let name = objects[i].0.clone();
            let id = objects[i].1;
            proof {
                let next = objects@.take(i + 1);
                assert(next.drop_last() =~= objects@.take(i as int));
                assert(next.last() == objects@[i as int]);
            }
            put(&mut index, name, id);
            i = i + 1;
        }
        assert(objects@.take(objects.len() as int) =~= objects@);
        Scene { root, metadata, objects: index }
    }

    /// Adds a node of the given name and kind below a parent. The parent is
    /// the root where `parent_id` is 0, else the first node of that id. The
    /// new node gets the id that follows the number of names in the index,
    /// and the index then maps the name to it. Where no node has the
    /// parent's id, nothing is added.
    pub fn add_node(&mut self, name: String, parent_id: usize, object_type: ObjectType) -> (result:
        Result<usize, String>)
        requires
            old(self).well_formed(),
            old(self).names().dom().len() < usize::MAX,
        ensures
            final(self).well_formed(),
            final(self).version() == old(self).version(),
            final(self).created_at() == old(self).created_at(),
            final(self).seed() == old(self).seed(),
            match result {
                Ok(id) => {
                    &&& attachable(old(self).tree(), parent_id)
                    &&& id == old(self).names().dom().len() + 1
                    &&& final(self).tree() == attached(
                        old(self).tree(),
                        parent_id,
                        fresh_node(id, name@, object_type),
                    )
                    &&& final(self).names() == old(self).names().insert(name@, id)
                },
                Err(message) => {
                    &&& !attachable(old(self).tree(), parent_id)
                    &&& message@ == parent_not_found(parent_id)
                    &&& final(self).tree() == old(self).tree()
                    &&& final(self).names() == old(self).names()
                },
            },
    {
        proof {
            lemma_index_map_distinct(self.objects@);
        }
        let new_id: usize = self.objects.len() + 1;
        let new_node = SceneNode {
            id: new_id,
            name: name.clone(),
            transform: Transform::identity(),
            object_type,
            children: Vec::new(),
        };
        assert(new_node@ =~= fresh_node(new_id, name@, object_type)) by {
            assert(new_node@.children =~= Seq::<NodeView>::empty());
        }
        if parent_id == 0 {
            self.root.children.push(new_node);
            assert(self.root@ =~= with_child(old(self).root@, new_node@)) by {
                assert(self.root@.children =~= old(self).root@.children.push(new_node@));
            }
        } else {
            match attach(&mut self.root, parent_id, new_node) {
                None => {},
                Some(_) => {
                    let mut message = "Parent node ".to_owned();
                    let number = decimal_string(parent_id);
                    message.append(number.as_str());
                    message.append(" not found");
                    return Err(message);
                },
            }
        }
        put(&mut self.objects, name, new_id);
        Ok(new_id)
    }

    /// The root of the tree.
    pub fn root(&self) -> (root: &SceneNode)
        ensures
            root@ == self.tree(),
    {
        &self.root
    }

    /// What is known of the scene as a whole.
    pub fn metadata(&self) -> (metadata: &SceneMetadata)
        ensures
            metadata.version@ == self.version(),
            metadata.created_at == self.created_at(),
            metadata.deterministic_seed == self.seed(),
    {
        &self.metadata
    }

    /// The index as a list of names with their ids, each name once.
    pub fn objects(&self) -> (objects: &Vec<(String, usize)>)
        requires
            self.well_formed(),
        ensures
            distinct_names(objects@),
            index_map(objects@) == self.names(),
    {
        &self.objects
    }

    /// The number of names in the index.
    pub fn name_count(&self) -> (count: usize)
        requires
            self.well_formed(),
        ensures
            count == self.names().dom().len(),
    {
        proof {
            lemma_index_map_distinct(self.objects@);
        }
        self.objects.len()
    }

    /// The id that the index holds for a name.
    pub fn get_node_by_name(&self, name: &str) -> (found: Option<usize>)
        requires
            self.well_formed(),
        ensures
            found == if self.names().contains_key(name@) {
                Some(self.names()[name@])
            } else {
                None
            },
    {
        let wanted = name.to_owned();
        let mut i: usize = 0;
        while i < self.objects.len()
            invariant
                i <= self.objects.len(),
                self.well_formed(),
                wanted@ == name@,
                forall|j: int| 0 <= j < i ==> (#[trigger] self.objects@[j]).0@ != name@,
            decreases self.objects.len() - i,
        {
            if self.objects[i].0 == wanted {
                proof {
                    lemma_index_map_distinct(self.objects@);
                    lemma_index_map_domain(self.objects@);
                    assert(self.objects@[i as int].0@ == name@);
                }
                return Some(self.objects[i].1);
            }
            i = i + 1;
        }
        proof {
            lemma_index_map_domain(self.objects@);
        }
        None
    }
}

} // verus!
