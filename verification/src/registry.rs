//! The global type registry: a namespace tree built once over every input
//! file, keyed by package components and nested declaration names, and
//! queried read-only afterwards to resolve cross-file type references.

use vstd::prelude::*;

use crate::decode::opt_chars;
use crate::model::{EnumDeclaration, FileDeclaration, MessageDeclaration};
use crate::text::{split_char, split_on};
use crate::IndexError;

verus! {

broadcast use vstd::seq::group_seq_axioms;

use vstd::assert_by_contradiction;

/// What a registry node stands for: a pure namespace, a message declaration,
/// or an enum declaration.
#[derive(Clone, Copy, Debug, PartialEq, Eq, Structural)]
pub enum NodeKind {
    Package,
    Message,
    Enum,
}

/// One named entry of the registry, with its children keyed by name.
pub struct TypeTreeNode {
    pub name: String,
    pub kind: NodeKind,
    pub children: Vec<TypeTreeNode>,
}

/// The mathematical value of a [`TypeTreeNode`].
pub ghost struct NodeV {
    pub name: Seq<char>,
    pub kind: NodeKind,
    pub children: Seq<NodeV>,
}

/// The mathematical value of one registry node.
pub open spec fn node_view(n: TypeTreeNode) -> NodeV
    decreases n,
{
    NodeV { name: n.name@, kind: n.kind, children: nodes_view(n.children@) }
}

/// The mathematical values of a sibling list of registry nodes, in order.
pub open spec fn nodes_view(s: Seq<TypeTreeNode>) -> Seq<NodeV>
    decreases s,
{
    if s.len() == 0 {
        Seq::<NodeV>::empty()
    } else {
        seq![node_view(s[0])] + nodes_view(s.skip(1))
    }
}

/// `nodes_view` maps the list elementwise.
pub proof fn lemma_nodes_view(s: Seq<TypeTreeNode>)
    ensures
        nodes_view(s).len() == s.len(),
        forall|i: int| 0 <= i < s.len() ==> nodes_view(s)[i] == node_view(s[i]),
    decreases s.len(),
{
    if s.len() > 0 {
        lemma_nodes_view(s.skip(1));
        assert forall|i: int| 0 <= i < s.len() implies nodes_view(s)[i] == node_view(s[i]) by {
            if i > 0 {
                assert(nodes_view(s)[i] == nodes_view(s.skip(1))[i - 1]);
                assert(s.skip(1)[i - 1] == s[i]);
            }
        }
    }
}

/// The first sibling named `name`, if any.
pub open spec fn spec_lookup(nodes: Seq<NodeV>, name: Seq<char>) -> Option<NodeV>
    decreases nodes.len(),
{
    if nodes.len() == 0 {
        Option::None
    } else if nodes[0].name == name {
        Option::Some(nodes[0])
    } else {
        spec_lookup(nodes.skip(1), name)
    }
}

/// When no sibling before `i` is named `name`, the lookup is decided by the
/// siblings from `i` on.
pub proof fn lemma_lookup_skip(nodes: Seq<NodeV>, name: Seq<char>, i: int)
    requires
        0 <= i <= nodes.len(),
        forall|k: int| 0 <= k < i ==> nodes[k].name != name,
    ensures
        spec_lookup(nodes, name) == spec_lookup(nodes.skip(i), name),
    decreases i,
{
    if i > 0 {
        lemma_lookup_skip(nodes.skip(1), name, i - 1);
        assert(nodes.skip(1).skip(i - 1) =~= nodes.skip(i));
    } else {
        assert(nodes.skip(0) =~= nodes);
    }
}

/// Registration of one node among its siblings: a sibling with the same name
/// is replaced in place (the later registration wins), otherwise the node is
/// appended.
pub open spec fn spec_insert(nodes: Seq<NodeV>, node: NodeV) -> Seq<NodeV>
    decreases nodes.len(),
{
    if nodes.len() == 0 {
        seq![node]
    } else if nodes[0].name == node.name {
        seq![node] + nodes.skip(1)
    } else {
        seq![nodes[0]] + spec_insert(nodes.skip(1), node)
    }
}

/// Inserting over the first sibling with the node's name updates that slot.
pub proof fn lemma_insert_found(nodes: Seq<NodeV>, node: NodeV, j: int)
    requires
        0 <= j < nodes.len(),
        nodes[j].name == node.name,
        forall|k: int| 0 <= k < j ==> nodes[k].name != node.name,
    ensures
        spec_insert(nodes, node) =~~= nodes.update(j, node),
    decreases j,
{
    if j == 0 {
        assert(seq![node] + nodes.skip(1) =~= nodes.update(0, node));
    } else {
        lemma_insert_found(nodes.skip(1), node, j - 1);
        assert(seq![nodes[0]] + nodes.skip(1).update(j - 1, node) =~= nodes.update(j, node));
    }
}

/// Inserting a node whose name no sibling carries appends it.
pub proof fn lemma_insert_absent(nodes: Seq<NodeV>, node: NodeV)
    requires
        forall|k: int| 0 <= k < nodes.len() ==> nodes[k].name != node.name,
    ensures
        spec_insert(nodes, node) =~~= nodes.push(node),
    decreases nodes.len(),
{
    if nodes.len() > 0 {
        lemma_insert_absent(nodes.skip(1), node);
        assert(seq![nodes[0]] + nodes.skip(1).push(node) =~= nodes.push(node));
    }
}

/// Registration of a whole list of nodes, one at a time, in order.
pub open spec fn spec_insert_all(nodes: Seq<NodeV>, add: Seq<NodeV>) -> Seq<NodeV>
    decreases add.len(),
{
    if add.len() == 0 {
        nodes
    } else {
        spec_insert_all(spec_insert(nodes, add[0]), add.skip(1))
    }
}

/// Whether this message and every message and enum nested under it carry a
/// name, as the registry build requires.
pub open spec fn msg_tree_named(m: MessageDeclaration) -> bool
    decreases m,
{
    &&& m.name is Some
    &&& forall|i: int|
        0 <= i < m.messages@.len() ==> msg_tree_named(#[trigger] m.messages@[i])
    &&& forall|i: int| 0 <= i < m.enums@.len() ==> (#[trigger] m.enums@[i]).name is Some
}

/// Whether the file declares a package and names every message and enum in
/// its declaration tree.
pub open spec fn file_decls_named(f: FileDeclaration) -> bool {
    &&& f.package is Some
    &&& forall|i: int|
        0 <= i < f.messages@.len() ==> msg_tree_named(#[trigger] f.messages@[i])
    &&& forall|i: int| 0 <= i < f.enums@.len() ==> (#[trigger] f.enums@[i]).name is Some
}

/// Whether every file of the input set can be registered.
pub open spec fn files_named(files: Seq<FileDeclaration>) -> bool {
    forall|i: int| 0 <= i < files.len() ==> file_decls_named(#[trigger] files[i])
}

/// The registry node a message declaration registers: its name, the message
/// kind, and its nested declarations as children (messages first, then
/// enums, later registrations winning on equal names).
pub open spec fn spec_msg_node(m: MessageDeclaration) -> NodeV
    decreases m, 1int,
{
    NodeV {
        name: opt_chars(m.name),
        kind: NodeKind::Message,
        children: spec_insert_all(
            spec_insert_all(Seq::<NodeV>::empty(), spec_msg_nodes_from(m.messages@, 0)),
            spec_enum_nodes_from(m.enums@, 0),
        ),
    }
}

/// The registry nodes of the messages from index `i` on, in order.
pub open spec fn spec_msg_nodes_from(s: Seq<MessageDeclaration>, i: int) -> Seq<NodeV>
    decreases s, 0int, s.len() - i,
{
    if i < 0 || i >= s.len() {
        Seq::<NodeV>::empty()
    } else {
        seq![spec_msg_node(s[i])] + spec_msg_nodes_from(s, i + 1)
    }
}

/// The registry node an enum declaration registers: a leaf.
pub open spec fn spec_enum_node(e: EnumDeclaration) -> NodeV {
    NodeV { name: opt_chars(e.name), kind: NodeKind::Enum, children: Seq::<NodeV>::empty() }
}

/// The registry nodes of the enums from index `i` on, in order.
pub open spec fn spec_enum_nodes_from(s: Seq<EnumDeclaration>, i: int) -> Seq<NodeV>
    decreases s.len() - i,
{
    if i < 0 || i >= s.len() {
        Seq::<NodeV>::empty()
    } else {
        seq![spec_enum_node(s[i])] + spec_enum_nodes_from(s, i + 1)
    }
}

/// Registration of `add` under the package component path `comps`: missing
/// package nodes are created along the path, an existing node on the path is
/// kept (its other children untouched), and `add` is merged into the node at
/// the path's end.
pub open spec fn spec_graft(nodes: Seq<NodeV>, comps: Seq<Seq<char>>, add: Seq<NodeV>) -> Seq<
    NodeV,
>
    decreases comps.len(),
{
    if comps.len() == 0 {
        spec_insert_all(nodes, add)
    } else {
        let child = match spec_lookup(nodes, comps[0]) {
            Option::Some(n) => NodeV {
                name: n.name,
                kind: n.kind,
                children: spec_graft(n.children, comps.skip(1), add),
            },
            Option::None => NodeV {
                name: comps[0],
                kind: NodeKind::Package,
                children: spec_graft(Seq::<NodeV>::empty(), comps.skip(1), add),
            },
        };
        spec_insert(nodes, child)
    }
}

/// The registry after one file is registered: its declarations grafted under
/// its package component path.
pub open spec fn spec_add_file(nodes: Seq<NodeV>, f: FileDeclaration) -> Seq<NodeV> {
    spec_graft(
        nodes,
        split_on(opt_chars(f.package), '.'),
        spec_msg_nodes_from(f.messages@, 0) + spec_enum_nodes_from(f.enums@, 0),
    )
}

/// The registry after the files from index `i` on are registered, in order.
pub open spec fn spec_registry_from(nodes: Seq<NodeV>, files: Seq<FileDeclaration>, i: int) -> Seq<
    NodeV,
>
    decreases files.len() - i,
{
    if i < 0 || i >= files.len() {
        nodes
    } else {
        spec_registry_from(spec_add_file(nodes, files[i]), files, i + 1)
    }
}

/// The registry built over the whole input set, in file order.
pub open spec fn spec_registry(files: Seq<FileDeclaration>) -> Seq<NodeV> {
    spec_registry_from(Seq::<NodeV>::empty(), files, 0)
}

/// The index of the first sibling named as `name`, if any.
pub(crate) fn find_index(nodes: &Vec<TypeTreeNode>, name: &String) -> (r: Option<usize>)
    ensures
        match r {
            Option::Some(j) => {
                &&& 0 <= j < nodes@.len()
                &&& nodes@[j as int].name@ == name@
                &&& forall|k: int| 0 <= k < j ==> nodes@[k].name@ != name@
            },
            Option::None => forall|k: int| 0 <= k < nodes@.len() ==> nodes@[k].name@ != name@,
        },
{
    let mut j: usize = 0;
    while j < nodes.len()
        invariant
            0 <= j <= nodes@.len(),
            forall|k: int| 0 <= k < j ==> nodes@[k].name@ != name@,
        decreases nodes@.len() - j,
    {
        if nodes[j].name == *name {
            return Some(j);
        }
        j = j + 1;
    }
    None
}

/// Registers one node among its siblings: replaces the first sibling with
/// the same name, or appends.
fn insert_node(nodes: &mut Vec<TypeTreeNode>, node: TypeTreeNode)
    ensures
        nodes_view(final(nodes)@) == spec_insert(nodes_view(old(nodes)@), node_view(node)),
{
    let ghost orig = nodes@;
    proof {
        lemma_nodes_view(orig);
    }
    let found = find_index(nodes, &node.name);
    let ghost node_v = node_view(node);
    match found {
        Some(j) => {
            proof {
                lemma_insert_found(nodes_view(orig), node_v, j as int);
            }
            nodes.remove(j);
            nodes.insert(j, node);
            proof {
                assert(nodes@ =~= orig.update(j as int, node));
                lemma_nodes_view(nodes@);
                assert(nodes_view(nodes@) =~= nodes_view(orig).update(j as int, node_v));
            }
        },
        None => {
            proof {
                lemma_insert_absent(nodes_view(orig), node_v);
            }
            nodes.push(node);
            proof {
                assert(nodes@ =~= orig.push(node));
                lemma_nodes_view(nodes@);
                assert(nodes_view(nodes@) =~= nodes_view(orig).push(node_v));
            }
        },
    }
}

/// Registers a whole list of nodes, one at a time, in order.
fn insert_all(nodes: &mut Vec<TypeTreeNode>, add: Vec<TypeTreeNode>)
    ensures
        nodes_view(final(nodes)@) == spec_insert_all(nodes_view(old(nodes)@), nodes_view(add@)),
{
    let ghost add0 = add@;
    let mut add = add;
    while add.len() > 0
        invariant
            spec_insert_all(nodes_view(nodes@), nodes_view(add@)) == spec_insert_all(
                nodes_view(old(nodes)@),
                nodes_view(add0),
            ),
        decreases add@.len(),
    {
        let ghost before_add = add@;
        let ghost before_nodes = nodes@;
        let node = add.remove(0);
        proof {
            lemma_nodes_view(before_add);
            assert(add@ =~= before_add.skip(1));
            lemma_nodes_view(add@);
            assert(nodes_view(before_add) =~= seq![node_view(node)] + nodes_view(add@));
        }
        insert_node(nodes, node);
        proof {
            assert(nodes_view(before_add)[0] == node_view(node));
            assert(nodes_view(before_add).skip(1) =~= nodes_view(add@));
            assert(spec_insert_all(nodes_view(before_nodes), nodes_view(before_add))
                == spec_insert_all(
                spec_insert(nodes_view(before_nodes), node_view(node)),
                nodes_view(add@),
            ));
        }
    }
    proof {
        lemma_nodes_view(add@);
    }
}

/// The registry node of one enum declaration, or the error for a missing
/// name.
fn node_of_enum(e: &EnumDeclaration) -> (r: Result<TypeTreeNode, IndexError>)
    ensures
        match r {
            Result::Ok(n) => e.name is Some && node_view(n) == spec_enum_node(*e),
            Result::Err(er) => er == IndexError::MalformedInput && !(e.name is Some),
        },
{
    match &e.name {
        None => Err(IndexError::MalformedInput),
        Some(name) => {
            let n = TypeTreeNode { name: name.clone(), kind: NodeKind::Enum, children: Vec::new() };
            proof {
                assert(nodes_view(n.children@) =~= Seq::<NodeV>::empty());
            }
            Ok(n)
        },
    }
}

/// The registry node of one message declaration with all its nested
/// declarations, or the error for a missing name anywhere below it.
fn node_of_message(m: &MessageDeclaration) -> (r: Result<TypeTreeNode, IndexError>)
    ensures
        match r {
            Result::Ok(n) => msg_tree_named(*m) && node_view(n) == spec_msg_node(*m),
            Result::Err(er) => er == IndexError::MalformedInput && !msg_tree_named(*m),
        },
    decreases *m,
{
    let name = match &m.name {
        None => {
            return Err(IndexError::MalformedInput);
        },
        Some(name) => name,
    };
    let mut msg_nodes: Vec<TypeTreeNode> = Vec::new();
    let mut k: usize = 0;
    proof {
        assert(nodes_view(msg_nodes@) =~= Seq::<NodeV>::empty());
    }
    while k < m.messages.len()
        invariant
            0 <= k <= m.messages@.len(),
            forall|j: int| 0 <= j < k ==> msg_tree_named(#[trigger] m.messages@[j]),
            nodes_view(msg_nodes@) + spec_msg_nodes_from(m.messages@, k as int)
                =~= spec_msg_nodes_from(m.messages@, 0),
        decreases m.messages@.len() - k,
    {
        let ghost before = msg_nodes@;
        match node_of_message(&m.messages[k]) {
            Err(er) => {
                assert(!msg_tree_named(m.messages@[k as int]));
                return Err(er);
            },
            Ok(n) => {
                let ghost n_v = node_view(n);
                msg_nodes.push(n);
                proof {
                    lemma_nodes_view(before);
                    lemma_nodes_view(msg_nodes@);
                    assert(nodes_view(msg_nodes@) =~= nodes_view(before).push(n_v));
                    assert(nodes_view(msg_nodes@) + spec_msg_nodes_from(m.messages@, k + 1)
                        =~= spec_msg_nodes_from(m.messages@, 0));
                }
            },
        }
        k = k + 1;
    }
    let mut enum_nodes: Vec<TypeTreeNode> = Vec::new();
    let mut k2: usize = 0;
    proof {
        assert(nodes_view(enum_nodes@) =~= Seq::<NodeV>::empty());
        assert(spec_msg_nodes_from(m.messages@, k as int) =~= Seq::<NodeV>::empty());
        assert(nodes_view(msg_nodes@) =~= spec_msg_nodes_from(m.messages@, 0));
    }
    while k2 < m.enums.len()
        invariant
            0 <= k2 <= m.enums@.len(),
            forall|j: int| 0 <= j < k2 ==> (#[trigger] m.enums@[j]).name is Some,
            nodes_view(enum_nodes@) + spec_enum_nodes_from(m.enums@, k2 as int)
                =~= spec_enum_nodes_from(m.enums@, 0),
        decreases m.enums@.len() - k2,
    {
        let ghost before = enum_nodes@;
        match node_of_enum(&m.enums[k2]) {
            Err(er) => {
                assert(!(m.enums@[k2 as int].name is Some));
                return Err(er);
            },
            Ok(n) => {
                let ghost n_v = node_view(n);
                enum_nodes.push(n);
                proof {
                    lemma_nodes_view(before);
                    lemma_nodes_view(enum_nodes@);
                    assert(nodes_view(enum_nodes@) =~= nodes_view(before).push(n_v));
                    assert(nodes_view(enum_nodes@) + spec_enum_nodes_from(m.enums@, k2 + 1)
                        =~= spec_enum_nodes_from(m.enums@, 0));
                }
            },
        }
        k2 = k2 + 1;
    }
    proof {
        assert(spec_enum_nodes_from(m.enums@, k2 as int) =~= Seq::<NodeV>::empty());
        assert(nodes_view(enum_nodes@) =~= spec_enum_nodes_from(m.enums@, 0));
    }
    let mut children: Vec<TypeTreeNode> = Vec::new();
    proof {
        assert(nodes_view(children@) =~= Seq::<NodeV>::empty());
    }
    insert_all(&mut children, msg_nodes);
    insert_all(&mut children, enum_nodes);
    let n = TypeTreeNode { name: name.clone(), kind: NodeKind::Message, children };
    Ok(n)
}

/// Grafts `add` under the package component path `comps[ci..]`, creating
/// missing package nodes along the path.
fn graft(nodes: Vec<TypeTreeNode>, comps: &Vec<String>, ci: usize, add: Vec<TypeTreeNode>) -> (r:
    Vec<TypeTreeNode>)
    requires
        ci <= comps@.len(),
    ensures
        nodes_view(r@) == spec_graft(
            nodes_view(nodes@),
            comps.deep_view().skip(ci as int),
            nodes_view(add@),
        ),
    decreases comps@.len() - ci,
{
    let ghost nodes0 = nodes@;
    let ghost comps_v = comps.deep_view().skip(ci as int);
    let ghost add_v = nodes_view(add@);
    if ci == comps.len() {
        let mut nodes = nodes;
        insert_all(&mut nodes, add);
        proof {
            assert(comps_v =~= Seq::<Seq<char>>::empty());
        }
        nodes
    } else {
        proof {
            lemma_nodes_view(nodes0);
            assert(comps_v[0] == comps@[ci as int]@);
            assert(comps_v.skip(1) =~= comps.deep_view().skip(ci + 1));
        }
        let found = find_index(&nodes, &comps[ci]);
        match found {
            Some(j) => {
                proof {
                    lemma_lookup_skip(nodes_view(nodes0), comps_v[0], j as int);
                    assert(nodes_view(nodes0).skip(j as int)[0] == nodes_view(nodes0)[j as int]);
                    assert(spec_lookup(nodes_view(nodes0), comps_v[0])
                        == Option::Some(nodes_view(nodes0)[j as int]));
                }
                let mut nodes = nodes;
                let node = nodes.remove(j);
                let TypeTreeNode { name, kind, children } = node;
                let ghost old_child_v = NodeV { name: name@, kind, children: nodes_view(children@) };
                let children2 = graft(children, comps, ci + 1, add);
                let node2 = TypeTreeNode { name, kind, children: children2 };
                let ghost child_v = node_view(node2);
                nodes.insert(j, node2);
                proof {
                    assert(nodes_view(nodes0)[j as int] == old_child_v);
                    assert(child_v == NodeV {
                        name: old_child_v.name,
                        kind: old_child_v.kind,
                        children: spec_graft(old_child_v.children, comps_v.skip(1), add_v),
                    });
                    lemma_insert_found(nodes_view(nodes0), child_v, j as int);
                    assert(nodes@ =~= nodes0.update(j as int, node2));
                    lemma_nodes_view(nodes@);
                    assert(nodes_view(nodes@) =~= nodes_view(nodes0).update(j as int, child_v));
                    assert(nodes_view(nodes@) =~= spec_graft(nodes_view(nodes0), comps_v, add_v));
                }
                nodes
            },
            None => {
                proof {
                    lemma_lookup_skip(nodes_view(nodes0), comps_v[0], nodes0.len() as int);
                    assert(nodes_view(nodes0).skip(nodes0.len() as int)
                        =~= Seq::<NodeV>::empty());
                    assert(spec_lookup(nodes_view(nodes0), comps_v[0]) is None);
                }
                let empty_vec: Vec<TypeTreeNode> = Vec::new();
                proof {
                    assert(nodes_view(empty_vec@) =~= Seq::<NodeV>::empty());
                }
                let sub = graft(empty_vec, comps, ci + 1, add);
                let node2 = TypeTreeNode {
                    name: comps[ci].clone(),
                    kind: NodeKind::Package,
                    children: sub,
                };
                let ghost child_v = node_view(node2);
                let mut nodes = nodes;
                nodes.push(node2);
                proof {
                    lemma_insert_absent(nodes_view(nodes0), child_v);
                    assert(nodes@ =~= nodes0.push(node2));
                    lemma_nodes_view(nodes@);
                    assert(nodes_view(nodes@) =~= nodes_view(nodes0).push(child_v));
                    assert(nodes_view(nodes@) =~= spec_graft(nodes_view(nodes0), comps_v, add_v));
                }
                nodes
            },
        }
    }
}

/// The global registry: the namespace roots built over the whole input set.
pub struct TypeTree {
    pub roots: Vec<TypeTreeNode>,
}

impl TypeTree {
    /// The mathematical value of the registry.
    pub open spec fn view_roots(&self) -> Seq<NodeV> {
        nodes_view(self.roots@)
    }

    /// Builds the registry over every input file, in file order: one package
    /// chain per file, with the file's message and enum declaration trees
    /// registered under it. Fails exactly when a file misses its package or
    /// a declaration name.
    #[verifier::loop_isolation(false)]
    pub fn build(files: &Vec<FileDeclaration>) -> (r: Result<TypeTree, IndexError>)
        ensures
            match r {
                Result::Ok(t) => files_named(files@) && t.view_roots() == spec_registry(files@),
                Result::Err(e) => e == IndexError::MalformedInput && !files_named(files@),
            },
    {
        let mut roots: Vec<TypeTreeNode> = Vec::new();
        proof {
            assert(nodes_view(roots@) =~= Seq::<NodeV>::empty());
        }
        let mut i: usize = 0;
        while i < files.len()
            invariant
                0 <= i <= files@.len(),
                forall|k: int| 0 <= k < i ==> file_decls_named(#[trigger] files@[k]),
                spec_registry_from(nodes_view(roots@), files@, i as int) == spec_registry(
                    files@,
                ),
            decreases files@.len() - i,
        {
            let ghost roots_v = nodes_view(roots@);
            let f = &files[i];
            let pkg = match &f.package {
                None => {
                    assert(!file_decls_named(files@[i as int]));
                    return Err(IndexError::MalformedInput);
                },
                Some(p) => p,
            };
            let mut add: Vec<TypeTreeNode> = Vec::new();
            proof {
                assert(nodes_view(add@) =~= Seq::<NodeV>::empty());
            }
            let mut k: usize = 0;
            while k < f.messages.len()
                invariant
                    0 <= k <= f.messages@.len(),
                    forall|j: int| 0 <= j < k ==> msg_tree_named(#[trigger] f.messages@[j]),
                    nodes_view(add@) + spec_msg_nodes_from(f.messages@, k as int)
                        =~= spec_msg_nodes_from(f.messages@, 0),
                decreases f.messages@.len() - k,
            {
                let ghost before = add@;
                match node_of_message(&f.messages[k]) {
                    Err(er) => {
                        proof {
                            assert(!msg_tree_named(f.messages@[k as int]));
                            assert_by_contradiction!(!file_decls_named(files@[i as int]), {
                                assert(msg_tree_named(files@[i as int].messages@[k as int]));
                            });
                        }
                        return Err(er);
                    },
                    Ok(n) => {
                        let ghost n_v = node_view(n);
                        add.push(n);
                        proof {
                            lemma_nodes_view(before);
                            lemma_nodes_view(add@);
                            assert(nodes_view(add@) =~= nodes_view(before).push(n_v));
                            assert(nodes_view(add@) + spec_msg_nodes_from(f.messages@, k + 1)
                                =~= spec_msg_nodes_from(f.messages@, 0));
                        }
                    },
                }
                k = k + 1;
            }
            proof {
                assert(spec_msg_nodes_from(f.messages@, k as int) =~= Seq::<NodeV>::empty());
                assert(nodes_view(add@) =~= spec_msg_nodes_from(f.messages@, 0));
            }
            let ghost msgs_v = nodes_view(add@);
            let mut k2: usize = 0;
            while k2 < f.enums.len()
                invariant
                    0 <= k2 <= f.enums@.len(),
                    forall|j: int| 0 <= j < k2 ==> (#[trigger] f.enums@[j]).name is Some,
                    nodes_view(add@) + spec_enum_nodes_from(f.enums@, k2 as int)
                        =~= msgs_v + spec_enum_nodes_from(f.enums@, 0),
                decreases f.enums@.len() - k2,
            {
                let ghost before = add@;
                match node_of_enum(&f.enums[k2]) {
                    Err(er) => {
                        proof {
                            assert(!(f.enums@[k2 as int].name is Some));
                            assert_by_contradiction!(!file_decls_named(files@[i as int]), {
                                assert(files@[i as int].enums@[k2 as int].name is Some);
                            });
                        }
                        return Err(er);
                    },
                    Ok(n) => {
                        let ghost n_v = node_view(n);
                        add.push(n);
                        proof {
                            lemma_nodes_view(before);
                            lemma_nodes_view(add@);
                            assert(nodes_view(add@) =~= nodes_view(before).push(n_v));
                            assert(nodes_view(add@) + spec_enum_nodes_from(f.enums@, k2 + 1)
                                =~= msgs_v + spec_enum_nodes_from(f.enums@, 0));
                        }
                    },
                }
                k2 = k2 + 1;
            }
            proof {
                assert(spec_enum_nodes_from(f.enums@, k2 as int) =~= Seq::<NodeV>::empty());
                assert(nodes_view(add@) =~= spec_msg_nodes_from(f.messages@, 0)
                    + spec_enum_nodes_from(f.enums@, 0));
            }
            let comps = split_char(pkg.as_str(), '.');
            let roots2 = graft(roots, &comps, 0, add);
            roots = roots2;
            proof {
                assert(comps.deep_view().skip(0) =~= comps.deep_view());
                assert(file_decls_named(files@[i as int]));
                assert(nodes_view(roots@) == spec_add_file(roots_v, files@[i as int]));
                assert(spec_registry_from(nodes_view(roots@), files@, i + 1) == spec_registry(
                    files@,
                ));
            }
            i = i + 1;
        }
        Ok(TypeTree { roots })
    }
}

} // verus!
