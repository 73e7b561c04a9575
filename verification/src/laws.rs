//! Library-level laws: properties of the decoder and the assembler that
//! hold for every input, stated over the same specifications the executable
//! functions are proved against.

use vstd::prelude::*;

use crate::assemble::{spec_entries_from, OccurrenceV};
use crate::decode::{
    opt_chars, spec_decode, DecodeResultV, PositionV, SegmentKind, SegmentV, spec_decode_from,
};
use crate::model::FileDeclaration;
use crate::registry::{
    spec_add_file, spec_enum_nodes_from, spec_graft, spec_insert, spec_insert_all, spec_lookup,
    spec_msg_node, spec_msg_nodes_from, spec_registry, spec_registry_from, NodeKind, NodeV,
};
use crate::resolve::{spec_resolve, spec_walk};
use crate::text::{lemma_split_on_nonempty, split_on};
use crate::IndexError;

verus! {

broadcast use vstd::seq::group_seq_axioms;

/// Decoding is idempotent: the decoder's result is an exact function of the
/// file and the path alone, so any two results that meet its contract for
/// the same inputs are the same value.
pub proof fn lemma_decode_deterministic(
    f: FileDeclaration,
    path: Seq<i32>,
    r1: Result<Option<DecodeResultV>, IndexError>,
    r2: Result<Option<DecodeResultV>, IndexError>,
)
    requires
        r1 == spec_decode(f, path),
        r2 == spec_decode(f, path),
    ensures
        r1 == r2,
{
}

/// Segment ordering: for a field two message levels deep, the path to the
/// field's own name decodes to the enclosing messages' `type`-kind segments
/// in outer-to-inner order followed by the field's `term`-kind segment, and
/// the path to the field's declared type decodes to the external reference
/// carrying the field's dotted type name.
pub proof fn lemma_nested_field_segments(f: FileDeclaration, ai: i32, bi: i32, fi: i32)
    requires
        0 <= ai < f.messages@.len(),
        f.messages@[ai as int].name is Some,
        0 <= bi < f.messages@[ai as int].messages@.len(),
        f.messages@[ai as int].messages@[bi as int].name is Some,
        0 <= fi < f.messages@[ai as int].messages@[bi as int].fields@.len(),
        f.messages@[ai as int].messages@[bi as int].fields@[fi as int].name is Some,
        f.messages@[ai as int].messages@[bi as int].fields@[fi as int].declared_type is Some,
    ensures
        spec_decode(f, seq![4i32, ai, 3i32, bi, 2i32, fi, 1i32]) == Result::<
            Option<DecodeResultV>,
            IndexError,
        >::Ok(
            Option::Some(
                DecodeResultV::LocalSegments(
                    seq![
                        SegmentV {
                            name: opt_chars(f.messages@[ai as int].name),
                            kind: SegmentKind::Type,
                        },
                        SegmentV {
                            name: opt_chars(f.messages@[ai as int].messages@[bi as int].name),
                            kind: SegmentKind::Type,
                        },
                        SegmentV {
                            name: opt_chars(
                                f.messages@[ai as int].messages@[bi as int].fields@[fi as int].name,
                            ),
                            kind: SegmentKind::Term,
                        },
                    ],
                ),
            ),
        ),
        spec_decode(f, seq![4i32, ai, 3i32, bi, 2i32, fi, 6i32]) == Result::<
            Option<DecodeResultV>,
            IndexError,
        >::Ok(
            Option::Some(
                DecodeResultV::ExternalReference(
                    opt_chars(
                        f.messages@[ai as int].messages@[bi as int].fields@[fi as int]
                            .declared_type,
                    ),
                ),
            ),
        ),
{
    let a = f.messages@[ai as int];
    let b = a.messages@[bi as int];
    let fld = b.fields@[fi as int];
    let sa = SegmentV { name: opt_chars(a.name), kind: SegmentKind::Type };
    let sb = SegmentV { name: opt_chars(b.name), kind: SegmentKind::Type };
    let sf = SegmentV { name: opt_chars(fld.name), kind: SegmentKind::Term };
    let p1 = seq![4i32, ai, 3i32, bi, 2i32, fi, 1i32];
    let empty = Seq::<SegmentV>::empty();
    assert(spec_decode(f, p1) == spec_decode_from(PositionV::Messages(f.messages@), p1, 1, empty));
    assert(spec_decode_from(PositionV::Messages(f.messages@), p1, 1, empty)
        == spec_decode_from(PositionV::Message(a), p1, 2, empty));
    assert(spec_decode_from(PositionV::Message(a), p1, 2, empty)
        == spec_decode_from(PositionV::Messages(a.messages@), p1, 3, empty.push(sa)));
    assert(spec_decode_from(PositionV::Messages(a.messages@), p1, 3, empty.push(sa))
        == spec_decode_from(PositionV::Message(b), p1, 4, empty.push(sa)));
    assert(spec_decode_from(PositionV::Message(b), p1, 4, empty.push(sa))
        == spec_decode_from(PositionV::Fields(b.fields@), p1, 5, empty.push(sa).push(sb)));
    assert(spec_decode_from(PositionV::Fields(b.fields@), p1, 5, empty.push(sa).push(sb))
        == spec_decode_from(PositionV::Field(fld), p1, 6, empty.push(sa).push(sb)));
    assert(spec_decode_from(PositionV::Field(fld), p1, 6, empty.push(sa).push(sb))
        == spec_decode_from(
        PositionV::Field(fld),
        p1,
        7,
        empty.push(sa).push(sb).push(sf),
    ));
    assert(empty.push(sa).push(sb).push(sf) =~= seq![sa, sb, sf]);

    let p2 = seq![4i32, ai, 3i32, bi, 2i32, fi, 6i32];
    assert(spec_decode(f, p2) == spec_decode_from(PositionV::Messages(f.messages@), p2, 1, empty));
    assert(spec_decode_from(PositionV::Messages(f.messages@), p2, 1, empty)
        == spec_decode_from(PositionV::Message(a), p2, 2, empty));
    assert(spec_decode_from(PositionV::Message(a), p2, 2, empty)
        == spec_decode_from(PositionV::Messages(a.messages@), p2, 3, empty.push(sa)));
    assert(spec_decode_from(PositionV::Messages(a.messages@), p2, 3, empty.push(sa))
        == spec_decode_from(PositionV::Message(b), p2, 4, empty.push(sa)));
    assert(spec_decode_from(PositionV::Message(b), p2, 4, empty.push(sa))
        == spec_decode_from(PositionV::Fields(b.fields@), p2, 5, empty.push(sa).push(sb)));
    assert(spec_decode_from(PositionV::Fields(b.fields@), p2, 5, empty.push(sa).push(sb))
        == spec_decode_from(PositionV::Field(fld), p2, 6, empty.push(sa).push(sb)));
    assert(spec_decode_from(PositionV::Field(fld), p2, 6, empty.push(sa).push(sb))
        == Result::<Option<DecodeResultV>, IndexError>::Ok(
        Option::Some(DecodeResultV::ExternalReference(opt_chars(fld.declared_type))),
    ));
}

/// An unrecognized path is skipped, not fatal: a source-location entry whose
/// path decodes to nothing contributes no symbol and no occurrence, and the
/// assembly of the remaining entries goes on unchanged.
pub proof fn lemma_unrecognized_entry_skipped(
    f: FileDeclaration,
    registry: Seq<NodeV>,
    i: int,
    syms: Seq<Seq<char>>,
    occs: Seq<OccurrenceV>,
)
    requires
        0 <= i < f.locations@.len(),
        spec_decode(f, f.locations@[i].path@) == Result::<
            Option<DecodeResultV>,
            IndexError,
        >::Ok(Option::None),
    ensures
        spec_entries_from(f, registry, i, syms, occs) == spec_entries_from(
            f,
            registry,
            i + 1,
            syms,
            occs,
        ),
{
}

/// The registry subtree one file with a two-component package and a single
/// top-level message registers, as `spec_graft` computes it over an empty
/// root list.
proof fn lemma_single_message_graft(f1: FileDeclaration, p1: Seq<char>, p2: Seq<char>, m: Seq<char>)
    requires
        split_on(opt_chars(f1.package), '.') == seq![p1, p2],
        f1.messages@.len() == 1,
        opt_chars(f1.messages@[0].name) == m,
        f1.enums@.len() == 0,
    ensures
        spec_add_file(Seq::<NodeV>::empty(), f1) == seq![
            NodeV {
                name: p1,
                kind: NodeKind::Package,
                children: seq![
                    NodeV {
                        name: p2,
                        kind: NodeKind::Package,
                        children: seq![spec_msg_node(f1.messages@[0])],
                    },
                ],
            },
        ],
{
    reveal_with_fuel(spec_graft, 4);
    reveal_with_fuel(spec_insert, 4);
    reveal_with_fuel(spec_insert_all, 4);
    reveal_with_fuel(spec_lookup, 4);
    reveal_with_fuel(spec_msg_nodes_from, 3);
    reveal_with_fuel(spec_enum_nodes_from, 2);
    let node_m = spec_msg_node(f1.messages@[0]);
    let add1 = spec_msg_nodes_from(f1.messages@, 0) + spec_enum_nodes_from(f1.enums@, 0);
    assert(spec_msg_nodes_from(f1.messages@, 1) =~= Seq::<NodeV>::empty());
    assert(spec_enum_nodes_from(f1.enums@, 0) =~= Seq::<NodeV>::empty());
    assert(add1 =~= seq![node_m]);
    assert(seq![node_m].skip(1) =~= Seq::<NodeV>::empty());
    assert(spec_insert_all(Seq::<NodeV>::empty(), seq![node_m]) =~= seq![node_m]);
    let comps1 = split_on(opt_chars(f1.package), '.');
    assert(comps1.skip(1) =~= seq![p2]);
    assert(seq![p2].skip(1) =~= Seq::<Seq<char>>::empty());
    let inner = NodeV { name: p2, kind: NodeKind::Package, children: seq![node_m] };
    assert(spec_graft(Seq::<NodeV>::empty(), Seq::<Seq<char>>::empty(), add1)
        == spec_insert_all(Seq::<NodeV>::empty(), add1));
    assert(spec_insert_all(Seq::<NodeV>::empty(), add1) =~= seq![node_m]);
    assert(spec_graft(Seq::<NodeV>::empty(), seq![p2], add1) =~= seq![inner]);
    let outer = NodeV { name: p1, kind: NodeKind::Package, children: seq![inner] };
    assert(spec_graft(Seq::<NodeV>::empty(), comps1, add1) =~= seq![outer]);
}

/// The walk that resolves `[p2, m]` from the package root node `outer`
/// (package `p1`, child package `p2`, which holds the message node).
proof fn lemma_two_level_walk(outer: NodeV, p1: Seq<char>, p2: Seq<char>, m: Seq<char>, node_m: NodeV)
    requires
        p1.len() > 0,
        node_m.name == m,
        node_m.kind == NodeKind::Message,
        outer == (NodeV {
            name: p1,
            kind: NodeKind::Package,
            children: seq![
                NodeV { name: p2, kind: NodeKind::Package, children: seq![node_m] },
            ],
        }),
    ensures
        spec_walk(outer, seq![p2, m], Seq::<char>::empty(), Seq::<SegmentV>::empty())
            == Result::<(Seq<char>, Seq<SegmentV>), IndexError>::Ok(
            (p1 + seq!['.'] + p2, seq![SegmentV { name: m, kind: SegmentKind::Type }]),
        ),
{
    reveal_with_fuel(spec_walk, 5);
    reveal_with_fuel(spec_lookup, 4);
    let inner = NodeV { name: p2, kind: NodeKind::Package, children: seq![node_m] };
    let empty_segs = Seq::<SegmentV>::empty();
    assert(spec_walk(outer, seq![p2, m], Seq::<char>::empty(), empty_segs)
        == spec_walk(inner, seq![p2, m].skip(1), p1, empty_segs));
    assert(spec_lookup(outer.children, p2) == Option::Some(inner));
    assert(seq![p2, m].skip(1) =~= seq![m]);
    assert(spec_lookup(inner.children, m) == Option::Some(node_m));
    assert(seq![m].skip(1) =~= Seq::<Seq<char>>::empty());
    assert(spec_walk(node_m, Seq::<Seq<char>>::empty(), p1 + seq!['.'] + p2, empty_segs)
        == Result::<(Seq<char>, Seq<SegmentV>), IndexError>::Ok(
        (
            p1 + seq!['.'] + p2,
            empty_segs.push(SegmentV { name: m, kind: SegmentKind::Type }),
        ),
    ));
    assert(empty_segs.push(SegmentV { name: m, kind: SegmentKind::Type })
        =~= seq![SegmentV { name: m, kind: SegmentKind::Type }]);
}

/// Cross-file resolution: with one file declaring a two-component package
/// holding one message, and another file whose package starts with a
/// different root component, a reference to the first file's message
/// resolves to that message's own package and its single `type`-kind
/// segment — whichever order the two files are registered in.
pub proof fn lemma_cross_file_resolution(
    f1: FileDeclaration,
    f2: FileDeclaration,
    p1: Seq<char>,
    p2: Seq<char>,
    m: Seq<char>,
    dotted: Seq<char>,
)
    requires
        split_on(opt_chars(f1.package), '.') == seq![p1, p2],
        p1.len() > 0,
        f1.messages@.len() == 1,
        opt_chars(f1.messages@[0].name) == m,
        f1.enums@.len() == 0,
        split_on(opt_chars(f2.package), '.')[0] != p1,
        split_on(dotted, '.') == seq![Seq::<char>::empty(), p1, p2, m],
    ensures
        spec_resolve(spec_registry(seq![f1, f2]), dotted) == Result::<
            (Seq<char>, Seq<SegmentV>),
            IndexError,
        >::Ok((p1 + seq!['.'] + p2, seq![SegmentV { name: m, kind: SegmentKind::Type }])),
        spec_resolve(spec_registry(seq![f2, f1]), dotted) == Result::<
            (Seq<char>, Seq<SegmentV>),
            IndexError,
        >::Ok((p1 + seq!['.'] + p2, seq![SegmentV { name: m, kind: SegmentKind::Type }])),
{
    reveal_with_fuel(spec_graft, 4);
    reveal_with_fuel(spec_insert, 4);
    reveal_with_fuel(spec_insert_all, 4);
    reveal_with_fuel(spec_lookup, 4);
    reveal_with_fuel(spec_registry_from, 4);
    let node_m = spec_msg_node(f1.messages@[0]);
    let inner = NodeV { name: p2, kind: NodeKind::Package, children: seq![node_m] };
    let outer = NodeV { name: p1, kind: NodeKind::Package, children: seq![inner] };
    lemma_single_message_graft(f1, p1, p2, m);
    let comps2 = split_on(opt_chars(f2.package), '.');
    lemma_split_on_nonempty(opt_chars(f2.package), '.');
    let comps = split_on(dotted, '.').skip(1);
    assert(comps =~= seq![p1, p2, m]);
    assert(comps.skip(1) =~= seq![p2, m]);

    // First order: f1 then f2. The second file's subtree sits beside the
    // first root, under its own distinct root component.
    let files_a = seq![f1, f2];
    let r1 = spec_add_file(Seq::<NodeV>::empty(), files_a[0]);
    assert(r1 == seq![outer]);
    let add2 = spec_msg_nodes_from(f2.messages@, 0) + spec_enum_nodes_from(f2.enums@, 0);
    assert(r1.skip(1) =~= Seq::<NodeV>::empty());
    assert(spec_lookup(r1, comps2[0]) is None);
    let child2 = NodeV {
        name: comps2[0],
        kind: NodeKind::Package,
        children: spec_graft(Seq::<NodeV>::empty(), comps2.skip(1), add2),
    };
    let reg_a = spec_registry(files_a);
    assert(files_a.skip(1) =~= seq![f2]);
    assert(spec_registry_from(Seq::<NodeV>::empty(), files_a, 0)
        == spec_registry_from(r1, files_a, 1));
    assert(spec_registry_from(r1, files_a, 1) == spec_registry_from(
        spec_add_file(r1, f2),
        files_a,
        2,
    ));
    assert(spec_add_file(r1, f2) == spec_insert(r1, child2));
    assert(spec_insert(r1, child2) =~= seq![outer, child2]);
    assert(reg_a =~= seq![outer, child2]);
    assert(spec_lookup(reg_a, p1) == Option::Some(outer));
    lemma_two_level_walk(outer, p1, p2, m, node_m);
    assert(spec_resolve(reg_a, dotted) == spec_walk(
        outer,
        seq![p2, m],
        Seq::<char>::empty(),
        Seq::<SegmentV>::empty(),
    ));

    // Second order: f2 then f1. The second file's subtree now stands first
    // among the roots, but the walk passes it by on its different name.
    let files_b = seq![f2, f1];
    let r1b = spec_add_file(Seq::<NodeV>::empty(), files_b[0]);
    let child2b = NodeV {
        name: comps2[0],
        kind: NodeKind::Package,
        children: spec_graft(Seq::<NodeV>::empty(), comps2.skip(1), add2),
    };
    assert(spec_lookup(Seq::<NodeV>::empty(), comps2[0]) is None);
    assert(r1b == spec_insert(Seq::<NodeV>::empty(), child2b));
    assert(r1b =~= seq![child2b]);
    assert(r1b.skip(1) =~= Seq::<NodeV>::empty());
    assert(spec_lookup(r1b, p1) is None);
    let comps1 = split_on(opt_chars(f1.package), '.');
    let add1 = spec_msg_nodes_from(f1.messages@, 0) + spec_enum_nodes_from(f1.enums@, 0);
    assert(comps1.skip(1) =~= seq![p2]);
    assert(spec_graft(Seq::<NodeV>::empty(), comps1.skip(1), add1) == seq![inner]) by {
        lemma_single_message_graft(f1, p1, p2, m);
        assert(spec_add_file(Seq::<NodeV>::empty(), f1) == spec_insert(
            Seq::<NodeV>::empty(),
            NodeV {
                name: p1,
                kind: NodeKind::Package,
                children: spec_graft(Seq::<NodeV>::empty(), comps1.skip(1), add1),
            },
        ));
        assert(spec_add_file(Seq::<NodeV>::empty(), f1)[0].children == spec_graft(
            Seq::<NodeV>::empty(),
            comps1.skip(1),
            add1,
        ));
        assert(spec_add_file(Seq::<NodeV>::empty(), f1)[0].children == seq![inner]);
    }
    let outer_b = NodeV {
        name: p1,
        kind: NodeKind::Package,
        children: spec_graft(Seq::<NodeV>::empty(), comps1.skip(1), add1),
    };
    assert(outer_b == outer);
    assert(spec_add_file(r1b, f1) == spec_insert(r1b, outer_b));
    assert(spec_insert(r1b, outer_b) =~= seq![child2b, outer]);
    let reg_b = spec_registry(files_b);
    assert(spec_registry_from(Seq::<NodeV>::empty(), files_b, 0)
        == spec_registry_from(r1b, files_b, 1));
    assert(spec_registry_from(r1b, files_b, 1) == spec_registry_from(
        spec_add_file(r1b, f1),
        files_b,
        2,
    ));
    assert(reg_b =~= seq![child2b, outer]);
    assert(reg_b.skip(1) =~= seq![outer]);
    assert(spec_lookup(reg_b, p1) == Option::Some(outer));
    assert(spec_resolve(reg_b, dotted) == spec_walk(
        outer,
        seq![p2, m],
        Seq::<char>::empty(),
        Seq::<SegmentV>::empty(),
    ));
}

/// An out-of-range index is fatal: a path that enters the top-level message
/// collection and then indexes past its end (or below zero) aborts decoding
/// with a malformed-input error, whatever follows in the path.
pub proof fn lemma_out_of_range_index_fatal(f: FileDeclaration, path: Seq<i32>)
    requires
        path.len() >= 2,
        path[0] == 4,
        path[1] < 0 || path[1] >= f.messages@.len(),
    ensures
        spec_decode(f, path) == Result::<Option<DecodeResultV>, IndexError>::Err(
            IndexError::MalformedInput,
        ),
{
    let empty = Seq::<SegmentV>::empty();
    assert(spec_decode(f, path) == spec_decode_from(
        PositionV::Messages(f.messages@),
        path,
        1,
        empty,
    ));
}

} // verus!
