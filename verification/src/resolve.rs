//! The symbol resolver: turns a dotted type name reported by the decoder
//! into the target declaration's own package and its ordered `type`-kind
//! segments, by an exact, case-sensitive walk of the global registry.

use vstd::prelude::*;

use crate::decode::{DescriptorSegment, SegmentKind, SegmentV};
use crate::registry::{
    find_index, lemma_lookup_skip, lemma_nodes_view, node_view, spec_lookup, NodeKind, NodeV,
    TypeTree, TypeTreeNode,
};
use crate::text::{lemma_split_on_nonempty, split_char, split_on};
use crate::IndexError;

verus! {

broadcast use vstd::seq::group_seq_axioms;

/// A fully resolved symbol: the target declaration's own package name and
/// its ordered descriptor segments.
pub struct ResolvedSymbol {
    pub package: String,
    pub segments: Vec<DescriptorSegment>,
}

/// The mathematical value of a [`ResolvedSymbol`].
pub open spec fn resolved_view(r: ResolvedSymbol) -> (Seq<char>, Seq<SegmentV>) {
    (r.package@, r.segments.deep_view())
}

/// The walk from `node` through the name components from `comps` on: a
/// package node extends the package identity and contributes no segment; a
/// message or enum node contributes one `type`-kind segment; a missing
/// component is fatal.
pub open spec fn spec_walk(
    node: NodeV,
    comps: Seq<Seq<char>>,
    pkg: Seq<char>,
    segs: Seq<SegmentV>,
) -> Result<(Seq<char>, Seq<SegmentV>), IndexError>
    decreases comps.len(),
{
    let pkg2 = if node.kind is Package {
        if pkg.len() == 0 {
            node.name
        } else {
            pkg + seq!['.'] + node.name
        }
    } else {
        pkg
    };
    let segs2 = if node.kind is Package {
        segs
    } else {
        segs.push(SegmentV { name: node.name, kind: SegmentKind::Type })
    };
    if comps.len() == 0 {
        Result::Ok((pkg2, segs2))
    } else {
        match spec_lookup(node.children, comps[0]) {
            Option::None => Result::Err(IndexError::UnresolvedReference),
            Option::Some(c) => spec_walk(c, comps.skip(1), pkg2, segs2),
        }
    }
}

/// What resolving the dotted name `dotted` against the registry yields: the
/// name is split on `'.'`, its leading empty component is discarded, the
/// first remaining component selects a registry root, and the rest are
/// walked one node per component.
pub open spec fn spec_resolve(registry: Seq<NodeV>, dotted: Seq<char>) -> Result<
    (Seq<char>, Seq<SegmentV>),
    IndexError,
> {
    let comps = split_on(dotted, '.').skip(1);
    if comps.len() == 0 {
        Result::Err(IndexError::UnresolvedReference)
    } else {
        match spec_lookup(registry, comps[0]) {
            Option::None => Result::Err(IndexError::UnresolvedReference),
            Option::Some(n) => spec_walk(n, comps.skip(1), Seq::<char>::empty(), Seq::<SegmentV>::empty()),
        }
    }
}

/// One step of the registry walk, from `node` with the components from
/// index `ci` on.
fn walk(
    node: &TypeTreeNode,
    comps: &Vec<String>,
    ci: usize,
    pkg: String,
    segs: Vec<DescriptorSegment>,
) -> (r: Result<ResolvedSymbol, IndexError>)
    requires
        ci <= comps@.len(),
    ensures
        match r {
            Result::Ok(sym) => spec_walk(
                node_view(*node),
                comps.deep_view().skip(ci as int),
                pkg@,
                segs.deep_view(),
            ) == Result::<(Seq<char>, Seq<SegmentV>), IndexError>::Ok(resolved_view(sym)),
            Result::Err(e) => spec_walk(
                node_view(*node),
                comps.deep_view().skip(ci as int),
                pkg@,
                segs.deep_view(),
            ) == Result::<(Seq<char>, Seq<SegmentV>), IndexError>::Err(e),
        },
    decreases comps@.len() - ci,
{
    let ghost comps_v = comps.deep_view().skip(ci as int);
    let ghost pkg_v = pkg@;
    let ghost segs_v = segs.deep_view();
    let ghost node_v = node_view(*node);
    let is_package = match node.kind {
        NodeKind::Package => true,
        NodeKind::Message => false,
        NodeKind::Enum => false,
    };
    let pkg2: String;
    let mut segs2 = segs;
    if is_package {
        if pkg.as_str().is_empty() {
            pkg2 = node.name.clone();
        } else {
            let mut p = pkg;
            p.append(".");
            p.append(node.name.as_str());
            pkg2 = p;
            proof {
                reveal_strlit(".");
                assert("."@ =~= seq!['.']);
            }
        }
    } else {
        pkg2 = pkg;
        let seg = DescriptorSegment { name: node.name.clone(), kind: SegmentKind::Type };
        let ghost seg_v = seg@;
        segs2.push(seg);
        proof {
            assert(segs2.deep_view() =~= segs_v.push(seg_v));
        }
    }
    let ghost pkg2_v = if node_v.kind is Package {
        if pkg_v.len() == 0 {
            node_v.name
        } else {
            pkg_v + seq!['.'] + node_v.name
        }
    } else {
        pkg_v
    };
    let ghost segs2_v = if node_v.kind is Package {
        segs_v
    } else {
        segs_v.push(SegmentV { name: node_v.name, kind: SegmentKind::Type })
    };
    proof {
        assert(pkg2@ == pkg2_v);
        assert(segs2.deep_view() == segs2_v);
    }
    if ci == comps.len() {
        proof {
            assert(comps_v =~= Seq::<Seq<char>>::empty());
        }
        return Ok(ResolvedSymbol { package: pkg2, segments: segs2 });
    }
    proof {
        lemma_nodes_view(node.children@);
        assert(comps_v[0] == comps@[ci as int]@);
        assert(comps_v.skip(1) =~= comps.deep_view().skip(ci + 1));
    }
    let found = find_index(&node.children, &comps[ci]);
    match found {
        None => {
            proof {
                lemma_lookup_skip(node_v.children, comps_v[0], node.children@.len() as int);
                assert(node_v.children.skip(node.children@.len() as int)
                    =~= Seq::<NodeV>::empty());
            }
            Err(IndexError::UnresolvedReference)
        },
        Some(j) => {
            proof {
                lemma_lookup_skip(node_v.children, comps_v[0], j as int);
                assert(node_v.children.skip(j as int)[0] == node_v.children[j as int]);
                assert(spec_lookup(node_v.children, comps_v[0])
                    == Option::Some(node_v.children[j as int]));
            }
            walk(&node.children[j], comps, ci + 1, pkg2, segs2)
        },
    }
}

impl TypeTree {
    /// Resolves the dotted type name of an external reference against the
    /// registry. The name's leading empty component is discarded; the first
    /// remaining component selects a namespace root; every further component
    /// descends by exact name. Any absent component is fatal.
    pub fn resolve(&self, dotted: &str) -> (r: Result<ResolvedSymbol, IndexError>)
        ensures
            match r {
                Result::Ok(sym) => spec_resolve(self.view_roots(), dotted@) == Result::<
                    (Seq<char>, Seq<SegmentV>),
                    IndexError,
                >::Ok(resolved_view(sym)),
                Result::Err(e) => spec_resolve(self.view_roots(), dotted@) == Result::<
                    (Seq<char>, Seq<SegmentV>),
                    IndexError,
                >::Err(e),
            },
    {
        let mut comps = split_char(dotted, '.');
        let ghost whole = comps.deep_view();
        proof {
            lemma_split_on_nonempty(dotted@, '.');
            assert(whole.len() == comps@.len());
        }
        comps.remove(0);
        proof {
            assert(comps.deep_view() =~= whole.skip(1));
        }
        if comps.len() == 0 {
            return Err(IndexError::UnresolvedReference);
        }
        proof {
            lemma_nodes_view(self.roots@);
            assert(comps.deep_view()[0] == comps@[0]@);
        }
        let found = find_index(&self.roots, &comps[0]);
        match found {
            None => {
                proof {
                    lemma_lookup_skip(
                        self.view_roots(),
                        comps.deep_view()[0],
                        self.roots@.len() as int,
                    );
                    assert(self.view_roots().skip(self.roots@.len() as int)
                        =~= Seq::<NodeV>::empty());
                }
                Err(IndexError::UnresolvedReference)
            },
            Some(j) => {
                proof {
                    lemma_lookup_skip(self.view_roots(), comps.deep_view()[0], j as int);
                    assert(self.view_roots().skip(j as int)[0] == self.view_roots()[j as int]);
                    assert(spec_lookup(self.view_roots(), comps.deep_view()[0])
                        == Option::Some(self.view_roots()[j as int]));
                }
                let pkg = String::new();
                let segs: Vec<DescriptorSegment> = Vec::new();
                proof {
                    assert(segs.deep_view() =~= Seq::<SegmentV>::empty());
                    assert(comps.deep_view().skip(1) =~= whole.skip(1).skip(1));
                }
                walk(&self.roots[j], &comps, 1, pkg, segs)
            },
        }
    }
}

} // verus!
