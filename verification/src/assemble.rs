//! The index assembler: runs the decoder and the resolver over every
//! source-location entry of every file, formats canonical symbol strings,
//! and collects per-file symbol definitions and occurrences into the final
//! index value.

use vstd::prelude::*;

use scip::symbol::format_symbol;
use scip::types::descriptor::Suffix;
use scip::types::{Descriptor as ScipDescriptor, Package as ScipPackage, Symbol as ScipSymbol};

use crate::decode::{decode, opt_chars, spec_decode, DecodeResult, DecodeResultV, DescriptorSegment, SegmentKind, SegmentV};
use crate::model::{FileDeclaration, SourceLocation};
use crate::registry::{files_named, spec_registry, NodeV, TypeTree};
use crate::resolve::{spec_resolve, ResolvedSymbol};
use crate::IndexError;

verus! {

broadcast use vstd::seq::group_seq_axioms;

/// One symbol defined in a document, by its canonical symbol string.
pub struct SymbolInformation {
    pub symbol: String,
}

impl View for SymbolInformation {
    type V = Seq<char>;

    open spec fn view(&self) -> Seq<char> {
        self.symbol@
    }
}

impl DeepView for SymbolInformation {
    type V = Seq<char>;

    open spec fn deep_view(&self) -> Seq<char> {
        self.symbol@
    }
}

/// One recorded appearance of a symbol: its canonical string, whether it is
/// the symbol's definition or a reference to it, and the byte-range span of
/// the source text.
pub struct Occurrence {
    pub symbol: String,
    pub is_definition: bool,
    pub range: Vec<i32>,
}

/// The mathematical value of an [`Occurrence`].
pub ghost struct OccurrenceV {
    pub symbol: Seq<char>,
    pub is_definition: bool,
    pub range: Seq<i32>,
}

impl View for Occurrence {
    type V = OccurrenceV;

    open spec fn view(&self) -> OccurrenceV {
        OccurrenceV { symbol: self.symbol@, is_definition: self.is_definition, range: self.range@ }
    }
}

impl DeepView for Occurrence {
    type V = OccurrenceV;

    open spec fn deep_view(&self) -> OccurrenceV {
        self.view()
    }
}

/// One document of the index: a file's relative path, its language tag, the
/// symbols it defines, and the occurrences found in it.
pub struct IndexDocument {
    pub relative_path: String,
    pub language: String,
    pub symbols: Vec<SymbolInformation>,
    pub occurrences: Vec<Occurrence>,
}

/// The mathematical value of an [`IndexDocument`].
pub ghost struct DocumentV {
    pub relative_path: Seq<char>,
    pub language: Seq<char>,
    pub symbols: Seq<Seq<char>>,
    pub occurrences: Seq<OccurrenceV>,
}

impl View for IndexDocument {
    type V = DocumentV;

    open spec fn view(&self) -> DocumentV {
        DocumentV {
            relative_path: self.relative_path@,
            language: self.language@,
            symbols: self.symbols.deep_view(),
            occurrences: self.occurrences.deep_view(),
        }
    }
}

impl DeepView for IndexDocument {
    type V = DocumentV;

    open spec fn deep_view(&self) -> DocumentV {
        self.view()
    }
}

/// The run metadata attached to the index.
pub struct IndexMetadata {
    pub project_root: String,
    pub tool_name: String,
    pub tool_version: String,
    pub arguments: Vec<String>,
}

/// The mathematical value of an [`IndexMetadata`].
pub ghost struct MetadataV {
    pub project_root: Seq<char>,
    pub tool_name: Seq<char>,
    pub tool_version: Seq<char>,
    pub arguments: Seq<Seq<char>>,
}

impl View for IndexMetadata {
    type V = MetadataV;

    open spec fn view(&self) -> MetadataV {
        MetadataV {
            project_root: self.project_root@,
            tool_name: self.tool_name@,
            tool_version: self.tool_version@,
            arguments: self.arguments.deep_view(),
        }
    }
}

/// The whole output: run metadata plus one document per input file, in file
/// order.
pub struct IndexOutput {
    pub metadata: IndexMetadata,
    pub documents: Vec<IndexDocument>,
}

/// The mathematical value of an [`IndexOutput`].
pub ghost struct IndexV {
    pub metadata: MetadataV,
    pub documents: Seq<DocumentV>,
}

impl View for IndexOutput {
    type V = IndexV;

    open spec fn view(&self) -> IndexV {
        IndexV { metadata: self.metadata@, documents: self.documents.deep_view() }
    }
}

/// The canonical symbol string the external formatter produces from a
/// scheme, a package identity (manager, name, version) and the ordered
/// descriptor segments. Its exact grammar is the formatter's own; it is a
/// function of these arguments alone.
pub uninterp spec fn format_of(
    scheme: Seq<char>,
    manager: Seq<char>,
    package: Seq<char>,
    version: Seq<char>,
    segments: Seq<SegmentV>,
) -> Seq<char>;

/// Relies on scip::symbol::format_symbol: the returned string is computed
/// from the symbol value alone (scheme, package identity, descriptors), so
/// equal arguments always format alike.
#[verifier::external_body]
fn scip_format_symbol(
    scheme: &str,
    manager: &str,
    package: &String,
    version: &str,
    segments: &Vec<DescriptorSegment>,
) -> (r: String)
    ensures
        r@ == format_of(scheme@, manager@, package@, version@, segments.deep_view()),
{
    let ds = segments.iter().map(|s| ScipDescriptor {
        name: s.name.clone(),
        suffix: (match s.kind {
            SegmentKind::Namespace => Suffix::Namespace,
            SegmentKind::Type => Suffix::Type,
            SegmentKind::Term => Suffix::Term,
        }).into(),
        ..Default::default()
    }).collect();
    let pkg = ScipPackage { manager: manager.to_string(), name: package.clone(), version: version.to_string(), ..Default::default() };
    format_symbol(ScipSymbol { scheme: scheme.to_string(), package: protobuf::MessageField::some(pkg), descriptors: ds, ..Default::default() })
}

/// The canonical symbol string of a resolved package and segment list, with
/// this pipeline's fixed sentinel scheme, manager and version.
pub open spec fn spec_symbol_string(pkg: Seq<char>, segs: Seq<SegmentV>) -> Seq<char> {
    format_of("."@, "."@, pkg, "."@, segs)
}

/// Formats one symbol with the pipeline's fixed sentinel identity fields.
pub fn symbol_string(package: &String, segments: &Vec<DescriptorSegment>) -> (r: String)
    ensures
        r@ == spec_symbol_string(package@, segments.deep_view()),
{
    scip_format_symbol(".", ".", package, ".", segments)
}

/// The package identity of a locally declared symbol: the file's package,
/// or the sentinel when the file declares none.
pub open spec fn local_package(f: FileDeclaration) -> Seq<char> {
    match f.package {
        Option::Some(p) => p@,
        Option::None => "."@,
    }
}

/// What one source-location entry contributes: nothing when its path is
/// unrecognized, otherwise the formatted symbol string and whether the
/// entry defines the symbol (a decoded declaration) or references it (a
/// resolved external type).
pub open spec fn spec_entry(
    f: FileDeclaration,
    registry: Seq<NodeV>,
    loc: SourceLocation,
) -> Result<Option<(Seq<char>, bool)>, IndexError> {
    match spec_decode(f, loc.path@) {
        Result::Err(e) => Result::Err(e),
        Result::Ok(Option::None) => Result::Ok(Option::None),
        Result::Ok(Option::Some(DecodeResultV::LocalSegments(segs))) => Result::Ok(
            Option::Some((spec_symbol_string(local_package(f), segs), true)),
        ),
        Result::Ok(Option::Some(DecodeResultV::ExternalReference(name))) => match spec_resolve(
            registry,
            name,
        ) {
            Result::Err(e) => Result::Err(e),
            Result::Ok((pkg, segs)) => Result::Ok(
                Option::Some((spec_symbol_string(pkg, segs), false)),
            ),
        },
    }
}

/// The symbols and occurrences accumulated over the file's entries from
/// index `i` on: a skipped entry contributes nothing, a definition is
/// recorded both as a symbol and as a definition occurrence, a reference
/// only as a reference occurrence, and any entry error aborts the whole
/// document.
pub open spec fn spec_entries_from(
    f: FileDeclaration,
    registry: Seq<NodeV>,
    i: int,
    syms: Seq<Seq<char>>,
    occs: Seq<OccurrenceV>,
) -> Result<(Seq<Seq<char>>, Seq<OccurrenceV>), IndexError>
    decreases f.locations@.len() - i,
{
    if i < 0 || i >= f.locations@.len() {
        Result::Ok((syms, occs))
    } else {
        match spec_entry(f, registry, f.locations@[i]) {
            Result::Err(e) => Result::Err(e),
            Result::Ok(Option::None) => spec_entries_from(f, registry, i + 1, syms, occs),
            Result::Ok(Option::Some((sym, is_def))) => spec_entries_from(
                f,
                registry,
                i + 1,
                if is_def {
                    syms.push(sym)
                } else {
                    syms
                },
                occs.push(
                    OccurrenceV {
                        symbol: sym,
                        is_definition: is_def,
                        range: f.locations@[i].span@,
                    },
                ),
            ),
        }
    }
}

/// The document one file yields: its entries' symbols and occurrences under
/// its declared relative path and the fixed language tag; a file without a
/// name is malformed.
pub open spec fn spec_document(f: FileDeclaration, registry: Seq<NodeV>) -> Result<
    DocumentV,
    IndexError,
> {
    match spec_entries_from(f, registry, 0, Seq::<Seq<char>>::empty(), Seq::<OccurrenceV>::empty()) {
        Result::Err(e) => Result::Err(e),
        Result::Ok((syms, occs)) => if f.name is None {
            Result::Err(IndexError::MalformedInput)
        } else {
            Result::Ok(
                DocumentV {
                    relative_path: opt_chars(f.name),
                    language: "ProtocolBuffers"@,
                    symbols: syms,
                    occurrences: occs,
                },
            )
        },
    }
}

/// The documents of the files from index `i` on, in file order; any file
/// error aborts the whole index.
pub open spec fn spec_documents_from(
    files: Seq<FileDeclaration>,
    registry: Seq<NodeV>,
    i: int,
    docs: Seq<DocumentV>,
) -> Result<Seq<DocumentV>, IndexError>
    decreases files.len() - i,
{
    if i < 0 || i >= files.len() {
        Result::Ok(docs)
    } else {
        match spec_document(files[i], registry) {
            Result::Err(e) => Result::Err(e),
            Result::Ok(d) => spec_documents_from(files, registry, i + 1, docs.push(d)),
        }
    }
}

/// The whole conversion: the registry is built over every file first, then
/// each file's document is assembled against it; the metadata carries the
/// `file://`-prefixed project root, the tool identity, and the invocation
/// arguments.
pub open spec fn spec_index(
    files: Seq<FileDeclaration>,
    project_root: Seq<char>,
    arguments: Seq<Seq<char>>,
) -> Result<IndexV, IndexError> {
    if !files_named(files) {
        Result::Err(IndexError::MalformedInput)
    } else {
        match spec_documents_from(files, spec_registry(files), 0, Seq::<DocumentV>::empty()) {
            Result::Err(e) => Result::Err(e),
            Result::Ok(docs) => Result::Ok(
                IndexV {
                    metadata: MetadataV {
                        project_root: "file://"@ + project_root,
                        tool_name: "scip-protobuf"@,
                        tool_version: "0.0.1"@,
                        arguments: arguments,
                    },
                    documents: docs,
                },
            ),
        }
    }
}

/// Assembles one file's document against the built registry.
#[verifier::loop_isolation(false)]
pub fn assemble_document(file: &FileDeclaration, tree: &TypeTree) -> (r: Result<
    IndexDocument,
    IndexError,
>)
    ensures
        match r {
            Result::Ok(d) => spec_document(*file, tree.view_roots()) == Result::<
                DocumentV,
                IndexError,
            >::Ok(d@),
            Result::Err(e) => spec_document(*file, tree.view_roots()) == Result::<
                DocumentV,
                IndexError,
            >::Err(e),
        },
{
    let ghost reg = tree.view_roots();
    let mut syms: Vec<SymbolInformation> = Vec::new();
    let mut occs: Vec<Occurrence> = Vec::new();
    proof {
        assert(syms.deep_view() =~= Seq::<Seq<char>>::empty());
        assert(occs.deep_view() =~= Seq::<OccurrenceV>::empty());
    }
    let mut i: usize = 0;
    while i < file.locations.len()
        invariant
            0 <= i <= file.locations@.len(),
            spec_entries_from(*file, reg, i as int, syms.deep_view(), occs.deep_view())
                == spec_entries_from(
                *file,
                reg,
                0,
                Seq::<Seq<char>>::empty(),
                Seq::<OccurrenceV>::empty(),
            ),
        decreases file.locations@.len() - i,
    {
        let loc = &file.locations[i];
        let ghost syms0 = syms.deep_view();
        let ghost occs0 = occs.deep_view();
        match decode(file, &loc.path) {
            Err(e) => {
                return Err(e);
            },
            Ok(None) => {},
            Ok(Some(DecodeResult::LocalSegments(segs))) => {
                let package: String = match &file.package {
                    Some(p) => p.clone(),
                    None => String::from_str("."),
                };
                let sym = symbol_string(&package, &segs);
                let ghost sym_v = sym@;
                syms.push(SymbolInformation { symbol: sym.clone() });
                occs.push(
                    Occurrence { symbol: sym, is_definition: true, range: loc.span.clone() },
                );
                proof {
                    assert(syms.deep_view() =~= syms0.push(sym_v));
                    assert(occs.deep_view() =~= occs0.push(
                        OccurrenceV {
                            symbol: sym_v,
                            is_definition: true,
                            range: file.locations@[i as int].span@,
                        },
                    ));
                }
            },
            Ok(Some(DecodeResult::ExternalReference(name))) => {
                let rs: ResolvedSymbol = match tree.resolve(name.as_str()) {
                    Err(e) => {
                        return Err(e);
                    },
                    Ok(rs) => rs,
                };
                let sym = symbol_string(&rs.package, &rs.segments);
                let ghost sym_v = sym@;
                occs.push(
                    Occurrence { symbol: sym, is_definition: false, range: loc.span.clone() },
                );
                proof {
                    assert(occs.deep_view() =~= occs0.push(
                        OccurrenceV {
                            symbol: sym_v,
                            is_definition: false,
                            range: file.locations@[i as int].span@,
                        },
                    ));
                }
            },
        }
        i = i + 1;
    }
    match &file.name {
        None => Err(IndexError::MalformedInput),
        Some(n) => {
            let d = IndexDocument {
                relative_path: n.clone(),
                language: String::from_str("ProtocolBuffers"),
                symbols: syms,
                occurrences: occs,
            };
            Ok(d)
        },
    }
}

/// Runs the whole conversion pipeline over the input set: builds the global
/// registry, assembles every file's document against it, and attaches the
/// run metadata. No partial index is ever returned.
#[verifier::loop_isolation(false)]
pub fn assemble(files: &Vec<FileDeclaration>, project_root: &str, arguments: Vec<String>) -> (r:
    Result<IndexOutput, IndexError>)
    ensures
        match r {
            Result::Ok(out) => spec_index(files@, project_root@, arguments.deep_view())
                == Result::<IndexV, IndexError>::Ok(out@),
            Result::Err(e) => spec_index(files@, project_root@, arguments.deep_view())
                == Result::<IndexV, IndexError>::Err(e),
        },
{
    let ghost args_v = arguments.deep_view();
    let tree = match TypeTree::build(files) {
        Err(e) => {
            return Err(e);
        },
        Ok(t) => t,
    };
    let mut docs: Vec<IndexDocument> = Vec::new();
    proof {
        assert(docs.deep_view() =~= Seq::<DocumentV>::empty());
    }
    let mut i: usize = 0;
    while i < files.len()
        invariant
            0 <= i <= files@.len(),
            spec_documents_from(files@, tree.view_roots(), i as int, docs.deep_view())
                == spec_documents_from(files@, tree.view_roots(), 0, Seq::<DocumentV>::empty()),
        decreases files@.len() - i,
    {
        let ghost docs0 = docs.deep_view();
        match assemble_document(&files[i], &tree) {
            Err(e) => {
                return Err(e);
            },
            Ok(d) => {
                let ghost d_v = d@;
                docs.push(d);
                proof {
                    assert(docs.deep_view() =~= docs0.push(d_v));
                }
            },
        }
        i = i + 1;
    }
    let mut root = String::from_str("file://");
    root.append(project_root);
    let metadata = IndexMetadata {
        project_root: root,
        tool_name: String::from_str("scip-protobuf"),
        tool_version: String::from_str("0.0.1"),
        arguments,
    };
    let out = IndexOutput { metadata, documents: docs };
    Ok(out)
}

} // verus!
