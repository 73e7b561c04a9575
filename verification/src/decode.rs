//! The descriptor path decoder: interprets a source-location entry's flat
//! integer path against the descriptor structure of one file, yielding either
//! the ordered name segments of the declaration the path addresses, or the
//! dotted name of an externally resolved type reference, or nothing when the
//! path has a shape this pipeline does not recognize.

use vstd::prelude::*;

use crate::model::{
    EnumDeclaration, EnumValueDeclaration, FieldDeclaration, FileDeclaration, MessageDeclaration,
};
use crate::IndexError;

verus! {

/// The kind tag of one qualified-name segment.
#[derive(Clone, Copy, Debug, PartialEq, Eq, Structural)]
pub enum SegmentKind {
    Namespace,
    Type,
    Term,
}

/// One atomic piece of a qualified name: a name and its kind tag.
#[derive(Clone, Debug, PartialEq, Eq)]
pub struct DescriptorSegment {
    pub name: String,
    pub kind: SegmentKind,
}

/// The mathematical value of a [`DescriptorSegment`].
pub ghost struct SegmentV {
    pub name: Seq<char>,
    pub kind: SegmentKind,
}

impl View for DescriptorSegment {
    type V = SegmentV;

    open spec fn view(&self) -> SegmentV {
        SegmentV { name: self.name@, kind: self.kind }
    }
}

impl DeepView for DescriptorSegment {
    type V = SegmentV;

    open spec fn deep_view(&self) -> SegmentV {
        self.view()
    }
}

/// What decoding a recognized path yields: either the local name segments of
/// the addressed declaration, innermost last, or a dotted type name that must
/// be resolved against the global registry.
#[derive(Debug, PartialEq, Eq)]
pub enum DecodeResult {
    LocalSegments(Vec<DescriptorSegment>),
    ExternalReference(String),
}

/// The mathematical value of a [`DecodeResult`].
pub ghost enum DecodeResultV {
    LocalSegments(Seq<SegmentV>),
    ExternalReference(Seq<char>),
}

impl View for DecodeResult {
    type V = DecodeResultV;

    open spec fn view(&self) -> DecodeResultV {
        match self {
            DecodeResult::LocalSegments(segs) => DecodeResultV::LocalSegments(segs.deep_view()),
            DecodeResult::ExternalReference(name) => DecodeResultV::ExternalReference(name@),
        }
    }
}

/// Where the walk currently stands in the descriptor structure: one case per
/// position kind, so that every path transition is matched exhaustively.
pub enum Position<'a> {
    File(&'a FileDeclaration),
    Messages(&'a Vec<MessageDeclaration>),
    Message(&'a MessageDeclaration),
    Enums(&'a Vec<EnumDeclaration>),
    Enum(&'a EnumDeclaration),
    Fields(&'a Vec<FieldDeclaration>),
    Field(&'a FieldDeclaration),
    EnumValues(&'a Vec<EnumValueDeclaration>),
    EnumValue(&'a EnumValueDeclaration),
}

/// The mathematical value of a [`Position`].
pub ghost enum PositionV {
    File(FileDeclaration),
    Messages(Seq<MessageDeclaration>),
    Message(MessageDeclaration),
    Enums(Seq<EnumDeclaration>),
    Enum(EnumDeclaration),
    Fields(Seq<FieldDeclaration>),
    Field(FieldDeclaration),
    EnumValues(Seq<EnumValueDeclaration>),
    EnumValue(EnumValueDeclaration),
}

impl<'a> View for Position<'a> {
    type V = PositionV;

    open spec fn view(&self) -> PositionV {
        match self {
            Position::File(fd) => PositionV::File(**fd),
            Position::Messages(v) => PositionV::Messages(v@),
            Position::Message(m) => PositionV::Message(**m),
            Position::Enums(v) => PositionV::Enums(v@),
            Position::Enum(e) => PositionV::Enum(**e),
            Position::Fields(v) => PositionV::Fields(v@),
            Position::Field(f) => PositionV::Field(**f),
            Position::EnumValues(v) => PositionV::EnumValues(v@),
            Position::EnumValue(v) => PositionV::EnumValue(**v),
        }
    }
}

/// The characters of an optional name, empty when it is absent.
pub open spec fn opt_chars(o: Option<String>) -> Seq<char> {
    match o {
        Option::Some(s) => s@,
        Option::None => Seq::<char>::empty(),
    }
}

/// The result shape the decoder reports: `Ok(None)` when the path is
/// unrecognized and the entry is to be skipped, `Ok(Some(..))` on a decoded
/// declaration or type reference, `Err(..)` on malformed input.
pub open spec fn outcome_view(r: Result<Option<DecodeResult>, IndexError>) -> Result<
    Option<DecodeResultV>,
    IndexError,
> {
    match r {
        Result::Ok(Option::None) => Result::Ok(Option::None),
        Result::Ok(Option::Some(d)) => Result::Ok(Option::Some(d@)),
        Result::Err(e) => Result::Err(e),
    }
}

/// What the walk yields from position `pos` with the path steps from `i` on,
/// having already accumulated the segments `acc` of the enclosing
/// declarations. This is the decoder's whole definition.
pub open spec fn spec_decode_from(
    pos: PositionV,
    path: Seq<i32>,
    i: int,
    acc: Seq<SegmentV>,
) -> Result<Option<DecodeResultV>, IndexError>
    decreases path.len() - i,
{
    if i < 0 || i >= path.len() {
        Result::Ok(Option::Some(DecodeResultV::LocalSegments(acc)))
    } else {
        let step = path[i];
        match pos {
            PositionV::File(fd) => if step == 4 {
                spec_decode_from(PositionV::Messages(fd.messages@), path, i + 1, acc)
            } else if step == 5 {
                spec_decode_from(PositionV::Enums(fd.enums@), path, i + 1, acc)
            } else {
                Result::Ok(Option::None)
            },
            PositionV::Messages(msgs) => if step < 0 || step >= msgs.len() {
                Result::Err(IndexError::MalformedInput)
            } else if i == path.len() - 1 {
                Result::Ok(Option::None)
            } else {
                spec_decode_from(PositionV::Message(msgs[step as int]), path, i + 1, acc)
            },
            PositionV::Message(m) => if m.name is None {
                Result::Err(IndexError::MalformedInput)
            } else {
                let acc2 = acc.push(SegmentV { name: opt_chars(m.name), kind: SegmentKind::Type });
                if step == 1 {
                    spec_decode_from(PositionV::Message(m), path, i + 1, acc2)
                } else if step == 2 {
                    spec_decode_from(PositionV::Fields(m.fields@), path, i + 1, acc2)
                } else if step == 3 {
                    spec_decode_from(PositionV::Messages(m.messages@), path, i + 1, acc2)
                } else if step == 4 {
                    spec_decode_from(PositionV::Enums(m.enums@), path, i + 1, acc2)
                } else {
                    Result::Ok(Option::None)
                }
            },
            PositionV::Enums(enums) => if step < 0 || step >= enums.len() {
                Result::Err(IndexError::MalformedInput)
            } else if i == path.len() - 1 {
                Result::Ok(Option::None)
            } else {
                spec_decode_from(PositionV::Enum(enums[step as int]), path, i + 1, acc)
            },
            PositionV::Enum(e) => if e.name is None {
                Result::Err(IndexError::MalformedInput)
            } else {
                let acc2 = acc.push(SegmentV { name: opt_chars(e.name), kind: SegmentKind::Type });
                if step == 1 {
                    spec_decode_from(PositionV::Enum(e), path, i + 1, acc2)
                } else if step == 2 {
                    spec_decode_from(PositionV::EnumValues(e.values@), path, i + 1, acc2)
                } else {
                    Result::Ok(Option::None)
                }
            },
            PositionV::Fields(fields) => if step < 0 || step >= fields.len() {
                Result::Err(IndexError::MalformedInput)
            } else if i == path.len() - 1 {
                Result::Ok(Option::None)
            } else {
                spec_decode_from(PositionV::Field(fields[step as int]), path, i + 1, acc)
            },
            PositionV::Field(f) => if step == 1 {
                if f.name is None {
                    Result::Err(IndexError::MalformedInput)
                } else {
                    let acc2 = acc.push(
                        SegmentV { name: opt_chars(f.name), kind: SegmentKind::Term },
                    );
                    spec_decode_from(PositionV::Field(f), path, i + 1, acc2)
                }
            } else if step == 6 {
                if f.declared_type is None {
                    Result::Err(IndexError::MalformedInput)
                } else {
                    Result::Ok(
                        Option::Some(DecodeResultV::ExternalReference(opt_chars(f.declared_type))),
                    )
                }
            } else {
                Result::Ok(Option::None)
            },
            PositionV::EnumValues(values) => if step < 0 || step >= values.len() {
                Result::Err(IndexError::MalformedInput)
            } else if i == path.len() - 1 {
                Result::Ok(Option::None)
            } else {
                spec_decode_from(PositionV::EnumValue(values[step as int]), path, i + 1, acc)
            },
            PositionV::EnumValue(v) => if step == 1 {
                if v.name is None {
                    Result::Err(IndexError::MalformedInput)
                } else {
                    let acc2 = acc.push(
                        SegmentV { name: opt_chars(v.name), kind: SegmentKind::Term },
                    );
                    spec_decode_from(PositionV::EnumValue(v), path, i + 1, acc2)
                }
            } else {
                Result::Ok(Option::None)
            },
        }
    }
}

/// What decoding `path` against `file` yields, from the file root with no
/// accumulated segments.
pub open spec fn spec_decode(file: FileDeclaration, path: Seq<i32>) -> Result<
    Option<DecodeResultV>,
    IndexError,
> {
    spec_decode_from(PositionV::File(file), path, 0, Seq::<SegmentV>::empty())
}

/// One step of the walk: carries the remaining path from index `i` on.
fn decode_from(
    pos: Position<'_>,
    path: &Vec<i32>,
    i: usize,
    acc: Vec<DescriptorSegment>,
) -> (r: Result<Option<DecodeResult>, IndexError>)
    requires
        i <= path@.len(),
    ensures
        outcome_view(r) == spec_decode_from(pos@, path@, i as int, acc.deep_view()),
    decreases path@.len() - i,
{
    if i >= path.len() {
        return Ok(Some(DecodeResult::LocalSegments(acc)));
    }
    let step = path[i];
    match pos {
        Position::File(fd) => {
            if step == 4 {
                decode_from(Position::Messages(&fd.messages), path, i + 1, acc)
            } else if step == 5 {
                decode_from(Position::Enums(&fd.enums), path, i + 1, acc)
            } else {
                Ok(None)
            }
        },
        Position::Messages(msgs) => {
            if step < 0 || step as usize >= msgs.len() {
                Err(IndexError::MalformedInput)
            } else if i == path.len() - 1 {
                Ok(None)
            } else {
                decode_from(Position::Message(&msgs[step as usize]), path, i + 1, acc)
            }
        },
        Position::Message(m) => {
            match &m.name {
                None => Err(IndexError::MalformedInput),
                Some(name) => {
                    let ghost acc_v = acc.deep_view();
                    let mut acc2 = acc;
                    let seg = DescriptorSegment { name: name.clone(), kind: SegmentKind::Type };
                    let ghost seg_v = seg@;
                    acc2.push(seg);
                    proof {
                        assert(acc2.deep_view() =~= acc_v.push(seg_v));
                    }
                    if step == 1 {
                        decode_from(Position::Message(m), path, i + 1, acc2)
                    } else if step == 2 {
                        decode_from(Position::Fields(&m.fields), path, i + 1, acc2)
                    } else if step == 3 {
                        decode_from(Position::Messages(&m.messages), path, i + 1, acc2)
                    } else if step == 4 {
                        decode_from(Position::Enums(&m.enums), path, i + 1, acc2)
                    } else {
                        Ok(None)
                    }
                },
            }
        },
        Position::Enums(enums) => {
            if step < 0 || step as usize >= enums.len() {
                Err(IndexError::MalformedInput)
            } else if i == path.len() - 1 {
                Ok(None)
            } else {
                decode_from(Position::Enum(&enums[step as usize]), path, i + 1, acc)
            }
        },
        Position::Enum(e) => {
            match &e.name {
                None => Err(IndexError::MalformedInput),
                Some(name) => {
                    let ghost acc_v = acc.deep_view();
                    let mut acc2 = acc;
                    let seg = DescriptorSegment { name: name.clone(), kind: SegmentKind::Type };
                    let ghost seg_v = seg@;
                    acc2.push(seg);
                    proof {
                        assert(acc2.deep_view() =~= acc_v.push(seg_v));
                    }
                    if step == 1 {
                        decode_from(Position::Enum(e), path, i + 1, acc2)
                    } else if step == 2 {
                        decode_from(Position::EnumValues(&e.values), path, i + 1, acc2)
                    } else {
                        Ok(None)
                    }
                },
            }
        },
        Position::Fields(fields) => {
            if step < 0 || step as usize >= fields.len() {
                Err(IndexError::MalformedInput)
            } else if i == path.len() - 1 {
                Ok(None)
            } else {
                decode_from(Position::Field(&fields[step as usize]), path, i + 1, acc)
            }
        },
        Position::Field(f) => {
            if step == 1 {
                match &f.name {
                    None => Err(IndexError::MalformedInput),
                    Some(name) => {
                        let ghost acc_v = acc.deep_view();
                        let mut acc2 = acc;
                        let seg = DescriptorSegment { name: name.clone(), kind: SegmentKind::Term };
                        let ghost seg_v = seg@;
                        acc2.push(seg);
                        proof {
                            assert(acc2.deep_view() =~= acc_v.push(seg_v));
                        }
                        decode_from(Position::Field(f), path, i + 1, acc2)
                    },
                }
            } else if step == 6 {
                match &f.declared_type {
                    None => Err(IndexError::MalformedInput),
                    Some(t) => Ok(Some(DecodeResult::ExternalReference(t.clone()))),
                }
            } else {
                Ok(None)
            }
        },
        Position::EnumValues(values) => {
            if step < 0 || step as usize >= values.len() {
                Err(IndexError::MalformedInput)
            } else if i == path.len() - 1 {
                Ok(None)
            } else {
                decode_from(Position::EnumValue(&values[step as usize]), path, i + 1, acc)
            }
        },
        Position::EnumValue(v) => {
            if step == 1 {
                match &v.name {
                    None => Err(IndexError::MalformedInput),
                    Some(name) => {
                        let ghost acc_v = acc.deep_view();
                        let mut acc2 = acc;
                        let seg = DescriptorSegment { name: name.clone(), kind: SegmentKind::Term };
                        let ghost seg_v = seg@;
                        acc2.push(seg);
                        proof {
                            assert(acc2.deep_view() =~= acc_v.push(seg_v));
                        }
                        decode_from(Position::EnumValue(v), path, i + 1, acc2)
                    },
                }
            } else {
                Ok(None)
            }
        },
    }
}

/// Decodes one source-location path against its file. `Ok(None)` means the
/// entry has an unrecognized shape and is skipped; `Err` reports malformed
/// input (an index past the end of a collection, or a missing name). The
/// result is an exact function of the file and the path alone, so decoding
/// the same entry twice always yields the same value.
pub fn decode(file: &FileDeclaration, path: &Vec<i32>) -> (r: Result<
    Option<DecodeResult>,
    IndexError,
>)
    ensures
        outcome_view(r) == spec_decode(*file, path@),
{
    let acc: Vec<DescriptorSegment> = Vec::new();
    proof {
        assert(acc.deep_view() =~= Seq::<SegmentV>::empty());
    }
    decode_from(Position::File(file), path, 0, acc)
}

} // verus!
