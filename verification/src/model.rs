//! The input data model: one compiled schema file with its message and enum
//! declarations and its source-location entries. The whole input set is
//! read-only for the duration of a run.

use vstd::prelude::*;

verus! {

/// One field of a message: its declared name and, when the field is of a
/// named (message or enum) type, the dotted type name it references.
pub struct FieldDeclaration {
    pub name: Option<String>,
    pub declared_type: Option<String>,
}

/// One value of an enum declaration.
pub struct EnumValueDeclaration {
    pub name: Option<String>,
}

/// One enum declaration: a name and its ordered values.
pub struct EnumDeclaration {
    pub name: Option<String>,
    pub values: Vec<EnumValueDeclaration>,
}

/// One message declaration: a name, its ordered fields, and its nested
/// message and enum declarations.
pub struct MessageDeclaration {
    pub name: Option<String>,
    pub fields: Vec<FieldDeclaration>,
    pub messages: Vec<MessageDeclaration>,
    pub enums: Vec<EnumDeclaration>,
}

/// One source-location entry: an integer path addressing a declaration, and
/// the byte-range span of the source text it annotates.
pub struct SourceLocation {
    pub path: Vec<i32>,
    pub span: Vec<i32>,
}

/// One compiled schema file: its declared name (the relative path), its
/// package, its top-level declarations, and its source-location entries.
pub struct FileDeclaration {
    pub name: Option<String>,
    pub package: Option<String>,
    pub messages: Vec<MessageDeclaration>,
    pub enums: Vec<EnumDeclaration>,
    pub locations: Vec<SourceLocation>,
}

} // verus!
