//! The parts of the intermediate representation of a BAML program that its
//! JSON Schema is generated from.

use vstd::prelude::*;

use crate::field_type::FieldType;

verus! {

/// An enum declaration: its name and the names of its values.
#[derive(Debug)]
pub struct Enum {
    pub name: String,
    pub values: Vec<String>,
}

/// A field of a class.
#[derive(Debug)]
pub struct Field {
    pub name: String,
    pub field_type: FieldType,
}

/// A class declaration with its static fields.
#[derive(Debug)]
pub struct Class {
    pub name: String,
    pub static_fields: Vec<Field>,
}

/// The arguments of a function: one unnamed argument, or a list of named ones.
#[derive(Debug)]
pub enum FunctionArgs {
    UnnamedArg(FieldType),
    NamedArgList(Vec<(String, FieldType)>),
}

/// A function declaration: its name, its named inputs and its output type.
#[derive(Debug)]
pub struct FunctionNode {
    pub name: String,
    pub inputs: Vec<(String, FieldType)>,
    pub output: FieldType,
}

/// The declarations of a program.
#[derive(Debug)]
pub struct IntermediateRepr {
    pub enums: Vec<Enum>,
    pub classes: Vec<Class>,
    pub functions: Vec<FunctionNode>,
}

} // verus!
