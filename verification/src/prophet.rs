//! The description of a program's surroundings: the values it is handed,
//! the names that the execution context binds, and the values it hands back.

use vstd::prelude::*;
use crate::symbol::SymbolView;
use crate::types::ScalarType;

verus! {

/// A declared input or output: its name and how many field elements it holds.
#[derive(Clone, Debug, PartialEq, Eq)]
pub struct ProphetVariable {
    pub name: String,
    pub length: usize,
}

/// The mathematical model of a `ProphetVariable`.
pub struct ProphetVariableView {
    pub name: Seq<char>,
    pub length: usize,
}

impl View for ProphetVariable {
    type V = ProphetVariableView;

    open spec fn view(&self) -> ProphetVariableView {
        ProphetVariableView { name: self.name@, length: self.length }
    }
}

/// The declared inputs, context variables and outputs of a program.
#[derive(Clone, Debug, PartialEq, Eq)]
pub struct OlaProphet {
    pub inputs: Vec<ProphetVariable>,
    pub ctx: Vec<String>,
    pub outputs: Vec<ProphetVariable>,
}

/// The mathematical model of an `OlaProphet`.
pub struct ProphetView {
    pub inputs: Seq<ProphetVariableView>,
    pub ctx: Seq<Seq<char>>,
    pub outputs: Seq<ProphetVariableView>,
}

impl View for OlaProphet {
    type V = ProphetView;

    open spec fn view(&self) -> ProphetView {
        ProphetView {
            inputs: self.inputs@.map_values(|v: ProphetVariable| v@),
            ctx: self.ctx@.map_values(|n: String| n@),
            outputs: self.outputs@.map_values(|v: ProphetVariable| v@),
        }
    }
}

/// The variable that a declared input or output becomes: a scalar field
/// element where its length is 1, an array of field elements of that length
/// otherwise.
pub open spec fn seeded_variable(v: ProphetVariableView) -> SymbolView {
    SymbolView::Variable {
        name: v.name,
        ty: ScalarType::Felt,
        array_len: if v.length == 1 {
            None
        } else {
            Some(v.length)
        },
    }
}

/// The variable that a context variable becomes: a scalar field element.
pub open spec fn context_variable(name: Seq<char>) -> SymbolView {
    SymbolView::Variable { name, ty: ScalarType::Felt, array_len: None }
}

/// The variables that the root scope is seeded with, in the order in which
/// they are recorded: inputs, context variables, outputs.
pub open spec fn seeds(p: ProphetView) -> Seq<SymbolView> {
    p.inputs.map_values(|v: ProphetVariableView| seeded_variable(v)) + p.ctx.map_values(
        |n: Seq<char>| context_variable(n),
    ) + p.outputs.map_values(|v: ProphetVariableView| seeded_variable(v))
}

} // verus!
