//! The language-neutral intermediate representation produced by frontends.
use crate::findings::{LocationView, SourceLocation};
use vstd::prelude::*;

verus! {

/// All lowered modules of a program.
#[derive(Debug, Clone)]
pub struct ProgramIr {
    pub modules: Vec<ModuleIr>,
}

impl Default for ProgramIr {
    fn default() -> (r: Self)
        ensures
            r.modules@.len() == 0,
    {
        ProgramIr { modules: Vec::new() }
    }
}

/// One lowered source file.
#[derive(Debug, Clone)]
pub struct ModuleIr {
    pub language: String,
    pub path: String,
    pub instructions: Vec<Instruction>,
}

/// The identity of a value computed by an instruction.
#[derive(Debug, Clone, Copy, PartialEq, Eq, Structural, Hash)]
pub struct ValueId(pub u32);

/// A literal as it appears in the source.
#[derive(Debug, Clone)]
pub enum LiteralValue {
    String(String),
    Integer(String),
    Float(String),
    Boolean(bool),
    Null,
}

/// How a call names its target.
#[derive(Debug, Clone, Copy, PartialEq, Eq, Structural, Hash)]
pub enum CallKind {
    Function,
    Method,
    NullsafeMethod,
    StaticMethod,
    Dynamic,
}

/// The language construct that writes output.
#[derive(Debug, Clone, Copy, PartialEq, Eq, Structural, Hash)]
pub enum OutputKind {
    Echo,
    Print,
}

/// One step of a lowered module.
#[derive(Debug, Clone)]
pub enum Instruction {
    FunctionStart { name: String, parameters: Vec<String>, location: SourceLocation },
    FunctionEnd { name: String, location: SourceLocation },
    VariableRead { output: ValueId, name: String, location: SourceLocation },
    Literal { output: ValueId, value: LiteralValue, location: SourceLocation },
    Assignment { target: String, value: ValueId, location: SourceLocation },
    Concatenate { output: ValueId, operands: Vec<ValueId>, location: SourceLocation },
    IndexRead {
        output: ValueId,
        collection: ValueId,
        index: Option<ValueId>,
        location: SourceLocation,
    },
    Call {
        output: ValueId,
        target: String,
        call_kind: CallKind,
        arguments: Vec<ValueId>,
        location: SourceLocation,
    },
    Output {
        output: Option<ValueId>,
        output_kind: OutputKind,
        values: Vec<ValueId>,
        location: SourceLocation,
    },
    Return { value: Option<ValueId>, location: SourceLocation },
    Opaque { output: ValueId, expression: String, location: SourceLocation },
}

/// The mathematical value of a [`LiteralValue`].
pub enum LiteralView {
    String(Seq<char>),
    Integer(Seq<char>),
    Float(Seq<char>),
    Boolean(bool),
    Null,
}

impl DeepView for LiteralValue {
    type V = LiteralView;

    open spec fn deep_view(&self) -> LiteralView {
        match self {
            LiteralValue::String(s) => LiteralView::String(s@),
            LiteralValue::Integer(s) => LiteralView::Integer(s@),
            LiteralValue::Float(s) => LiteralView::Float(s@),
            LiteralValue::Boolean(b) => LiteralView::Boolean(*b),
            LiteralValue::Null => LiteralView::Null,
        }
    }
}

/// The mathematical value of an [`Instruction`].
pub enum InstructionView {
    FunctionStart { name: Seq<char>, parameters: Seq<Seq<char>>, location: LocationView },
    FunctionEnd { name: Seq<char>, location: LocationView },
    VariableRead { output: ValueId, name: Seq<char>, location: LocationView },
    Literal { output: ValueId, value: LiteralView, location: LocationView },
    Assignment { target: Seq<char>, value: ValueId, location: LocationView },
    Concatenate { output: ValueId, operands: Seq<ValueId>, location: LocationView },
    IndexRead {
        output: ValueId,
        collection: ValueId,
        index: Option<ValueId>,
        location: LocationView,
    },
    Call {
        output: ValueId,
        target: Seq<char>,
        call_kind: CallKind,
        arguments: Seq<ValueId>,
        location: LocationView,
    },
    Output {
        output: Option<ValueId>,
        output_kind: OutputKind,
        values: Seq<ValueId>,
        location: LocationView,
    },
    Return { value: Option<ValueId>, location: LocationView },
    Opaque { output: ValueId, expression: Seq<char>, location: LocationView },
}

impl DeepView for Instruction {
    type V = InstructionView;

    open spec fn deep_view(&self) -> InstructionView {
        match self {
            Instruction::FunctionStart { name, parameters, location } => InstructionView::FunctionStart {
                name: name@,
                parameters: parameters.deep_view(),
                location: location@,
            },
            Instruction::FunctionEnd { name, location } => InstructionView::FunctionEnd {
                name: name@,
                location: location@,
            },
            Instruction::VariableRead { output, name, location } => InstructionView::VariableRead {
                output: *output,
                name: name@,
                location: location@,
            },
            Instruction::Literal { output, value, location } => InstructionView::Literal {
                output: *output,
                value: value.deep_view(),
                location: location@,
            },
            Instruction::Assignment { target, value, location } => InstructionView::Assignment {
                target: target@,
                value: *value,
                location: location@,
            },
            Instruction::Concatenate { output, operands, location } => InstructionView::Concatenate {
                output: *output,
                operands: operands@,
                location: location@,
            },
            Instruction::IndexRead { output, collection, index, location } => InstructionView::IndexRead {
                output: *output,
                collection: *collection,
                index: *index,
                location: location@,
            },
            Instruction::Call { output, target, call_kind, arguments, location } => InstructionView::Call {
                output: *output,
                target: target@,
                call_kind: *call_kind,
                arguments: arguments@,
                location: location@,
            },
            Instruction::Output { output, output_kind, values, location } => InstructionView::Output {
                output: *output,
                output_kind: *output_kind,
                values: values@,
                location: location@,
            },
            Instruction::Return { value, location } => InstructionView::Return {
                value: *value,
                location: location@,
            },
            Instruction::Opaque { output, expression, location } => InstructionView::Opaque {
                output: *output,
                expression: expression@,
                location: location@,
            },
        }
    }
}

/// The value an instruction defines, if any.
pub open spec fn defined_value(instruction: Instruction) -> Option<u32> {
    match instruction {
        Instruction::VariableRead { output, .. } => Some(output.0),
        Instruction::Literal { output, .. } => Some(output.0),
        Instruction::Concatenate { output, .. } => Some(output.0),
        Instruction::IndexRead { output, .. } => Some(output.0),
        Instruction::Call { output, .. } => Some(output.0),
        Instruction::Opaque { output, .. } => Some(output.0),
        Instruction::Output { output, .. } => match output {
            Some(v) => Some(v.0),
            None => None,
        },
        _ => None,
    }
}

/// The value an instruction defines, if any.
pub fn instruction_output(instruction: &Instruction) -> (r: Option<u32>)
    ensures
        r == defined_value(*instruction),
{
    match instruction {
        Instruction::VariableRead { output, .. } => Some(output.0),
        Instruction::Literal { output, .. } => Some(output.0),
        Instruction::Concatenate { output, .. } => Some(output.0),
        Instruction::IndexRead { output, .. } => Some(output.0),
        Instruction::Call { output, .. } => Some(output.0),
        Instruction::Opaque { output, .. } => Some(output.0),
        Instruction::Output { output, .. } => match output {
            Some(v) => Some(v.0),
            None => None,
        },
        _ => None,
    }
}

/// The values in a list of value identities.
pub open spec fn ids(values: Seq<ValueId>) -> Seq<u32> {
    values.map_values(|v: ValueId| v.0)
}

/// The values an instruction reads.
pub open spec fn used_values(instruction: Instruction) -> Seq<u32> {
    match instruction {
        Instruction::Assignment { value, .. } => seq![value.0],
        Instruction::Concatenate { operands, .. } => ids(operands@),
        Instruction::IndexRead { collection, index, .. } => match index {
            Some(i) => seq![collection.0, i.0],
            None => seq![collection.0],
        },
        Instruction::Call { arguments, .. } => ids(arguments@),
        Instruction::Output { values, .. } => ids(values@),
        Instruction::Return { value, .. } => match value {
            Some(v) => seq![v.0],
            None => seq![],
        },
        _ => seq![],
    }
}

/// The number of values a list of instructions defines.
pub open spec fn defined_count(instructions: Seq<Instruction>) -> nat
    decreases instructions.len(),
{
    if instructions.len() == 0 {
        0
    } else {
        defined_count(instructions.drop_last()) + if defined_value(instructions.last()) is Some {
            1nat
        } else {
            0nat
        }
    }
}

/// An instruction that follows `n` defined values reads only those values and, if it defines
/// one, defines value `n`.
pub open spec fn value_step_ok(instruction: Instruction, n: nat) -> bool {
    &&& (defined_value(instruction) is Some ==> defined_value(instruction) == Some(n as u32))
    &&& forall|j: int|
        0 <= j < used_values(instruction).len() ==> (#[trigger] used_values(instruction)[j]) < n
}

/// The defining instructions define the values 0, 1, 2, ... in order, and every value is read
/// only after it is defined.
pub open spec fn values_well_formed(instructions: Seq<Instruction>) -> bool
    decreases instructions.len(),
{
    instructions.len() == 0 || (values_well_formed(instructions.drop_last()) && value_step_ok(
        instructions.last(),
        defined_count(instructions.drop_last()),
    ))
}

/// The names of the functions open after a list of instructions, innermost last; `None` if a
/// function end does not close the innermost open function of the same name.
pub open spec fn open_functions(instructions: Seq<Instruction>) -> Option<Seq<Seq<char>>>
    decreases instructions.len(),
{
    if instructions.len() == 0 {
        Some(seq![])
    } else {
        match open_functions(instructions.drop_last()) {
            None => None,
            Some(stack) => match instructions.last() {
                Instruction::FunctionStart { name, .. } => Some(stack.push(name@)),
                Instruction::FunctionEnd { name, .. } => if stack.len() > 0 && stack.last()
                    == name@ {
                    Some(stack.drop_last())
                } else {
                    None
                },
                _ => Some(stack),
            },
        }
    }
}

} // verus!
