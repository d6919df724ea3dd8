//! The three-address intermediate representation: operands, instructions,
//! and the liveness side table. A temp carries a stable numeric identity and
//! its last use is kept in one array owned by the code, indexed by that
//! identity.

use vstd::prelude::*;
use crate::symbol_table::Scope;

verus! {

/// A literal operand.
#[derive(Debug, Copy, Clone, PartialEq, Eq, Structural)]
pub struct Constant(pub i32);

impl View for Constant {
    type V = int;

    open spec fn view(&self) -> int {
        self.0 as int
    }
}

impl Constant {
    pub fn new(c: i32) -> (r: Self)
        ensures
            r@ == c as int,
    {
        Constant(c)
    }

    pub fn constant(&self) -> (r: i32)
        ensures
            r as int == self@,
    {
        self.0
    }
}

/// A textual jump target; two labels are the same label when their names
/// are.
#[derive(Debug)]
pub struct Label(pub String);

impl View for Label {
    type V = Seq<char>;

    open spec fn view(&self) -> Seq<char> {
        self.0@
    }
}

impl Clone for Label {
    /// An exact copy.
    fn clone(&self) -> (r: Self)
        ensures
            r@ == self@,
    {
        Label(self.0.clone())
    }
}

impl Label {
    pub fn new(label: String) -> (r: Self)
        ensures
            r@ == label@,
    {
        Label(label)
    }

    pub fn label(&self) -> (r: &String)
        ensures
            r@ == self@,
    {
        &self.0
    }
}

/// A synthetic operand, by numeric identity.
#[derive(Debug, Copy, Clone, PartialEq, Eq, Structural)]
pub struct Temp(pub u32);

impl View for Temp {
    type V = int;

    open spec fn view(&self) -> int {
        self.0 as int
    }
}

impl Temp {
    pub fn new(t: u32) -> (r: Self)
        ensures
            r@ == t as int,
    {
        Temp(t)
    }

    pub fn temp(&self) -> (r: u32)
        ensures
            r as int == self@,
    {
        self.0
    }
}

/// An operand position that takes a constant or a temp: the index of a
/// vector access.
#[derive(Debug, Copy, Clone, PartialEq, Eq, Structural)]
pub enum CT {
    C(Constant),
    T(Temp),
}

/// The mathematical form of a constant-or-temp operand.
pub ghost enum CtV {
    C(int),
    T(int),
}

impl View for CT {
    type V = CtV;

    open spec fn view(&self) -> CtV {
        match *self {
            CT::C(c) => CtV::C(c@),
            CT::T(t) => CtV::T(t@),
        }
    }
}

/// A reference to a symbol-table entry: its printed name, an optional index,
/// and the symbol's address and scope copied onto the operand.
#[derive(Debug)]
pub struct Variable {
    pub id: String,
    pub indice: Option<CT>,
    pub address: usize,
    pub scope: Scope,
}

/// The mathematical form of a variable operand.
pub ghost struct VarV {
    pub id: Seq<char>,
    pub indice: Option<CtV>,
    pub address: int,
    pub scope: Scope,
}

impl View for Variable {
    type V = VarV;

    open spec fn view(&self) -> VarV {
        VarV {
            id: self.id@,
            indice: match self.indice {
                Some(ct) => Some(ct@),
                None => None,
            },
            address: self.address as int,
            scope: self.scope,
        }
    }
}

impl Clone for Variable {
    /// An exact copy.
    fn clone(&self) -> (r: Self)
        ensures
            r@ == self@,
    {
        Variable {
            id: self.id.clone(),
            indice: match &self.indice {
                Some(ct) => Some(*ct),
                None => None,
            },
            address: self.address,
            scope: self.scope,
        }
    }
}

impl Variable {
    pub fn new(id: String, indice: Option<CT>, address: usize, scope: Scope) -> (r: Self)
        ensures
            r@ == (VarV {
                id: id@,
                indice: match indice {
                    Some(ct) => Some(ct@),
                    None => None,
                },
                address: address as int,
                scope,
            }),
    {
        Variable { id, indice, address, scope }
    }

    pub fn id(&self) -> (r: &String)
        ensures
            r@ == self@.id,
    {
        &self.id
    }

    pub fn indice(&self) -> (r: &Option<CT>)
        ensures
            match r {
                Some(ct) => self@.indice == Some(ct@),
                None => self@.indice is None,
            },
    {
        &self.indice
    }

    pub fn address(&self) -> (r: usize)
        ensures
            r as int == self@.address,
    {
        self.address
    }

    pub fn scope(&self) -> (r: Scope)
        ensures
            r == self@.scope,
    {
        self.scope
    }
}

/// An operand position that takes any of constant, temp or variable.
#[derive(Debug)]
pub enum CTV {
    C(Constant),
    T(Temp),
    V(Variable),
}

/// The mathematical form of a general operand.
pub ghost enum CtvV {
    C(int),
    T(int),
    V(VarV),
}

impl View for CTV {
    type V = CtvV;

    open spec fn view(&self) -> CtvV {
        match self {
            CTV::C(c) => CtvV::C(c@),
            CTV::T(t) => CtvV::T(t@),
            CTV::V(v) => CtvV::V(v@),
        }
    }
}

impl Clone for CTV {
    /// An exact copy.
    fn clone(&self) -> (r: Self)
        ensures
            r@ == self@,
    {
        match self {
            CTV::C(c) => CTV::C(*c),
            CTV::T(t) => CTV::T(*t),
            CTV::V(v) => CTV::V(v.clone()),
        }
    }
}

impl CTV {
    pub fn is_constant(&self) -> (r: bool)
        ensures
            r == self@ is C,
    {
        match self {
            CTV::C(_) => true,
            _ => false,
        }
    }

    pub fn is_temp(&self) -> (r: bool)
        ensures
            r == self@ is T,
    {
        match self {
            CTV::T(_) => true,
            _ => false,
        }
    }

    pub fn is_variable(&self) -> (r: bool)
        ensures
            r == self@ is V,
    {
        match self {
            CTV::V(_) => true,
            _ => false,
        }
    }
}

/// An operand position that takes a temp or a variable: a destination.
#[derive(Debug)]
pub enum TV {
    T(Temp),
    V(Variable),
}

/// The mathematical form of a destination operand.
pub ghost enum TvV {
    T(int),
    V(VarV),
}

impl View for TV {
    type V = TvV;

    open spec fn view(&self) -> TvV {
        match self {
            TV::T(t) => TvV::T(t@),
            TV::V(v) => TvV::V(v@),
        }
    }
}

impl Clone for TV {
    /// An exact copy.
    fn clone(&self) -> (r: Self)
        ensures
            r@ == self@,
    {
        match self {
            TV::T(t) => TV::T(*t),
            TV::V(v) => TV::V(v.clone()),
        }
    }
}

#[derive(Debug, Copy, Clone, PartialEq, Eq, Structural)]
pub enum ArithmeticOperator {
    Addition,
    Subtraction,
    Multiplication,
    Division,
}

#[derive(Debug, Copy, Clone, PartialEq, Eq, Structural)]
pub enum JumpIfCondition {
    Less,
    LessOrEqual,
    Equal,
    NotEqual,
    Greater,
    GreaterOrEqual,
}

/// What one instruction does.
#[derive(Debug)]
pub enum InstructionKind {
    Arithmetic { operator: ArithmeticOperator, left: CTV, right: CTV, result: TV },
    Affectation { value: CTV, result: TV },
    Allocation { variable: Option<Variable>, size: Constant },
    ReadFunction { result: TV },
    WriteFunction { value: CTV },
    FunctionCall { function: Label, result: TV },
    FunctionBegin,
    FunctionEnd,
    FunctionPushArg { arg: CTV },
    FunctionReturn { value: CTV },
    Jump { label: Label },
    JumpIf { condition: JumpIfCondition, left: CTV, right: CTV, label: Label },
    NOP,
}

/// The mathematical form of an instruction kind.
pub ghost enum KindIV {
    Arithmetic { operator: ArithmeticOperator, left: CtvV, right: CtvV, result: TvV },
    Affectation { value: CtvV, result: TvV },
    Allocation { variable: Option<VarV>, size: int },
    ReadFunction { result: TvV },
    WriteFunction { value: CtvV },
    FunctionCall { function: Seq<char>, result: TvV },
    FunctionBegin,
    FunctionEnd,
    FunctionPushArg { arg: CtvV },
    FunctionReturn { value: CtvV },
    Jump { label: Seq<char> },
    JumpIf { condition: JumpIfCondition, left: CtvV, right: CtvV, label: Seq<char> },
    NOP,
}

impl View for InstructionKind {
    type V = KindIV;

    open spec fn view(&self) -> KindIV {
        match self {
            InstructionKind::Arithmetic { operator, left, right, result } => KindIV::Arithmetic {
                operator: *operator,
                left: left@,
                right: right@,
                result: result@,
            },
            InstructionKind::Affectation { value, result } => KindIV::Affectation {
                value: value@,
                result: result@,
            },
            InstructionKind::Allocation { variable, size } => KindIV::Allocation {
                variable: match variable {
                    Some(v) => Some(v@),
                    None => None,
                },
                size: size@,
            },
            InstructionKind::ReadFunction { result } => KindIV::ReadFunction { result: result@ },
            InstructionKind::WriteFunction { value } => KindIV::WriteFunction { value: value@ },
            InstructionKind::FunctionCall { function, result } => KindIV::FunctionCall {
                function: function@,
                result: result@,
            },
            InstructionKind::FunctionBegin => KindIV::FunctionBegin,
            InstructionKind::FunctionEnd => KindIV::FunctionEnd,
            InstructionKind::FunctionPushArg { arg } => KindIV::FunctionPushArg { arg: arg@ },
            InstructionKind::FunctionReturn { value } => KindIV::FunctionReturn { value: value@ },
            InstructionKind::Jump { label } => KindIV::Jump { label: label@ },
            InstructionKind::JumpIf { condition, left, right, label } => KindIV::JumpIf {
                condition: *condition,
                left: left@,
                right: right@,
                label: label@,
            },
            InstructionKind::NOP => KindIV::NOP,
        }
    }
}

/// One instruction: an optional label, what it does, an optional comment.
#[derive(Debug)]
pub struct Instruction {
    pub label: Option<Label>,
    pub kind: InstructionKind,
    pub comment: Option<String>,
}

/// The mathematical form of an instruction.
pub ghost struct InstrV {
    pub label: Option<Seq<char>>,
    pub kind: KindIV,
    pub comment: Option<Seq<char>>,
}

impl View for Instruction {
    type V = InstrV;

    open spec fn view(&self) -> InstrV {
        InstrV {
            label: match &self.label {
                Some(l) => Some(l@),
                None => None,
            },
            kind: self.kind@,
            comment: match &self.comment {
                Some(c) => Some(c@),
                None => None,
            },
        }
    }
}

/// The sequence of instruction views of a vector of instructions.
pub open spec fn instrs_view(s: Seq<Instruction>) -> Seq<InstrV> {
    s.map_values(|x: Instruction| x@)
}

/// The generated code: the instructions and, for each temp identity, the
/// index of the last instruction that reads it, `-1` when none does.
#[derive(Debug)]
pub struct ThreeAddressCode {
    pub instructions: Vec<Instruction>,
    pub last_uses: Vec<i32>,
}

/// The mathematical form of the generated code.
pub ghost struct TacV {
    pub instrs: Seq<InstrV>,
    pub last_uses: Seq<int>,
}

impl View for ThreeAddressCode {
    type V = TacV;

    open spec fn view(&self) -> TacV {
        TacV {
            instrs: instrs_view(self.instructions@),
            last_uses: self.last_uses@.map_values(|x: i32| x as int),
        }
    }
}

impl ThreeAddressCode {
    /// The recorded last use of a temp: the index of the last instruction
    /// reading it, `-1` when no instruction does.
    pub fn last_use(&self, t: &Temp) -> (r: i32)
        requires
            0 <= t@ < self@.last_uses.len(),
        ensures
            r as int == self@.last_uses[t@],
    {
        self.last_uses[t.temp() as usize]
    }
}

} // verus!
