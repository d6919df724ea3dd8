//! The textual form of the three-address code: one line per instruction,
//! with a four-digit index, the label padded to eight columns, the body
//! padded to fifty, and the comment behind a semicolon.

use vstd::prelude::*;
use vstd::string::StringExecFns;
use crate::text::dec_digits;
use crate::text::int_digits;
use crate::text::i64_to_string;
use crate::text::u64_to_string;
use crate::three_address_code::ArithmeticOperator;
use crate::three_address_code::CT;
use crate::three_address_code::CTV;
use crate::three_address_code::CtV;
use crate::three_address_code::CtvV;
use crate::three_address_code::Instruction;
use crate::three_address_code::InstructionKind;
use crate::three_address_code::InstrV;
use crate::three_address_code::JumpIfCondition;
use crate::three_address_code::KindIV;
use crate::three_address_code::TV;
use crate::three_address_code::ThreeAddressCode;
use crate::three_address_code::TvV;
use crate::three_address_code::VarV;
use crate::three_address_code::Variable;

verus! {

/// A run of spaces.
pub open spec fn spaces(n: int) -> Seq<char> {
    Seq::new(if n >= 0 {
        n as nat
    } else {
        0
    }, |i: int| ' ')
}

/// A text padded on the right with spaces to `w` characters; a longer text
/// is unchanged.
pub open spec fn pad_right(s: Seq<char>, w: int) -> Seq<char> {
    if s.len() >= w {
        s
    } else {
        s + spaces(w - s.len())
    }
}

/// A text padded on the left with zeros to four characters.
pub open spec fn zero_pad4(s: Seq<char>) -> Seq<char> {
    if s.len() >= 4 {
        s
    } else {
        Seq::new((4 - s.len()) as nat, |i: int| '0') + s
    }
}

/// Relies on the width specifier of std's formatter: pads on the right
/// with spaces to `w` characters; a longer string is unchanged.
#[verifier::external_body]
fn pad_spaces(s: &str, w: usize) -> (r: String)
    ensures
        r@ == pad_right(s@, w as int),
{
    format!("{:1$}", s, w)
}

/// Relies on std's zero-padding width specifier: the number in decimal,
/// padded on the left with zeros to at least four digits.
#[verifier::external_body]
fn dec4(n: u64) -> (r: String)
    ensures
        r@ == zero_pad4(dec_digits(n as nat)),
{
    format!("{:04}", n)
}

/// The printed form of a temp.
pub open spec fn temp_text(t: int) -> Seq<char> {
    "t"@ + dec_digits(t as nat)
}

/// The printed form of a constant-or-temp operand.
pub open spec fn ct_text(o: CtV) -> Seq<char> {
    match o {
        CtV::C(c) => int_digits(c),
        CtV::T(t) => temp_text(t),
    }
}

/// The printed form of a variable operand: its name, then the index in
/// brackets when it has one.
pub open spec fn variable_text(v: VarV) -> Seq<char> {
    match v.indice {
        Some(ct) => v.id + "["@ + ct_text(ct) + "]"@,
        None => v.id,
    }
}

/// The printed form of a general operand.
pub open spec fn ctv_text(o: CtvV) -> Seq<char> {
    match o {
        CtvV::C(c) => int_digits(c),
        CtvV::T(t) => temp_text(t),
        CtvV::V(v) => variable_text(v),
    }
}

/// The printed form of a destination operand.
pub open spec fn tv_text(o: TvV) -> Seq<char> {
    match o {
        TvV::T(t) => temp_text(t),
        TvV::V(v) => variable_text(v),
    }
}

/// The printed form of an arithmetic operator, with its spaces.
pub open spec fn arith_text(o: ArithmeticOperator) -> Seq<char> {
    match o {
        ArithmeticOperator::Addition => " + "@,
        ArithmeticOperator::Subtraction => " - "@,
        ArithmeticOperator::Multiplication => " * "@,
        ArithmeticOperator::Division => " / "@,
    }
}

/// The printed form of a jump condition, with its spaces.
pub open spec fn cond_text(c: JumpIfCondition) -> Seq<char> {
    match c {
        JumpIfCondition::Less => " < "@,
        JumpIfCondition::LessOrEqual => " <= "@,
        JumpIfCondition::Equal => " == "@,
        JumpIfCondition::NotEqual => " != "@,
        JumpIfCondition::Greater => " > "@,
        JumpIfCondition::GreaterOrEqual => " >= "@,
    }
}

/// The printed body of one instruction.
pub open spec fn kind_text(k: KindIV) -> Seq<char> {
    match k {
        KindIV::Arithmetic { operator, left, right, result } => tv_text(result) + " = "@
            + ctv_text(left) + arith_text(operator) + ctv_text(right),
        KindIV::Affectation { value, result } => tv_text(result) + " = "@ + ctv_text(value),
        KindIV::Allocation { variable, size } => {
            let head = "alloc "@ + int_digits(size);
            match variable {
                Some(v) => head + " "@ + variable_text(v),
                None => head,
            }
        },
        KindIV::ReadFunction { result } => tv_text(result) + " = read"@,
        KindIV::WriteFunction { value } => "write "@ + ctv_text(value),
        KindIV::FunctionCall { function, result } => tv_text(result) + " = "@ + function,
        KindIV::FunctionBegin => "fbegin"@,
        KindIV::FunctionEnd => "fend"@,
        KindIV::FunctionPushArg { arg } => "param "@ + ctv_text(arg),
        KindIV::FunctionReturn { value } => "ret "@ + ctv_text(value),
        KindIV::Jump { label } => "goto "@ + label,
        KindIV::JumpIf { condition, left, right, label } => "if "@ + ctv_text(left) + cond_text(
            condition,
        ) + ctv_text(right) + " goto "@ + label,
        KindIV::NOP => Seq::empty(),
    }
}

/// One full line: the four-digit index, the label field, the padded body,
/// and the comment when there is one.
pub open spec fn instr_line(ins: InstrV, idx: int) -> Seq<char> {
    let label_part = match ins.label {
        Some(l) => " >"@ + pad_right(l, 8),
        None => spaces(10),
    };
    let comment_part = match ins.comment {
        Some(c) => "; "@ + c,
        None => Seq::empty(),
    };
    zero_pad4(dec_digits(idx as nat)) + label_part + " : "@ + pad_right(kind_text(ins.kind), 50)
        + comment_part + "\n"@
}

/// The lines for the instructions from position `i` on.
pub open spec fn tac_lines(instrs: Seq<InstrV>, i: int) -> Seq<char>
    decreases instrs.len() - i,
{
    if i < 0 || i >= instrs.len() {
        Seq::empty()
    } else {
        instr_line(instrs[i], i) + tac_lines(instrs, i + 1)
    }
}

/// The whole listing.
pub open spec fn tac_text(instrs: Seq<InstrV>) -> Seq<char> {
    tac_lines(instrs, 0)
}

/// Renders a general operand.
fn ctv_string(o: &CTV) -> (r: String)
    ensures
        r@ == ctv_text(o@),
{
    match o {
        CTV::C(c) => i64_to_string(c.constant() as i64),
        CTV::T(t) => {
            let mut s = "t".to_owned();
            s.append(u64_to_string(t.temp() as u64).as_str());
            s
        },
        CTV::V(v) => variable_string(v),
    }
}

/// Renders a destination operand.
fn tv_string(o: &TV) -> (r: String)
    ensures
        r@ == tv_text(o@),
{
    match o {
        TV::T(t) => {
            let mut s = "t".to_owned();
            s.append(u64_to_string(t.temp() as u64).as_str());
            s
        },
        TV::V(v) => variable_string(v),
    }
}

/// Renders a variable operand.
fn variable_string(v: &Variable) -> (r: String)
    ensures
        r@ == variable_text(v@),
{
    let mut s = v.id.clone();
    match &v.indice {
        Some(ct) => {
            s.append("[");
            match ct {
                CT::C(c) => s.append(i64_to_string(c.constant() as i64).as_str()),
                CT::T(t) => {
                    s.append("t");
                    s.append(u64_to_string(t.temp() as u64).as_str());
                },
            }
            s.append("]");
        },
        None => {},
    }
    s
}

/// Renders the body of one instruction.
fn kind_string(k: &InstructionKind) -> (r: String)
    ensures
        r@ == kind_text(k@),
{
    match k {
        InstructionKind::Arithmetic { operator, left, right, result } => {
            let mut s = tv_string(result);
            s.append(" = ");
            s.append(ctv_string(left).as_str());
            s.append(
                match operator {
                    ArithmeticOperator::Addition => " + ",
                    ArithmeticOperator::Subtraction => " - ",
                    ArithmeticOperator::Multiplication => " * ",
                    ArithmeticOperator::Division => " / ",
                },
            );
            s.append(ctv_string(right).as_str());
            s
        },
        InstructionKind::Affectation { value, result } => {
            let mut s = tv_string(result);
            s.append(" = ");
            s.append(ctv_string(value).as_str());
            s
        },
        InstructionKind::Allocation { variable, size } => {
            let mut s = "alloc ".to_owned();
            s.append(i64_to_string(size.constant() as i64).as_str());
            match variable {
                Some(v) => {
                    s.append(" ");
                    s.append(variable_string(v).as_str());
                },
                None => {},
            }
            s
        },
        InstructionKind::ReadFunction { result } => {
            let mut s = tv_string(result);
            s.append(" = read");
            s
        },
        InstructionKind::WriteFunction { value } => {
            let mut s = "write ".to_owned();
            s.append(ctv_string(value).as_str());
            s
        },
        InstructionKind::FunctionCall { function, result } => {
            let mut s = tv_string(result);
            s.append(" = ");
            s.append(function.label().as_str());
            s
        },
        InstructionKind::FunctionBegin => "fbegin".to_owned(),
        InstructionKind::FunctionEnd => "fend".to_owned(),
        InstructionKind::FunctionPushArg { arg } => {
            let mut s = "param ".to_owned();
            s.append(ctv_string(arg).as_str());
            s
        },
        InstructionKind::FunctionReturn { value } => {
            let mut s = "ret ".to_owned();
            s.append(ctv_string(value).as_str());
            s
        },
        InstructionKind::Jump { label } => {
            let mut s = "goto ".to_owned();
            s.append(label.label().as_str());
            s
        },
        InstructionKind::JumpIf { condition, left, right, label } => {
            let mut s = "if ".to_owned();
            s.append(ctv_string(left).as_str());
            s.append(
                match condition {
                    JumpIfCondition::Less => " < ",
                    JumpIfCondition::LessOrEqual => " <= ",
                    JumpIfCondition::Equal => " == ",
                    JumpIfCondition::NotEqual => " != ",
                    JumpIfCondition::Greater => " > ",
                    JumpIfCondition::GreaterOrEqual => " >= ",
                },
            );
            s.append(ctv_string(right).as_str());
            s.append(" goto ");
            s.append(label.label().as_str());
            s
        },
        InstructionKind::NOP => {
            let s = String::new();
            proof {
                assert(s@ =~= kind_text(k@));
            }
            s
        },
    }
}

/// Renders one full line.
fn instr_line_string(ins: &Instruction, idx: usize) -> (r: String)
    ensures
        r@ == instr_line(ins@, idx as int),
{
    let mut s = dec4(idx as u64);
    match &ins.label {
        Some(l) => {
            s.append(" >");
            s.append(pad_spaces(l.label().as_str(), 8).as_str());
        },
        None => {
            s.append("          ");
            proof {
                reveal_strlit("          ");
                assert("          "@ =~= spaces(10));
            }
        },
    }
    s.append(" : ");
    s.append(pad_spaces(kind_string(&ins.kind).as_str(), 50).as_str());
    match &ins.comment {
        Some(c) => {
            s.append("; ");
            s.append(c.as_str());
        },
        None => {},
    }
    s.append("\n");
    proof {
        assert(s@ =~= instr_line(ins@, idx as int));
    }
    s
}

impl ThreeAddressCode {
    /// Renders the whole listing, one line per instruction.
    pub fn three_a(&self) -> (r: String)
        ensures
            r@ == tac_text(self@.instrs),
    {
        let mut out = String::new();
        let n = self.instructions.len();
        let mut i: usize = 0;
        while i < n
            invariant
                i <= n,
                n == self@.instrs.len(),
                n == self.instructions@.len(),
                out@ + tac_lines(self@.instrs, i as int) == tac_text(self@.instrs),
            decreases n - i,
        {
            proof {
                assert(self@.instrs[i as int] == self.instructions@[i as int]@);
            }
            let line = instr_line_string(&self.instructions[i], i);
            out.append(line.as_str());
            proof {
                assert(out@ + tac_lines(self@.instrs, i + 1int) =~= tac_text(self@.instrs));
            }
            i = i + 1;
        }
        proof {
            assert(out@ + tac_lines(self@.instrs, n as int) =~= out@);
        }
        out
    }
}

} // verus!
