use vstd::prelude::*;

use crate::name_map::compare_strings;
use crate::text::{collect_chars, decimal_value, is_digit};

verus! {

/// The 64-bit general-purpose registers of x86-64.
#[derive(Clone, Copy, Debug, PartialEq, Eq, Structural)]
pub enum Reg64 {
    RAX,
    RBX,
    RCX,
    RDX,
    RSI,
    RDI,
    RBP,
    RSP,
    R8,
    R9,
    R10,
    R11,
    R12,
    R13,
    R14,
    R15,
}

/// The register named by AT&T text such as `%rax`.
pub open spec fn reg_of_at(s: Seq<char>) -> Option<Reg64> {
    if s == "%rax"@ {
        Some(Reg64::RAX)
    } else if s == "%rbx"@ {
        Some(Reg64::RBX)
    } else if s == "%rcx"@ {
        Some(Reg64::RCX)
    } else if s == "%rdx"@ {
        Some(Reg64::RDX)
    } else if s == "%rsi"@ {
        Some(Reg64::RSI)
    } else if s == "%rdi"@ {
        Some(Reg64::RDI)
    } else if s == "%rbp"@ {
        Some(Reg64::RBP)
    } else if s == "%rsp"@ {
        Some(Reg64::RSP)
    } else if s == "%r8"@ {
        Some(Reg64::R8)
    } else if s == "%r9"@ {
        Some(Reg64::R9)
    } else if s == "%r10"@ {
        Some(Reg64::R10)
    } else if s == "%r11"@ {
        Some(Reg64::R11)
    } else if s == "%r12"@ {
        Some(Reg64::R12)
    } else if s == "%r13"@ {
        Some(Reg64::R13)
    } else if s == "%r14"@ {
        Some(Reg64::R14)
    } else if s == "%r15"@ {
        Some(Reg64::R15)
    } else {
        None
    }
}

/// The registers that carry the first six arguments of a call, in order.
pub open spec fn caller_reg(i: int) -> Reg64 {
    if i == 0 {
        Reg64::RDI
    } else if i == 1 {
        Reg64::RSI
    } else if i == 2 {
        Reg64::RDX
    } else if i == 3 {
        Reg64::RCX
    } else if i == 4 {
        Reg64::R8
    } else {
        Reg64::R9
    }
}

impl Reg64 {
    /// The register named by AT&T text such as `%rax`.
    pub fn from_at_str(s: &str) -> (r: Option<Reg64>)
        ensures
            r == reg_of_at(s@),
    {
        if compare_strings(s, "%rax") == 0 {
            Some(Reg64::RAX)
        } else if compare_strings(s, "%rbx") == 0 {
            Some(Reg64::RBX)
        } else if compare_strings(s, "%rcx") == 0 {
            Some(Reg64::RCX)
        } else if compare_strings(s, "%rdx") == 0 {
            Some(Reg64::RDX)
        } else if compare_strings(s, "%rsi") == 0 {
            Some(Reg64::RSI)
        } else if compare_strings(s, "%rdi") == 0 {
            Some(Reg64::RDI)
        } else if compare_strings(s, "%rbp") == 0 {
            Some(Reg64::RBP)
        } else if compare_strings(s, "%rsp") == 0 {
            Some(Reg64::RSP)
        } else if compare_strings(s, "%r8") == 0 {
            Some(Reg64::R8)
        } else if compare_strings(s, "%r9") == 0 {
            Some(Reg64::R9)
        } else if compare_strings(s, "%r10") == 0 {
            Some(Reg64::R10)
        } else if compare_strings(s, "%r11") == 0 {
            Some(Reg64::R11)
        } else if compare_strings(s, "%r12") == 0 {
            Some(Reg64::R12)
        } else if compare_strings(s, "%r13") == 0 {
            Some(Reg64::R13)
        } else if compare_strings(s, "%r14") == 0 {
            Some(Reg64::R14)
        } else if compare_strings(s, "%r15") == 0 {
            Some(Reg64::R15)
        } else {
            None
        }
    }

    /// The register of the `idx`-th argument of a call (of the first six).
    pub fn caller_reg64(idx: usize) -> (r: Reg64)
        requires
            idx < 6,
        ensures
            r == caller_reg(idx as int),
    {
        if idx == 0 {
            Reg64::RDI
        } else if idx == 1 {
            Reg64::RSI
        } else if idx == 2 {
            Reg64::RDX
        } else if idx == 3 {
            Reg64::RCX
        } else if idx == 4 {
            Reg64::R8
        } else {
            Reg64::R9
        }
    }
}

/// An x86-64 instruction (or label or comment) of the generated assembly.
#[derive(Debug, PartialEq, Eq)]
pub enum Instruction {
    PushInt64(i64),
    PushUint64(u64),
    PushReg64(Reg64),
    PopReg64(Reg64),
    /// Loads into `dst` the word `disp` bytes below the address in `base`.
    MovMemToReg64 { base: Reg64, disp: i64, dst: Reg64 },
    /// Stores `src` at the word `offset` bytes below the address in `base`.
    MovRegToMem64 { src: Reg64, base: Reg64, offset: usize },
    MovRegToReg64 { src: Reg64, dst: Reg64 },
    MovImmToReg64 { imm: i64, dst: Reg64 },
    SubRegByUint64 { amount: u64, dst: Reg64 },
    AddRegToReg64 { src: Reg64, dst: Reg64 },
    SubRegToReg64 { src: Reg64, dst: Reg64 },
    ImulRegToReg64 { src: Reg64, dst: Reg64 },
    Cltd,
    IdivReg64(Reg64),
    NegReg64(Reg64),
    IncReg64(Reg64),
    CmpRegAndReg64 { lhs: Reg64, rhs: Reg64 },
    CmpRegAndInt64 { imm: i64, reg: Reg64 },
    JumpEqualLabel(String),
    JumpLabel(String),
    Label(String),
    Call(String),
    Ret,
    Comment(String),
    /// Loads the address of a string's label, relative to `%rip`.
    LeaStringAddrToRegWithRip { label: String, dst: Reg64 },
    Syscall,
}

/// The value of an instruction: its texts taken as their characters.
pub enum InstV {
    PushInt64(i64),
    PushUint64(u64),
    PushReg64(Reg64),
    PopReg64(Reg64),
    MovMemToReg64(Reg64, i64, Reg64),
    MovRegToMem64(Reg64, Reg64, usize),
    MovRegToReg64(Reg64, Reg64),
    MovImmToReg64(i64, Reg64),
    SubRegByUint64(u64, Reg64),
    AddRegToReg64(Reg64, Reg64),
    SubRegToReg64(Reg64, Reg64),
    ImulRegToReg64(Reg64, Reg64),
    Cltd,
    IdivReg64(Reg64),
    NegReg64(Reg64),
    IncReg64(Reg64),
    CmpRegAndReg64(Reg64, Reg64),
    CmpRegAndInt64(i64, Reg64),
    JumpEqualLabel(Seq<char>),
    JumpLabel(Seq<char>),
    Label(Seq<char>),
    Call(Seq<char>),
    Ret,
    Comment(Seq<char>),
    LeaStringAddrToRegWithRip(Seq<char>, Reg64),
    Syscall,
}

impl View for Instruction {
    type V = InstV;

    open spec fn view(&self) -> InstV {
        match self {
            Instruction::PushInt64(v) => InstV::PushInt64(*v),
            Instruction::PushUint64(v) => InstV::PushUint64(*v),
            Instruction::PushReg64(r) => InstV::PushReg64(*r),
            Instruction::PopReg64(r) => InstV::PopReg64(*r),
            Instruction::MovMemToReg64 { base, disp, dst } => InstV::MovMemToReg64(*base, *disp, *dst),
            Instruction::MovRegToMem64 { src, base, offset } => InstV::MovRegToMem64(*src, *base, *offset),
            Instruction::MovRegToReg64 { src, dst } => InstV::MovRegToReg64(*src, *dst),
            Instruction::MovImmToReg64 { imm, dst } => InstV::MovImmToReg64(*imm, *dst),
            Instruction::SubRegByUint64 { amount, dst } => InstV::SubRegByUint64(*amount, *dst),
            Instruction::AddRegToReg64 { src, dst } => InstV::AddRegToReg64(*src, *dst),
            Instruction::SubRegToReg64 { src, dst } => InstV::SubRegToReg64(*src, *dst),
            Instruction::ImulRegToReg64 { src, dst } => InstV::ImulRegToReg64(*src, *dst),
            Instruction::Cltd => InstV::Cltd,
            Instruction::IdivReg64(r) => InstV::IdivReg64(*r),
            Instruction::NegReg64(r) => InstV::NegReg64(*r),
            Instruction::IncReg64(r) => InstV::IncReg64(*r),
            Instruction::CmpRegAndReg64 { lhs, rhs } => InstV::CmpRegAndReg64(*lhs, *rhs),
            Instruction::CmpRegAndInt64 { imm, reg } => InstV::CmpRegAndInt64(*imm, *reg),
            Instruction::JumpEqualLabel(l) => InstV::JumpEqualLabel(l@),
            Instruction::JumpLabel(l) => InstV::JumpLabel(l@),
            Instruction::Label(l) => InstV::Label(l@),
            Instruction::Call(n) => InstV::Call(n@),
            Instruction::Ret => InstV::Ret,
            Instruction::Comment(c) => InstV::Comment(c@),
            Instruction::LeaStringAddrToRegWithRip { label, dst } => InstV::LeaStringAddrToRegWithRip(label@, *dst),
            Instruction::Syscall => InstV::Syscall,
        }
    }
}

/// The values of a list of instructions.
pub open spec fn insts_v(s: Seq<Instruction>) -> Seq<InstV> {
    s.map_values(|i: Instruction| i@)
}

/// A symbol of the assembly: a function's name, its instructions, and the string
/// literals it uses with their hashes.
pub struct Symbol {
    pub name: String,
    pub insts: Vec<Instruction>,
    pub strings: Vec<(String, u64)>,
}

/// The assembly generated for a program.
pub struct AssemblyFile {
    pub file_path: String,
    pub symbols: Vec<Symbol>,
}

impl AssemblyFile {
    pub fn new(file_path: String) -> (a: Self)
        ensures
            a.file_path == file_path,
            a.symbols@.len() == 0,
    {
        AssemblyFile { file_path, symbols: Vec::new() }
    }

    pub fn symbols_number(&self) -> (n: usize)
        ensures
            n == self.symbols@.len(),
    {
        self.symbols.len()
    }

    /// Adds a symbol at the end.
    pub fn add_symbol(&mut self, sym: Symbol)
        ensures
            final(self).symbols@ == old(self).symbols@.push(sym),
            final(self).file_path == old(self).file_path,
    {
        self.symbols.push(sym);
    }

    /// Appends an instruction to the `idx`-th symbol.
    pub fn add_inst_to_sym(&mut self, idx: usize, inst: Instruction)
        requires
            idx < old(self).symbols@.len(),
        ensures
            final(self).file_path == old(self).file_path,
            final(self).symbols@.len() == old(self).symbols@.len(),
            forall|j: int| 0 <= j < old(self).symbols@.len() && j != idx ==> #[trigger] final(self).symbols@[j]
                == old(self).symbols@[j],
            final(self).symbols@[idx as int].name == old(self).symbols@[idx as int].name,
            final(self).symbols@[idx as int].strings == old(self).symbols@[idx as int].strings,
            final(self).symbols@[idx as int].insts@ == old(self).symbols@[idx as int].insts@.push(inst),
    {
        let mut sym = self.symbols.remove(idx);
        sym.insts.push(inst);
        self.symbols.insert(idx, sym);
    }

    /// Records a string literal and its hash in the `idx`-th symbol.
    pub fn add_string_to_sym(&mut self, idx: usize, contents: String, hash: u64)
        requires
            idx < old(self).symbols@.len(),
        ensures
            final(self).file_path == old(self).file_path,
            final(self).symbols@.len() == old(self).symbols@.len(),
            forall|j: int| 0 <= j < old(self).symbols@.len() && j != idx ==> #[trigger] final(self).symbols@[j]
                == old(self).symbols@[j],
            final(self).symbols@[idx as int].name == old(self).symbols@[idx as int].name,
            final(self).symbols@[idx as int].insts == old(self).symbols@[idx as int].insts,
            final(self).symbols@[idx as int].strings@ == old(self).symbols@[idx as int].strings@.push((contents, hash)),
    {
        let mut sym = self.symbols.remove(idx);
        sym.strings.push((contents, hash));
        self.symbols.insert(idx, sym);
    }
}

/// The parts of a text split at each space (two spaces in a row make an empty part).
pub open spec fn split_spaces(s: Seq<char>) -> Seq<Seq<char>> {
    split_from(s, 0, Seq::empty(), Seq::empty())
}

/// Splitting the rest of `s` from `i`, with the parts done so far and the part begun.
pub open spec fn split_from(s: Seq<char>, i: int, parts: Seq<Seq<char>>, cur: Seq<char>) -> Seq<Seq<char>>
    decreases s.len() - i,
{
    if i >= s.len() {
        parts.push(cur)
    } else if s[i] == ' ' {
        split_from(s, i + 1, parts.push(cur), Seq::empty())
    } else {
        split_from(s, i + 1, parts, cur.push(s[i]))
    }
}

/// Splits a text at each space.
pub fn split_at_spaces(s: &str) -> (parts: Vec<Vec<char>>)
    ensures
        parts@.map_values(|p: Vec<char>| p@) == split_spaces(s@),
{
    let cs = collect_chars(s);
    let mut parts: Vec<Vec<char>> = Vec::new();
    let mut cur: Vec<char> = Vec::new();
    let mut i: usize = 0;
    proof {
        assert(parts@.map_values(|p: Vec<char>| p@) =~= Seq::<Seq<char>>::empty());
        assert(cur@ =~= Seq::<char>::empty());
    }
    while i < cs.len()
        invariant
            i <= cs.len(),
            cs@ == s@,
            split_from(s@, i as int, parts@.map_values(|p: Vec<char>| p@), cur@) == split_spaces(s@),
        decreases cs.len() - i,
    {
        if cs[i] == ' ' {
            let done = cur;
            let ghost before = parts@;
            parts.push(done);
            proof {
                assert(parts@.map_values(|p: Vec<char>| p@) =~= before.map_values(|p: Vec<char>| p@).push(done@));
            }
            cur = Vec::new();
            proof { assert(cur@ =~= Seq::<char>::empty()); }
        } else {
            cur.push(cs[i]);
        }
        i = i + 1;
    }
    let ghost before = parts@;
    parts.push(cur);
    proof {
        assert(parts@.map_values(|p: Vec<char>| p@) =~= before.map_values(|p: Vec<char>| p@).push(cur@));
    }
    parts
}

/// The text holds only decimal digits, at least one.
pub open spec fn all_digits(s: Seq<char>) -> bool {
    s.len() >= 1 && forall|i: int| 0 <= i < s.len() ==> is_digit(#[trigger] s[i])
}

/// The `i64` that a text denotes as `str::parse::<i64>` reads it: an optional sign,
/// then decimal digits, within range.
pub open spec fn parse_i64_s(s: Seq<char>) -> Option<i64> {
    if s.len() > 0 && s[0] == '-' {
        let d = s.drop_first();
        if all_digits(d) && decimal_value(d) <= 0x8000_0000_0000_0000 {
            Some((-(decimal_value(d) as int)) as i64)
        } else {
            None
        }
    } else {
        let d = if s.len() > 0 && s[0] == '+' {
            s.drop_first()
        } else {
            s
        };
        if all_digits(d) && decimal_value(d) <= 0x7fff_ffff_ffff_ffff {
            Some(decimal_value(d) as i64)
        } else {
            None
        }
    }
}

proof fn lemma_decimal_prefix(s: Seq<char>, i: int)
    requires
        0 <= i <= s.len(),
        forall|k: int| 0 <= k < s.len() ==> is_digit(#[trigger] s[k]),
    ensures
        decimal_value(s.take(i)) <= decimal_value(s),
    decreases s.len() - i,
{
    if i < s.len() {
        lemma_decimal_prefix(s, i + 1);
        assert(s.take(i + 1).drop_last() =~= s.take(i));
    } else {
        assert(s.take(i) =~= s);
    }
}

/// The value of the digits `s`, where all are digits and the value is at most `limit`.
fn digits_value(s: &[char], limit: u64) -> (r: Option<u64>)
    requires
        limit >= 9,
    ensures
        match r {
            Some(v) => all_digits(s@) && decimal_value(s@) <= limit && v == decimal_value(s@),
            None => !(all_digits(s@) && decimal_value(s@) <= limit),
        },
{
    if s.len() == 0 {
        return None;
    }
    let mut v: u64 = 0;
    let mut i: usize = 0;
    while i < s.len()
        invariant
            i <= s.len(),
            forall|k: int| 0 <= k < i ==> is_digit(#[trigger] s@[k]),
            v == decimal_value(s@.take(i as int)),
            v <= limit,
            limit >= 9,
        decreases s.len() - i,
    {
        let c = s[i];
        if !('0' <= c && c <= '9') {
            return None;
        }
        let d = (c as u64) - ('0' as u64);
        assert(s@.take(i + 1).drop_last() =~= s@.take(i as int));
        if v > (limit - d) / 10 {
            proof {
                assert(v * 10 + d > limit) by (nonlinear_arith)
                    requires
                        v > (limit - d) / 10,
                        d <= 9,
                        d <= limit,
                ;
                assert forall|k: int| 0 <= k < i + 1 implies is_digit(#[trigger] s@.take(i + 1)[k]) by {}
                if forall|k: int| 0 <= k < s@.len() ==> is_digit(#[trigger] s@[k]) {
                    lemma_decimal_prefix(s@, i + 1);
                }
            }
            return None;
        }
        v = v * 10 + d;
        i = i + 1;
    }
    assert(s@.take(s.len() as int) =~= s@);
    Some(v)
}

/// Reads an `i64` as `str::parse::<i64>` does.
pub fn parse_i64(s: &[char]) -> (r: Option<i64>)
    ensures
        r == parse_i64_s(s@),
{
    if s.len() > 0 && s[0] == '-' {
        let d = vstd::slice::slice_subrange(s, 1, s.len());
        assert(d@ =~= s@.drop_first());
        match digits_value(d, 0x8000_0000_0000_0000) {
            Some(v) => if v == 0x8000_0000_0000_0000 {
                Some(i64::MIN)
            } else {
                Some(-(v as i64))
            },
            None => None,
        }
    } else {
        let d = if s.len() > 0 && s[0] == '+' {
            vstd::slice::slice_subrange(s, 1, s.len())
        } else {
            s
        };
        assert(s.len() > 0 && s@[0] == '+' ==> d@ =~= s@.drop_first());
        match digits_value(d, 0x7fff_ffff_ffff_ffff) {
            Some(v) => Some(v as i64),
            None => None,
        }
    }
}

} // verus!
