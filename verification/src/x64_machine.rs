use vstd::prelude::*;

use crate::ast::ExpressionNodeKind;
use crate::codegen::{bin_join, binop_ops, GenErrV};
use crate::x64::{InstV, Reg64};

verus! {

/// 2 to the 64th.
pub open spec fn two64() -> int {
    0x1_0000_0000_0000_0000
}

/// An integer reduced to a signed 64-bit value, as the 64-bit registers hold it.
pub open spec fn wrap64(x: int) -> int {
    let r = x % two64();
    if r >= 0x8000_0000_0000_0000 {
        r - two64()
    } else {
        r
    }
}

/// The low 32 bits of an integer, read as a signed 32-bit value.
pub open spec fn low32_signed(x: int) -> int {
    let r = x % 0x1_0000_0000;
    if r >= 0x8000_0000 {
        r - 0x1_0000_0000
    } else {
        r
    }
}

/// Division rounding toward zero.
pub open spec fn tdiv(x: int, y: int) -> int {
    if x >= 0 && y > 0 {
        x / y
    } else if x < 0 && y < 0 {
        (-x) / (-y)
    } else if x >= 0 {
        -(x / (-y))
    } else {
        -((-x) / y)
    }
}

/// What a 64-bit machine holds: its registers, each a signed 64-bit value, and
/// its stack of 64-bit values, whose top is the last.
pub struct Machine {
    pub regs: spec_fn(Reg64) -> int,
    pub stack: Seq<int>,
}

pub open spec fn set_reg(m: Machine, r: Reg64, v: int) -> Machine {
    Machine { regs: |x: Reg64| if x == r { v } else { (m.regs)(x) }, stack: m.stack }
}

/// One instruction of the stack and register arithmetic: pushes, pops, register
/// moves and the 64-bit `addq`, `subq`, `imulq` (the destination takes `dst op src`),
/// `cltd` (`%edx` takes the sign of `%eax`, which clears the upper half of `%rdx`) and
/// `idivq` (`%rdx:%rax` divided by the operand, toward zero: quotient to `%rax`,
/// remainder to `%rdx`). Any other instruction leaves this state as it is.
pub open spec fn step(i: InstV, m: Machine) -> Machine {
    match i {
        InstV::PushInt64(v) => Machine { regs: m.regs, stack: m.stack.push(v as int) },
        InstV::PushReg64(r) => Machine { regs: m.regs, stack: m.stack.push((m.regs)(r)) },
        InstV::PopReg64(r) => set_reg(Machine { regs: m.regs, stack: m.stack.drop_last() }, r, m.stack.last()),
        InstV::MovRegToReg64(s, d) => set_reg(m, d, (m.regs)(s)),
        InstV::AddRegToReg64(s, d) => set_reg(m, d, wrap64((m.regs)(d) + (m.regs)(s))),
        InstV::SubRegToReg64(s, d) => set_reg(m, d, wrap64((m.regs)(d) - (m.regs)(s))),
        InstV::ImulRegToReg64(s, d) => set_reg(m, d, wrap64((m.regs)(d) * (m.regs)(s))),
        InstV::Cltd => set_reg(
            m,
            Reg64::RDX,
            if low32_signed((m.regs)(Reg64::RAX)) < 0 { 0xffff_ffff } else { 0 },
        ),
        InstV::IdivReg64(s) => {
            let d = (m.regs)(Reg64::RDX) * two64() + (m.regs)(Reg64::RAX) % two64();
            let q = tdiv(d, (m.regs)(s));
            set_reg(set_reg(m, Reg64::RAX, q), Reg64::RDX, d - q * (m.regs)(s))
        },
        _ => m,
    }
}

/// Instructions run in order.
pub open spec fn run(code: Seq<InstV>, m: Machine) -> Machine
    decreases code.len(),
{
    if code.len() == 0 {
        m
    } else {
        run(code.drop_first(), step(code[0], m))
    }
}

/// Running two pieces of code is running the first, then the second.
pub proof fn lemma_run_append(a: Seq<InstV>, b: Seq<InstV>, m: Machine)
    ensures
        run(a + b, m) == run(b, run(a, m)),
    decreases a.len(),
{
    if a.len() == 0 {
        assert(a + b =~= b);
    } else {
        assert((a + b).drop_first() =~= a.drop_first() + b);
        lemma_run_append(a.drop_first(), b, step(a[0], m));
    }
}

/// The code of a binary arithmetic expression computes it: after the code of the
/// left and then the right operand, which leave `l` and `r` on top of the stack,
/// the code that follows pops them and leaves `l + r`, `l - r` or `l * r` (as a
/// 64-bit machine computes them) in their place; for `/`, with a left operand
/// from 0 up to 2^31 and a positive right one, it leaves the quotient `l / r`.
pub proof fn law_binary_code(
    k: ExpressionNodeKind,
    lc: Seq<InstV>,
    rc: Seq<InstV>,
    n: nat,
    m: Machine,
    s: Seq<int>,
    l: int,
    r: int,
)
    requires
        k is ADD || k is SUB || k is MUL || k is DIV,
        m.stack == s.push(l).push(r),
        -0x8000_0000_0000_0000 <= l < 0x8000_0000_0000_0000,
        -0x8000_0000_0000_0000 <= r < 0x8000_0000_0000_0000,
    ensures
        ({
            let code = bin_join(lc, Ok::<(Seq<InstV>, nat), GenErrV>((rc, n)), binop_ops(k));
            &&& code matches Ok((c, n2)) && n2 == n && c.subrange(0, (lc.len() + rc.len()) as int) == lc + rc
            &&& {
                let t = code->Ok_0.0.subrange((lc.len() + rc.len()) as int, code->Ok_0.0.len() as int);
                &&& k is ADD ==> run(t, m).stack == s.push(wrap64(l + r))
                &&& k is SUB ==> run(t, m).stack == s.push(wrap64(l - r))
                &&& k is MUL ==> run(t, m).stack == s.push(wrap64(l * r))
                &&& (k is DIV && 0 <= l < 0x8000_0000 && r > 0) ==> run(t, m).stack == s.push(l / r)
            }
        }),
{
    let ops = binop_ops(k);
    let t = seq![InstV::PopReg64(Reg64::RDI), InstV::PopReg64(Reg64::RAX)] + ops + seq![InstV::PushReg64(Reg64::RAX)];
    let c = lc + rc + t;
    assert(lc + rc + seq![InstV::PopReg64(Reg64::RDI), InstV::PopReg64(Reg64::RAX)] + ops + seq![InstV::PushReg64(Reg64::RAX)] =~= c);
    assert(bin_join(lc, Ok::<(Seq<InstV>, nat), GenErrV>((rc, n)), ops) == Ok::<(Seq<InstV>, nat), GenErrV>((c, n)));
    assert(c.subrange(0, (lc.len() + rc.len()) as int) =~= lc + rc);
    assert(c.subrange((lc.len() + rc.len()) as int, c.len() as int) =~= t);
    let pops = seq![InstV::PopReg64(Reg64::RDI), InstV::PopReg64(Reg64::RAX)];
    let push = seq![InstV::PushReg64(Reg64::RAX)];
    lemma_run_append(pops + ops, push, m);
    lemma_run_append(pops, ops, m);
    let m1 = step(InstV::PopReg64(Reg64::RDI), m);
    let m2 = step(InstV::PopReg64(Reg64::RAX), m1);
    assert(pops.drop_first().drop_first() =~= Seq::<InstV>::empty());
    assert(run(pops, m) == m2) by {
        reveal_with_fuel(run, 3);
    }
    assert(s.push(l).push(r).drop_last() =~= s.push(l));
    assert(s.push(l).drop_last() =~= s);
    assert(m2.stack =~= s);
    assert((m2.regs)(Reg64::RAX) == l);
    assert((m2.regs)(Reg64::RDI) == r);
    let m3 = run(ops, m2);
    assert(run(push, m3) == step(InstV::PushReg64(Reg64::RAX), m3)) by {
        reveal_with_fuel(run, 2);
    }
    if k is DIV {
        assert(ops == seq![InstV::Cltd, InstV::IdivReg64(Reg64::RDI)]);
        let m4 = step(InstV::Cltd, m2);
        assert(m3 == step(InstV::IdivReg64(Reg64::RDI), m4)) by {
            reveal_with_fuel(run, 3);
            assert(ops.drop_first().drop_first() =~= Seq::<InstV>::empty());
        }
        assert(m4.stack == s);
        if 0 <= l < 0x8000_0000 && r > 0 {
            assert(l % 0x1_0000_0000 == l);
            assert((m4.regs)(Reg64::RDX) == 0);
            assert((m4.regs)(Reg64::RAX) == l);
            assert((m4.regs)(Reg64::RDI) == r);
            assert(l % two64() == l);
            assert(0 * two64() == 0);
            assert((m3.regs)(Reg64::RAX) == l / r);
        }
    } else {
        assert(m3 == step(ops[0], m2)) by {
            reveal_with_fuel(run, 2);
            assert(ops.drop_first() =~= Seq::<InstV>::empty());
        }
    }
}

} // verus!
