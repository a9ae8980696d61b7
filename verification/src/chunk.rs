//! A compiled unit: instructions, each with the source line it came from, and constants.

use crate::opcode::{ConstIdx, op_comp, OpCode};
use vstd::prelude::*;
use vstd::string::*;

verus! {

/// A constant of a chunk: a number as it was written in the source, or a text (a string
/// literal, or the name of a global).
#[derive(Debug)]
pub enum Constant {
    Number(String),
    Text(String),
}

/// A `Constant` with its text as a sequence of characters.
pub enum ConstantView {
    Number(Seq<char>),
    Text(Seq<char>),
}

impl View for Constant {
    type V = ConstantView;

    open spec fn view(&self) -> ConstantView {
        match self {
            Constant::Number(s) => ConstantView::Number(s@),
            Constant::Text(s) => ConstantView::Text(s@),
        }
    }
}

impl DeepView for Constant {
    type V = ConstantView;

    open spec fn deep_view(&self) -> ConstantView {
        self@
    }
}

impl Clone for Constant {
    fn clone(&self) -> (copy: Self)
        ensures
            copy@ == self@,
    {
        match self {
            Constant::Number(s) => Constant::Number(s.clone()),
            Constant::Text(s) => Constant::Text(s.clone()),
        }
    }
}

/// How many of `text` are dots.
pub open spec fn dots(text: Seq<char>) -> int
    decreases text.len(),
{
    if text.len() == 0 {
        0
    } else {
        dots(text.drop_last()) + if text.last() == '.' {
            1int
        } else {
            0int
        }
    }
}

/// A decimal literal: a digit, then digits and at most one dot.
pub open spec fn is_number_literal(text: Seq<char>) -> bool {
    &&& text.len() > 0
    &&& '0' <= text[0] <= '9'
    &&& forall|i: int| 0 <= i < text.len() ==> ('0' <= #[trigger] text[i] <= '9') || text[i] == '.'
    &&& dots(text) <= 1
}

/// Whether an instruction can stand in a chunk of `count` instructions with the constants
/// `consts`: a constant it names exists, and is a text where it names a global, and a decimal
/// literal where it is a number; a jump leads to an instruction of the chunk.
pub open spec fn op_fits(op: OpCode, count: int, consts: Seq<ConstantView>) -> bool {
    match op {
        OpCode::CONSTANT(k) => k < consts.len() && (consts[k as int] matches ConstantView::Number(
            text,
        ) ==> is_number_literal(text)),
        OpCode::DEFINE_GLOBAL(k) | OpCode::GET_GLOBAL(k) | OpCode::SET_GLOBAL(k) => k
            < consts.len() && consts[k as int] is Text,
        OpCode::JUMP(addr) | OpCode::JUMP_IF_FALSE(addr) => addr < count,
        _ => true,
    }
}

/// Instructions that a machine can run from any of them without leaving them: each fits,
/// and the last one is `RETURN`.
pub open spec fn runnable(ops: Seq<OpCode>, consts: Seq<ConstantView>) -> bool {
    &&& ops.len() > 0
    &&& ops.last() == OpCode::RETURN
    &&& forall|i: int| 0 <= i < ops.len() ==> op_fits(#[trigger] ops[i], ops.len() as int, consts)
}

/// `RETURN` stands nowhere but at the end: no instruction but the last one is `RETURN`.
pub open spec fn returns_last(ops: Seq<OpCode>) -> bool {
    forall|i: int| 0 <= i < ops.len() - 1 ==> #[trigger] ops[i] != OpCode::RETURN
}

/// Instructions, each with the number of the source line it came from, and constants.
/// Once `RETURN` has been added the chunk is frozen.
#[derive(Debug)]
pub struct Chunk {
    code: Vec<(OpCode, usize)>,
    consts: Vec<Constant>,
    frozen: bool,
}

impl Chunk {
    /// The instructions.
    pub closed spec fn ops(&self) -> Seq<OpCode> {
        Seq::new(self.code@.len(), |i: int| self.code@[i].0)
    }

    /// The source line of each instruction.
    pub closed spec fn lines(&self) -> Seq<usize> {
        Seq::new(self.code@.len(), |i: int| self.code@[i].1)
    }

    /// The constants.
    pub closed spec fn consts(&self) -> Seq<ConstantView> {
        self.consts.deep_view()
    }

    /// Whether `RETURN` has been added.
    pub closed spec fn frozen(&self) -> bool {
        self.frozen
    }

    /// Whether a machine can run the chunk.
    pub open spec fn executable(&self) -> bool {
        runnable(self.ops(), self.consts())
    }

    /// Every instruction has its line: there are as many lines as instructions.
    pub proof fn lines_match_ops(&self)
        ensures
            self.ops().len() == self.lines().len(),
    {
    }

    pub fn new() -> (chunk: Self)
        ensures
            chunk.ops() == Seq::<OpCode>::empty(),
            chunk.lines() == Seq::<usize>::empty(),
            chunk.consts() == Seq::<ConstantView>::empty(),
            !chunk.frozen(),
    {
        let chunk = Chunk { code: Vec::new(), consts: Vec::new(), frozen: false };
        assert(chunk.ops() =~= Seq::<OpCode>::empty());
        assert(chunk.lines() =~= Seq::<usize>::empty());
        assert(chunk.consts() =~= Seq::<ConstantView>::empty());
        chunk
    }

    /// The number of instructions.
    pub fn count(&self) -> (n: usize)
        ensures
            n == self.ops().len(),
    {
        self.code.len()
    }

    /// The number of constants.
    pub fn const_count(&self) -> (n: usize)
        ensures
            n == self.consts().len(),
    {
        self.consts.len()
    }

    /// Whether `RETURN` has been added.
    pub fn is_frozen(&self) -> (yes: bool)
        ensures
            yes == self.frozen(),
    {
        self.frozen
    }

    /// Adds an instruction that came from source line `line`.
    ///
    /// The chunk has one instruction more, and one line more: the new instruction is the
    /// last one, with its line, and every instruction before it is what it was, with the line
    /// it had. The constants are what they were.
    pub fn add_op(&mut self, op: OpCode, line: usize)
        requires
            !old(self).frozen(),
        ensures
            final(self).ops() == old(self).ops().push(op),
            final(self).lines() == old(self).lines().push(line),
            final(self).consts() == old(self).consts(),
            final(self).frozen() == (op == OpCode::RETURN),
            final(self).ops().len() == old(self).ops().len() + 1,
            final(self).lines().len() == final(self).ops().len(),
            final(self).ops()[old(self).ops().len() as int] == op,
            final(self).lines()[old(self).ops().len() as int] == line,
            forall|i: int|
                0 <= i < old(self).ops().len() ==> final(self).ops()[i] == old(self).ops()[i]
                    && final(self).lines()[i] == old(self).lines()[i],
    {
        proof {
            old(self).lines_match_ops();
        }
        self.code.push((op, line));
        if op_comp(op, OpCode::RETURN) {
            self.frozen = true;
        }
        assert(self.ops() =~= old(self).ops().push(op));
        assert(self.lines() =~= old(self).lines().push(line));
    }

    /// Adds a constant and returns its index.
    pub fn add_const(&mut self, val: Constant) -> (idx: usize)
        requires
            !old(self).frozen(),
        ensures
            idx == old(self).consts().len(),
            final(self).consts() == old(self).consts().push(val@),
            final(self).ops() == old(self).ops(),
            final(self).lines() == old(self).lines(),
            final(self).frozen() == old(self).frozen(),
    {
        self.consts.push(val);
        assert(self.consts() =~= old(self).consts().push(val@));
        self.consts.len() - 1
    }

    /// The instruction at `ip`, if there is one.
    pub fn read_op(&self, ip: usize) -> (op: Option<&OpCode>)
        ensures
            ip < self.ops().len() ==> op == Some(&self.ops()[ip as int]),
            ip >= self.ops().len() ==> op is None,
    {
        if ip < self.code.len() {
            Some(&self.code[ip].0)
        } else {
            None
        }
    }

    /// The constant at `addr`.
    pub fn read_const(&self, addr: ConstIdx) -> (val: &Constant)
        requires
            addr < self.consts().len(),
        ensures
            val@ == self.consts()[addr as int],
    {
        &self.consts[addr as usize]
    }

    /// Puts `op` in the place of the instruction at `ip`, which is of the same kind.
    pub fn patch_op(&mut self, op: OpCode, ip: usize)
        requires
            !old(self).frozen(),
            ip < old(self).ops().len(),
            old(self).ops()[ip as int].kind() == op.kind(),
        ensures
            final(self).ops() == old(self).ops().update(ip as int, op),
            final(self).lines() == old(self).lines(),
            final(self).consts() == old(self).consts(),
            final(self).frozen() == old(self).frozen(),
    {
        let line = self.code[ip].1;
        self.code.set(ip, (op, line));
        assert(self.ops() =~= old(self).ops().update(ip as int, op));
        assert(self.lines() =~= old(self).lines());
    }

    /// Whether the instruction at `ip` is of the kind of `op`.
    pub fn ops_match(&self, op: OpCode, ip: usize) -> (same: bool)
        requires
            ip < self.ops().len(),
        ensures
            same == (self.ops()[ip as int].kind() == op.kind()),
    {
        let inner_op = self.code[ip].0;
        op_comp(op, inner_op)
    }

    /// Puts `op` in each of the places `ips`, which hold instructions of the same kind.
    pub fn patch_multip_op(&mut self, op: OpCode, ips: &[usize])
        requires
            !old(self).frozen(),
            forall|k: int|
                0 <= k < ips@.len() ==> (#[trigger] ips@[k]) < old(self).ops().len() && old(
                    self,
                ).ops()[ips@[k] as int].kind() == op.kind(),
        ensures
            final(self).ops() == patched(old(self).ops(), op, ips@, ips@.len() as int),
            final(self).lines() == old(self).lines(),
            final(self).consts() == old(self).consts(),
            final(self).frozen() == old(self).frozen(),
    {
        let mut k: usize = 0;
        while k < ips.len()
            invariant
                k <= ips@.len(),
                self.ops().len() == old(self).ops().len(),
                forall|j: int|
                    0 <= j < ips@.len() ==> (#[trigger] ips@[j]) < old(self).ops().len() && old(
                        self,
                    ).ops()[ips@[j] as int].kind() == op.kind(),
                forall|i: int|
                    0 <= i < self.ops().len() ==> (#[trigger] self.ops()[i]).kind() == old(
                        self,
                    ).ops()[i].kind(),
                self.ops() == patched(old(self).ops(), op, ips@, k as int),
                self.lines() == old(self).lines(),
                self.consts() == old(self).consts(),
                self.frozen() == old(self).frozen(),
                !old(self).frozen(),
            decreases ips@.len() - k,
        {
            self.patch_op(op, ips[k]);
            k = k + 1;
        }
    }

    /// The source line of the instruction at `num`.
    pub fn get_line_num(&self, num: usize) -> (line: usize)
        requires
            num < self.ops().len(),
        ensures
            line == self.lines()[num as int],
    {
        self.code[num].1
    }

    /// Whether a machine can run the chunk.
    pub fn is_executable(&self) -> (yes: bool)
        ensures
            yes == self.executable(),
    {
        let n = self.code.len();
        if n == 0 {
            return false;
        }
        if !op_comp(self.code[n - 1].0, OpCode::RETURN) {
            return false;
        }
        let mut i: usize = 0;
        while i < n
            invariant
                i <= n,
                n == self.ops().len(),
                forall|j: int|
                    0 <= j < i ==> op_fits(#[trigger] self.ops()[j], n as int, self.consts()),
            decreases n - i,
        {
            if !self.fits(self.code[i].0) {
                assert(!op_fits(self.ops()[i as int], n as int, self.consts()));
                return false;
            }
            i = i + 1;
        }
        true
    }

    /// Whether `op` can stand in this chunk.
    fn fits(&self, op: OpCode) -> (yes: bool)
        ensures
            yes == op_fits(op, self.ops().len() as int, self.consts()),
    {
        match op {
            OpCode::CONSTANT(k) => {
                if (k as usize) < self.consts.len() {
                    match &self.consts[k as usize] {
                        Constant::Number(text) => number_literal(text.as_str()),
                        Constant::Text(_) => true,
                    }
                } else {
                    false
                }
            },
            OpCode::DEFINE_GLOBAL(k) | OpCode::GET_GLOBAL(k) | OpCode::SET_GLOBAL(k) => {
                if (k as usize) < self.consts.len() {
                    match &self.consts[k as usize] {
                        Constant::Number(_) => false,
                        Constant::Text(_) => true,
                    }
                } else {
                    false
                }
            },
            OpCode::JUMP(addr) | OpCode::JUMP_IF_FALSE(addr) => (addr as usize) < self.code.len(),
            _ => true,
        }
    }
}

/// The instructions `ops` with `op` in the first `n` of the places `ips`.
pub open spec fn patched(ops: Seq<OpCode>, op: OpCode, ips: Seq<usize>, n: int) -> Seq<OpCode>
    decreases n,
{
    if n <= 0 {
        ops
    } else {
        patched(ops, op, ips, n - 1).update(ips[n - 1] as int, op)
    }
}

/// Whether `text` is a decimal literal.
pub fn number_literal(text: &str) -> (yes: bool)
    ensures
        yes == is_number_literal(text@),
{
    broadcast use vstd::string::group_string_axioms;

    if !text.is_ascii() {
        proof {
            if is_number_literal(text@) {
                assert forall|i: int| 0 <= i < text@.len() implies '\0' <= #[trigger] text@[i]
                    <= '\u{7f}' by {}
            }
        }
        return false;
    }
    let n = text.unicode_len();
    if n == 0 {
        return false;
    }
    let first = text.get_ascii(0);
    if !(first >= '0' as u8 && first <= '9' as u8) {
        return false;
    }
    let mut seen: usize = 0;
    let mut i: usize = 0;
    assert(text@.subrange(0, 0) =~= Seq::<char>::empty());
    while i < n
        invariant
            i <= n,
            n == text@.len(),
            is_ascii(text),
            seen <= i,
            seen == dots(text@.subrange(0, i as int)),
            forall|j: int| 0 <= j < i ==> ('0' <= #[trigger] text@[j] <= '9') || text@[j] == '.',
        decreases n - i,
    {
        let b = text.get_ascii(i);
        proof {
            assert(text@.subrange(0, i + 1).drop_last() =~= text@.subrange(0, i as int));
            assert((text@[i as int] as nat) < 128);
        }
        if b == '.' as u8 {
            seen = seen + 1;
        } else if !(b >= '0' as u8 && b <= '9' as u8) {
            return false;
        }
        i = i + 1;
    }
    assert(text@.subrange(0, n as int) =~= text@);
    seen <= 1
}

} // verus!
