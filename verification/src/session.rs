//! A session: the chunks compiled so far, and the one machine that runs them.
//!
//! Running a chunk is a dialogue with the host. `exec` runs the chunk until the host has
//! something to do: print a line, answer a task for the float unit, or simply call again
//! because the fuel ran out. `answer` goes on with the host's answer. When the chunk halts, or
//! an error stops it, it is back in its slot.

use crate::chunk::{Chunk, returns_last};
use crate::errors::{RTError, RuntimeErrorView};
use crate::depth::{level, supplied_from};
use crate::grammar::compiled;
use crate::parser::compile;
use crate::scanner::{bytes_of, COMPError, CompileErrorView};
use crate::stack::STACK_MAX;
use crate::value::{FloatAnswer, Value, ValueView};
use crate::vm::{Action, ActionView, Machine, outcome, Stepped, VM, WaitingView};
use vstd::prelude::*;
use vstd::string::*;

verus! {

pub type ChunkAddr = usize;

/// Whether a move ends the run of a chunk: the chunk has halted, or an error has stopped it.
pub open spec fn ends_run(result: Result<ActionView, RuntimeErrorView>) -> bool {
    result is Err || result == Ok::<ActionView, RuntimeErrorView>(ActionView::Halt)
}

/// The chunks compiled so far, in the order of their compilation, and the machine.
pub struct RuntimeContext {
    vm: VM,
    chunks: Vec<Option<Chunk>>,
    running: Option<ChunkAddr>,
    debug: bool,
}

impl RuntimeContext {
    /// The number of chunks compiled so far.
    pub closed spec fn count(&self) -> nat {
        self.chunks@.len()
    }

    /// The chunk in slot `addr`; nothing while the machine runs it.
    pub closed spec fn chunk_at(&self, addr: int) -> Option<Chunk> {
        self.chunks@[addr]
    }

    /// The slot of the chunk that the machine runs, if it runs one.
    pub closed spec fn running(&self) -> Option<ChunkAddr> {
        self.running
    }

    /// The state of the machine.
    pub closed spec fn machine(&self) -> Machine {
        self.vm@
    }

    /// Whether the session was started for debugging.
    pub closed spec fn debugging(&self) -> bool {
        self.debug
    }

    /// Every chunk in its slot can be run; the machine holds a chunk exactly while it runs
    /// one, whose slot is then empty, and is then at an instruction of it.
    pub closed spec fn wf(&self) -> bool {
        &&& self.vm.inv()
        &&& forall|i: int|
            0 <= i < self.chunks@.len() ==> (match #[trigger] self.chunks@[i] {
                Some(chunk) => chunk.executable(),
                None => true,
            })
        &&& match self.running {
            Some(addr) => addr < self.chunks@.len() && self.chunks@[addr as int] is None
                && self.vm.loaded() && self.vm.chunk().executable() && self.vm@.wf(),
            None => !self.vm.loaded(),
        }
    }

    /// The stack of the session's machine never holds more than `STACK_MAX` values.
    pub proof fn stack_is_bounded(&self)
        requires
            self.wf(),
        ensures
            self.machine().stack.len() <= STACK_MAX,
    {
        self.vm.stack_is_bounded();
    }

    /// The machine as it is when it begins to run `chunk`: at the first instruction, waiting
    /// for nothing, with the stack and the globals that it has.
    pub open spec fn begins(&self, chunk: Chunk) -> Machine {
        Machine {
            ops: chunk.ops(),
            consts: chunk.consts(),
            ip: 0,
            waiting: WaitingView::Nothing,
            ..self.machine()
        }
    }

    /// What holds after a move `s` of the machine on the chunk of slot `addr`: the machine is
    /// in the state behind the move as far as its stack and its globals go; where the move
    /// ended the run, the chunk is back in its slot and the machine runs nothing; else the
    /// machine runs the chunk still, in the state behind the move.
    pub open spec fn moved(&self, old: &RuntimeContext, addr: ChunkAddr, chunk: Chunk, s: Stepped) -> bool {
        &&& self.count() == old.count()
        &&& self.debugging() == old.debugging()
        &&& forall|i: int| 0 <= i < self.count() && i != addr ==> self.chunk_at(i) == old.chunk_at(i)
        &&& self.machine().stack == s.next.stack
        &&& self.machine().globals == s.next.globals
        &&& if ends_run(s.result) {
            self.running() is None && self.chunk_at(addr as int) == Some(chunk)
        } else {
            self.running() == Some(addr) && self.chunk_at(addr as int) is None && self.machine()
                == s.next
        }
    }

    /// A session with no chunk, and a machine with an empty stack and no global.
    pub fn start(debug: bool) -> (ctx: Self)
        ensures
            ctx.wf(),
            ctx.count() == 0,
            ctx.running() is None,
            ctx.debugging() == debug,
            ctx.machine().stack == Seq::<ValueView>::empty(),
            ctx.machine().globals == Map::<Seq<char>, ValueView>::empty(),
    {
        let vm = VM::init(debug);
        RuntimeContext { vm, chunks: Vec::new(), running: None, debug }
    }

    /// Whether the session was started for debugging.
    pub fn debug(&self) -> (yes: bool)
        ensures
            yes == self.debugging(),
    {
        self.debug
    }

    /// Whether slot `addr` holds its chunk.
    pub fn has_chunk(&self, addr: ChunkAddr) -> (yes: bool)
        ensures
            yes == (addr < self.count() && self.chunk_at(addr as int) is Some),
    {
        addr < self.chunks.len() && self.chunks[addr].is_some()
    }

    /// The number of chunks compiled so far.
    pub fn chunk_count(&self) -> (n: usize)
        ensures
            n == self.count(),
    {
        self.chunks.len()
    }

    /// The slot of the chunk that the machine runs, if it runs one.
    pub fn running_chunk(&self) -> (addr: Option<ChunkAddr>)
        ensures
            addr == self.running(),
    {
        self.running
    }

    /// Whether the machine waits for `answer`.
    pub fn awaits(&self, answer: &FloatAnswer) -> (yes: bool)
        ensures
            yes == self.machine().waiting.accepts(answer@),
    {
        self.vm.awaits(answer)
    }

    /// Whether the machine waits for nothing.
    pub fn is_idle(&self) -> (yes: bool)
        ensures
            yes == (self.machine().waiting is Nothing),
    {
        self.vm.waits_for_nothing()
    }

    /// The number of values on the machine's stack.
    pub fn stack_depth(&self) -> (n: usize)
        ensures
            n == self.machine().stack.len(),
            self.wf() ==> n <= STACK_MAX,
    {
        proof {
            if self.wf() {
                self.vm.stack_is_bounded();
            }
        }
        self.vm.stack_depth()
    }

    /// The value in slot `slot` of the machine's stack, counted from the bottom.
    pub fn stack_value(&self, slot: usize) -> (val: Option<&Value>)
        ensures
            slot < self.machine().stack.len() ==> val is Some && val->0@
                == self.machine().stack[slot as int],
            slot >= self.machine().stack.len() ==> val is None,
    {
        self.vm.stack_value(slot)
    }

    /// Compiles `source` and keeps the chunk. Gives the slot of the chunk: the number of
    /// chunks compiled before. A source that cannot be compiled leaves the session as it
    /// was, with no chunk more; one that is not ASCII is refused as such. In the chunk
    /// `RETURN` stands at the end and nowhere else; the chunk is level, and each of its
    /// instructions has the values that it reads: running it to its end leaves the stack as
    /// deep as it was, and no run of it stops with a stack underflow.
    pub fn compile(&mut self, source: &str) -> (res: COMPError<ChunkAddr>)
        requires
            old(self).wf(),
            source@.len() < u32::MAX,
        ensures
            final(self).wf(),
            final(self).machine() == old(self).machine(),
            final(self).running() == old(self).running(),
            final(self).debugging() == old(self).debugging(),
            forall|i: int| 0 <= i < old(self).count() ==> final(self).chunk_at(i) == old(self).chunk_at(i),
            !is_ascii(source) ==> res is Err && res->Err_0@ == CompileErrorView::NonASCIIChar
                && final(self).count() == old(self).count(),
            is_ascii(source) ==> (match compiled(bytes_of(source@)) {
                Ok(p) => res == Ok::<ChunkAddr, crate::scanner::CompileError>(
                    old(self).count() as usize,
                ) && final(self).count() == old(self).count() + 1 && (match final(self).chunk_at(
                    old(self).count() as int,
                ) {
                    Some(chunk) => chunk.ops() == p.ops && chunk.lines() == p.lines
                        && chunk.consts() == p.consts && chunk.frozen() && chunk.executable()
                        && returns_last(chunk.ops()) && level(chunk.ops(), p.depths)
                        && supplied_from(chunk.ops(), 0, p.depths),
                    None => false,
                }),
                Err(e) => res is Err && res->Err_0@ == e,
            }),
            res is Err ==> final(self).count() == old(self).count(),
    {
        let chunk = compile(source)?;
        self.chunks.push(Some(chunk));
        Ok(self.chunks.len() - 1)
    }

    /// Takes the chunk out of slot `addr`.
    pub fn get_chunk(&mut self, addr: ChunkAddr) -> (chunk: Chunk)
        requires
            old(self).wf(),
            addr < old(self).count(),
            old(self).chunk_at(addr as int) is Some,
        ensures
            final(self).wf(),
            Some(chunk) == old(self).chunk_at(addr as int),
            chunk.executable(),
            final(self).count() == old(self).count(),
            final(self).chunk_at(addr as int) is None,
            forall|i: int|
                0 <= i < final(self).count() && i != addr ==> final(self).chunk_at(i) == old(
                    self,
                ).chunk_at(i),
            final(self).machine() == old(self).machine(),
            final(self).running() == old(self).running(),
            final(self).debugging() == old(self).debugging(),
    {
        let was = self.swap_slot(addr, None);
        match was {
            Some(chunk) => chunk,
            None => Chunk::new(),
        }
    }

    /// Puts `content` into slot `addr` and gives what was there.
    fn swap_slot(&mut self, addr: ChunkAddr, content: Option<Chunk>) -> (was: Option<Chunk>)
        requires
            addr < old(self).chunks@.len(),
        ensures
            was == old(self).chunks@[addr as int],
            final(self).chunks@ == old(self).chunks@.update(addr as int, content),
            final(self).vm == old(self).vm,
            final(self).running == old(self).running,
            final(self).debug == old(self).debug,
    {
        let mut tail: Vec<Option<Chunk>> = self.chunks.split_off(addr);
        let was = tail.remove(0);
        self.chunks.push(content);
        self.chunks.append(&mut tail);
        assert(self.chunks@ =~= old(self).chunks@.update(addr as int, content));
        was
    }

    /// Puts `chunk` into slot `addr`.
    pub fn put_chunk(&mut self, addr: ChunkAddr, chunk: Chunk)
        requires
            old(self).wf(),
            addr < old(self).count(),
            chunk.executable(),
            old(self).running() != Some(addr),
        ensures
            final(self).wf(),
            final(self).count() == old(self).count(),
            final(self).chunk_at(addr as int) == Some(chunk),
            forall|i: int|
                0 <= i < final(self).count() && i != addr ==> final(self).chunk_at(i) == old(
                    self,
                ).chunk_at(i),
            final(self).machine() == old(self).machine(),
            final(self).running() == old(self).running(),
            final(self).debugging() == old(self).debugging(),
    {
        self.swap_slot(addr, Some(chunk));
    }

    /// Settles a move of the machine: where it ended the run, the chunk goes back to its
    /// slot.
    fn settle(&mut self, addr: ChunkAddr, res: RTError<Action>) -> (out: RTError<Action>)
        requires
            old(self).vm.inv(),
            old(self).vm.loaded(),
            old(self).vm.chunk().executable(),
            old(self).vm@.wf(),
            old(self).running == Some(addr),
            addr < old(self).chunks@.len(),
            old(self).chunks@[addr as int] is None,
            forall|i: int|
                0 <= i < old(self).chunks@.len() ==> (match #[trigger] old(self).chunks@[i] {
                    Some(chunk) => chunk.executable(),
                    None => true,
                }),
        ensures
            out == res,
            final(self).wf(),
            final(self).count() == old(self).count(),
            final(self).debugging() == old(self).debugging(),
            forall|i: int|
                0 <= i < final(self).count() && i != addr ==> final(self).chunk_at(i) == old(
                    self,
                ).chunk_at(i),
            final(self).machine().stack == old(self).machine().stack,
            final(self).machine().globals == old(self).machine().globals,
            if ends_run(outcome(res)) {
                final(self).running() is None && final(self).chunk_at(addr as int) == Some(
                    old(self).vm.chunk(),
                )
            } else {
                final(self).running() == Some(addr) && final(self).chunk_at(addr as int) is None
                    && final(self).machine() == old(self).machine()
            },
    {
        let ends = match &res {
            Ok(Action::Halt) => true,
            Ok(_) => false,
            Err(_) => true,
        };
        if ends {
            // the chunk goes back even where the run has failed
            let cur_chunk = self.vm.unload_chunk();
            self.swap_slot(addr, Some(cur_chunk));
            self.running = None;
        }
        res
    }

    /// Runs the chunk of slot `addr`, from its start or from where the machine has stopped
    /// in it, for no more than `fuel` instructions.
    pub fn exec(&mut self, addr: ChunkAddr, fuel: usize) -> (res: RTError<Action>)
        requires
            old(self).wf(),
            addr < old(self).count(),
            old(self).running() is None || old(self).running() == Some(addr),
            old(self).running() is None ==> old(self).chunk_at(addr as int) is Some,
            old(self).running() is Some ==> old(self).machine().waiting is Nothing,
        ensures
            final(self).wf(),
            ({
                let chunk = if old(self).running() is Some {
                    old(self).loaded_chunk()
                } else {
                    old(self).chunk_at(addr as int)->0
                };
                let from = if old(self).running() is Some {
                    old(self).machine()
                } else {
                    old(self).begins(chunk)
                };
                &&& outcome(res) == from.run(fuel as nat).result
                &&& final(self).moved(old(self), addr, chunk, from.run(fuel as nat))
            }),
    {
        if self.running.is_none() {
            assert(self.chunks@[addr as int] is Some);
            let cur_chunk = match self.swap_slot(addr, None) {
                Some(chunk) => chunk,
                None => Chunk::new(),
            };
            self.vm.load_chunk(cur_chunk);
            self.running = Some(addr);
        }
        assert forall|i: int| 0 <= i < self.chunks@.len() implies (match #[trigger] self.chunks@[i] {
            Some(chunk) => chunk.executable(),
            None => true,
        }) by {
            if i != addr {
                assert(self.chunks@[i] == old(self).chunks@[i]);
            }
        }
        let ghost from = self.vm@;
        proof {
            crate::vm::run_stays_inside(from, fuel as nat);
        }
        let res = self.vm.run(fuel);
        self.settle(addr, res)
    }

    /// The chunk that the machine has loaded.
    pub closed spec fn loaded_chunk(&self) -> Chunk {
        self.vm.chunk()
    }

    /// Goes on with the host's answer to the task that the machine waits for, for no more
    /// than `fuel` instructions.
    pub fn answer(&mut self, answer: FloatAnswer, fuel: usize) -> (res: RTError<Action>)
        requires
            old(self).wf(),
            old(self).running() is Some,
            old(self).machine().waiting.accepts(answer@),
        ensures
            final(self).wf(),
            ({
                let woken = old(self).machine().resume(answer@);
                let s = if woken.result == Ok::<ActionView, RuntimeErrorView>(ActionView::Continue) {
                    woken.next.run(fuel as nat)
                } else {
                    woken
                };
                &&& outcome(res) == s.result
                &&& final(self).moved(
                    old(self),
                    old(self).running()->0,
                    old(self).loaded_chunk(),
                    s,
                )
            }),
    {
        let addr = match self.running {
            Some(addr) => addr,
            None => 0,
        };
        proof {
            crate::vm::resume_stays_inside(self.vm@, answer@);
        }
        let woken = self.vm.resume(answer);
        let res = match woken {
            Ok(Action::Continue) => {
                proof {
                    crate::vm::run_stays_inside(self.vm@, fuel as nat);
                }
                self.vm.run(fuel)
            },
            other => other,
        };
        self.settle(addr, res)
    }
}

} // verus!
