//! The scope tracker of the compiler: which names are declared as locals, and how deep.

use vstd::prelude::*;
use vstd::string::*;

verus! {

type CountTy = i16;

/// A declared local: its name, and the depth of the scope that declares it.
#[derive(Debug)]
pub struct Local {
    name: String,
    depth: CountTy,
}

/// A `Local` with its name as a sequence of characters.
pub struct LocalView {
    pub name: Seq<char>,
    pub depth: int,
}

impl View for Local {
    type V = LocalView;

    closed spec fn view(&self) -> LocalView {
        LocalView { name: self.name@, depth: self.depth as int }
    }
}

impl Clone for Local {
    fn clone(&self) -> (copy: Self)
        ensures
            copy@ == self@,
    {
        Local { name: self.name.clone(), depth: self.depth }
    }
}

impl Default for Local {
    /// A descriptor of no local: no name, depth -1.
    fn default() -> (local: Self)
        ensures
            local@ == (LocalView { name: Seq::<char>::empty(), depth: -1 }),
    {
        Local { name: String::new(), depth: -1 }
    }
}

/// How many locals the tracker can hold.
pub const LOCAL_MAX: usize = 256;

/// The state of the tracker: the locals, oldest first, and the current depth. A local's
/// index is its slot on the operand stack.
pub struct Scopes {
    pub locals: Seq<LocalView>,
    pub depth: int,
}

impl Scopes {
    /// The tracker of a fresh compilation: no local, depth 0.
    pub open spec fn fresh() -> Scopes {
        Scopes { locals: Seq::empty(), depth: 0 }
    }

    /// Inside at least one scope.
    pub open spec fn local_scope(self) -> bool {
        self.depth > 0
    }

    pub open spec fn begin_scope(self) -> Scopes {
        Scopes { depth: self.depth + 1, ..self }
    }

    pub open spec fn end_scope(self) -> Scopes {
        Scopes { depth: self.depth - 1, ..self }
    }

    /// With `name` declared at the current depth.
    pub open spec fn add_local(self, name: Seq<char>) -> Scopes {
        Scopes { locals: self.locals.push(LocalView { name, depth: self.depth }), ..self }
    }

    /// The slot of the youngest of the first `n` locals named `name`.
    pub open spec fn find_among(self, name: Seq<char>, n: int) -> Option<int>
        decreases n,
    {
        if n <= 0 {
            None
        } else if self.locals[n - 1].name == name {
            Some(n - 1)
        } else {
            self.find_among(name, n - 1)
        }
    }

    /// The slot of the youngest local named `name`.
    pub open spec fn find_local(self, name: Seq<char>) -> Option<int> {
        self.find_among(name, self.locals.len() as int)
    }

    /// Whether one of the first `n` locals is named `name`, among those that stand behind
    /// every local of another depth than the current one.
    pub open spec fn declared_among(self, name: Seq<char>, n: int) -> bool
        decreases n,
    {
        if n <= 0 || self.locals[n - 1].depth != self.depth {
            false
        } else {
            self.locals[n - 1].name == name || self.declared_among(name, n - 1)
        }
    }

    /// Whether the current scope declares `name`.
    pub open spec fn exists_in_current_scope(self, name: Seq<char>) -> bool {
        self.declared_among(name, self.locals.len() as int)
    }

    /// Whether the youngest local belongs to the current scope.
    pub open spec fn should_pop_local(self) -> bool {
        self.locals.len() > 0 && self.locals.last().depth == self.depth
    }

    /// Without the youngest local.
    pub open spec fn pop_local(self) -> Scopes {
        Scopes { locals: self.locals.drop_last(), ..self }
    }

    /// No local is deeper than the current depth, and none is deeper than a younger one.
    pub open spec fn ordered(self) -> bool {
        &&& forall|i: int| 0 <= i < self.locals.len() ==> (#[trigger] self.locals[i]).depth <= self.depth
        &&& forall|i: int, j: int|
            0 <= i < j < self.locals.len() ==> self.locals[i].depth <= self.locals[j].depth
    }

    /// How many locals belong to the current scope, where the locals are ordered.
    pub open spec fn count_here(self) -> int
        decreases self.locals.len(),
    {
        if self.should_pop_local() {
            self.pop_local().count_here() + 1
        } else {
            0
        }
    }

    /// Without the locals of the current scope.
    pub open spec fn clean(self) -> Scopes
        decreases self.locals.len(),
    {
        if self.should_pop_local() {
            self.pop_local().clean()
        } else {
            self
        }
    }
}

/// The scope tracker: up to 256 locals and the current depth.
pub struct Compiler {
    locals: Vec<Local>,
    depth: CountTy,
}

impl View for Compiler {
    type V = Scopes;

    closed spec fn view(&self) -> Scopes {
        Scopes { locals: self.locals.deep_view(), depth: self.depth as int }
    }
}

impl DeepView for Local {
    type V = LocalView;

    open spec fn deep_view(&self) -> LocalView {
        self@
    }
}

impl Compiler {
    /// The tracker holds no more locals than it has room for.
    pub open spec fn wf(&self) -> bool {
        self@.locals.len() <= LOCAL_MAX
    }

    /// The depth of a tracker is a 16-bit number, whatever has been done with the tracker:
    /// one scope at least can be ended after any that has begun.
    pub proof fn depth_is_bounded(&self)
        ensures
            i16::MIN <= self@.depth <= i16::MAX,
    {
    }

    pub fn init() -> (compiler: Self)
        ensures
            compiler@ == Scopes::fresh(),
    {
        let compiler = Compiler { depth: 0, locals: Vec::new() };
        assert(compiler@.locals =~= Seq::<LocalView>::empty());
        compiler
    }

    /// The number of locals.
    pub fn count(&self) -> (n: usize)
        ensures
            n == self@.locals.len(),
    {
        self.locals.len()
    }

    /// The current depth.
    pub fn depth(&self) -> (d: i16)
        ensures
            d == self@.depth,
    {
        self.depth
    }

    #[inline]
    pub fn begin_scope(&mut self)
        requires
            old(self)@.depth < i16::MAX,
        ensures
            final(self)@ == old(self)@.begin_scope(),
            i16::MIN < final(self)@.depth <= i16::MAX,
    {
        self.depth += 1;
    }

    #[inline]
    pub fn end_scope(&mut self)
        requires
            old(self)@.depth > i16::MIN,
        ensures
            final(self)@ == old(self)@.end_scope(),
            i16::MIN <= final(self)@.depth < i16::MAX,
    {
        self.depth -= 1;
    }

    #[inline]
    pub fn local_scope(&self) -> (yes: bool)
        ensures
            yes == self@.local_scope(),
    {
        self.depth > 0
    }

    /// Declares `ident_` at the current depth.
    pub fn add_local(&mut self, ident_: String)
        requires
            old(self)@.locals.len() < LOCAL_MAX,
        ensures
            final(self)@ == old(self)@.add_local(ident_@),
    {
        let local = Local { name: ident_, depth: self.depth };
        self.locals.push(local);
        assert(self@.locals =~= old(self)@.add_local(ident_@).locals);
    }

    /// Whether the current scope is free of `name`: nothing where it declares the name.
    pub fn local_exists(&self, name: &str) -> (free: Option<()>)
        ensures
            free is None <==> self@.exists_in_current_scope(name@),
    {
        let wanted = String::from_str(name);
        let mut n: usize = self.locals.len();
        while n > 0
            invariant
                n <= self.locals@.len(),
                wanted@ == name@,
                self@.exists_in_current_scope(name@) == self@.declared_among(name@, n as int),
            decreases n,
        {
            let l = &self.locals[n - 1];
            assert(self@.locals[n - 1] == l@);
            if l.depth != self.depth {
                return Some(());
            }
            if l.name == wanted {
                return None;
            }
            n = n - 1;
        }
        Some(())
    }

    /// The slot of the youngest local named `name`.
    pub fn find_local(&self, name: &str) -> (slot: Option<u8>)
        requires
            self.wf(),
        ensures
            slot is Some <==> self@.find_local(name@) is Some,
            slot is Some ==> slot->0 as int == self@.find_local(name@)->0,
    {
        let wanted = String::from_str(name);
        let mut n: usize = self.locals.len();
        while n > 0
            invariant
                n <= self.locals@.len() <= LOCAL_MAX,
                wanted@ == name@,
                self@.find_local(name@) == self@.find_among(name@, n as int),
            decreases n,
        {
            let l = &self.locals[n - 1];
            assert(self@.locals[n - 1] == l@);
            if l.name == wanted {
                return Some((n - 1) as u8);
            }
            n = n - 1;
        }
        None
    }

    /// Drops the youngest local where it belongs to the current scope, and says whether it
    /// did.
    pub fn should_pop_local(&mut self) -> (popped: bool)
        ensures
            popped == old(self)@.should_pop_local(),
            popped ==> final(self)@ == old(self)@.pop_local(),
            !popped ==> final(self)@ == old(self)@,
    {
        let count = self.locals.len();
        if count == 0 {
            return false;
        }
        let l = &self.locals[count - 1];
        assert(self@.locals[count - 1] == l@);
        if self.depth == l.depth {
            self.locals.pop();
            assert(self@.locals =~= old(self)@.pop_local().locals);
            return true;
        }
        false
    }
}

/// A name is found at the slot of one of the locals.
pub proof fn found_slot_exists(s: Scopes, name: Seq<char>, n: int)
    requires
        0 <= n <= s.locals.len(),
    ensures
        s.find_among(name, n) matches Some(slot) ==> 0 <= slot < n && s.locals[slot].name == name,
    decreases n,
{
    if n > 0 && s.locals[n - 1].name != name {
        found_slot_exists(s, name, n - 1);
    }
}

/// A scope that has just begun declares no name.
pub proof fn fresh_scope_declares_nothing(s: Scopes, name: Seq<char>)
    requires
        s.ordered(),
    ensures
        !s.begin_scope().exists_in_current_scope(name),
{
    let inner = s.begin_scope();
    if inner.locals.len() > 0 {
        assert(inner.locals[inner.locals.len() - 1].depth <= s.depth);
    }
}

/// A name that has been declared is declared in the current scope, is found at the slot it
/// was given, and can be declared again in a scope inside that one.
pub proof fn declared_name_is_found(s: Scopes, name: Seq<char>)
    requires
        s.ordered(),
    ensures
        s.add_local(name).ordered(),
        s.add_local(name).exists_in_current_scope(name),
        s.add_local(name).find_local(name) == Some(s.locals.len() as int),
        !s.add_local(name).begin_scope().exists_in_current_scope(name),
{
    let after = s.add_local(name);
    assert(after.locals.last().name == name);
    fresh_scope_declares_nothing(after, name);
}

/// Leaving a scope drops exactly the locals that were declared in it: what was declared
/// before the scope began is there again, and nothing else.
pub proof fn leaving_scope_restores(s: Scopes, inner: Scopes)
    requires
        s.ordered(),
        inner.depth == s.depth + 1,
        inner.locals.len() >= s.locals.len(),
        inner.locals.subrange(0, s.locals.len() as int) == s.locals,
        forall|i: int| s.locals.len() <= i < inner.locals.len() ==> inner.locals[i].depth == inner.depth,
    ensures
        inner.clean().end_scope() == s,
        inner.count_here() == inner.locals.len() - s.locals.len(),
    decreases inner.locals.len(),
{
    if inner.locals.len() > s.locals.len() {
        let rest = inner.pop_local();
        assert(rest.locals.subrange(0, s.locals.len() as int) =~= s.locals);
        leaving_scope_restores(s, rest);
    } else {
        assert(inner.locals =~= s.locals);
        if inner.locals.len() > 0 {
            assert(inner.locals.last() == s.locals[s.locals.len() - 1]);
        }
    }
}

} // verus!
