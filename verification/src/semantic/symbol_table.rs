//! A symbol table made of a stack of scope frames.
//!
//! The scope level of a symbol is the index of the frame that holds it. The
//! outermost frame, level 0, always exists. A name occurs at most once in a
//! frame; the same name in an inner frame shadows the outer one.

use vstd::prelude::*;
use vstd::string::StringExecFns;

verus! {

/// The signature of a function: the name of its return type and, for each
/// parameter, its name and the name of its type.
#[derive(Debug, Clone)]
pub struct FunctionSignature {
    pub return_type: String,
    pub parameters: Vec<(String, String)>,
}

/// What a symbol stands for.
#[derive(Debug, Clone)]
pub enum SymbolType {
    /// A variable, with the name of its type.
    Variable(String),
    /// A function, with its signature.
    Function(FunctionSignature),
    /// A type definition.
    TypeDefinition(String),
}

/// An entry of the symbol table.
#[derive(Debug, Clone)]
pub struct Symbol {
    pub name: String,
    pub symbol_type: SymbolType,
    pub scope_level: usize,
    pub mutable: bool,
}

/// Why a definition was refused.
#[derive(Debug, Clone, PartialEq)]
pub enum SymbolError {
    /// The name is already defined in the current scope.
    AlreadyDefined(String),
}

/// Model of [`FunctionSignature`].
pub struct SpecSignature {
    pub return_type: Seq<char>,
    pub parameters: Seq<(Seq<char>, Seq<char>)>,
}

/// Model of [`SymbolType`].
pub enum SpecSymbolType {
    Variable(Seq<char>),
    Function(SpecSignature),
    TypeDefinition(Seq<char>),
}

/// Model of [`Symbol`].
pub struct SpecSymbol {
    pub name: Seq<char>,
    pub symbol_type: SpecSymbolType,
    pub scope_level: usize,
    pub mutable: bool,
}

/// Model of [`SymbolError`].
pub enum SpecSymbolError {
    AlreadyDefined(Seq<char>),
}

/// Model of a symbol table: its frames, outermost first.
pub type SpecTable = Seq<Seq<SpecSymbol>>;

impl View for FunctionSignature {
    type V = SpecSignature;

    open spec fn view(&self) -> SpecSignature {
        SpecSignature {
            return_type: self.return_type@,
            parameters: self.parameters@.map_values(|p: (String, String)| (p.0@, p.1@)),
        }
    }
}

impl View for SymbolType {
    type V = SpecSymbolType;

    open spec fn view(&self) -> SpecSymbolType {
        match self {
            SymbolType::Variable(t) => SpecSymbolType::Variable(t@),
            SymbolType::Function(s) => SpecSymbolType::Function(s@),
            SymbolType::TypeDefinition(t) => SpecSymbolType::TypeDefinition(t@),
        }
    }
}

impl View for Symbol {
    type V = SpecSymbol;

    open spec fn view(&self) -> SpecSymbol {
        SpecSymbol {
            name: self.name@,
            symbol_type: self.symbol_type@,
            scope_level: self.scope_level,
            mutable: self.mutable,
        }
    }
}

impl View for SymbolError {
    type V = SpecSymbolError;

    open spec fn view(&self) -> SpecSymbolError {
        match self {
            SymbolError::AlreadyDefined(name) => SpecSymbolError::AlreadyDefined(name@),
        }
    }
}

/// The symbol called `name` in one frame, if there is one.
pub open spec fn frame_find(frame: Seq<SpecSymbol>, name: Seq<char>) -> Option<SpecSymbol>
    decreases frame.len(),
{
    if frame.len() == 0 {
        None
    } else if frame.last().name == name {
        Some(frame.last())
    } else {
        frame_find(frame.drop_last(), name)
    }
}

/// The innermost symbol called `name`: frames are searched from the current
/// one outwards.
pub open spec fn table_lookup(t: SpecTable, name: Seq<char>) -> Option<SpecSymbol>
    decreases t.len(),
{
    if t.len() == 0 {
        None
    } else {
        match frame_find(t.last(), name) {
            Some(s) => Some(s),
            None => table_lookup(t.drop_last(), name),
        }
    }
}

/// The symbol called `name` in the current frame only.
pub open spec fn table_lookup_current(t: SpecTable, name: Seq<char>) -> Option<SpecSymbol> {
    if t.len() == 0 {
        None
    } else {
        frame_find(t.last(), name)
    }
}

/// Every symbol called `name`, outermost first.
pub open spec fn table_lookup_all(t: SpecTable, name: Seq<char>) -> Seq<SpecSymbol>
    decreases t.len(),
{
    if t.len() == 0 {
        Seq::empty()
    } else {
        match frame_find(t.last(), name) {
            Some(s) => table_lookup_all(t.drop_last(), name).push(s),
            None => table_lookup_all(t.drop_last(), name),
        }
    }
}

/// The table at its creation: one frame, the outermost, without symbols.
pub open spec fn empty_table() -> SpecTable {
    seq![Seq::<SpecSymbol>::empty()]
}

/// The table with a new, empty current frame.
pub open spec fn table_enter(t: SpecTable) -> SpecTable {
    t.push(Seq::empty())
}

/// The table without the symbols of its current frame. The frame itself is
/// dropped too, unless it is the outermost one.
pub open spec fn table_exit(t: SpecTable) -> SpecTable {
    if t.len() <= 1 {
        seq![Seq::empty()]
    } else {
        t.drop_last()
    }
}

/// The table after defining a symbol in its current frame, or the error if
/// the current frame already holds the name.
pub open spec fn table_define(
    t: SpecTable,
    name: Seq<char>,
    symbol_type: SpecSymbolType,
    mutable: bool,
) -> Result<SpecTable, SpecSymbolError> {
    if table_lookup_current(t, name) is Some {
        Err(SpecSymbolError::AlreadyDefined(name))
    } else {
        Ok(
            t.update(
                t.len() - 1,
                t.last().push(
                    SpecSymbol {
                        name,
                        symbol_type,
                        scope_level: (t.len() - 1) as usize,
                        mutable,
                    },
                ),
            ),
        )
    }
}

/// No name occurs twice in the frame.
pub open spec fn frame_distinct(frame: Seq<SpecSymbol>) -> bool {
    forall|i: int, j: int|
        0 <= i < frame.len() && 0 <= j < frame.len() && i != j ==> (#[trigger] frame[i]).name != (
        #[trigger] frame[j]).name
}

/// What holds of every symbol table: there is an outermost frame, every
/// symbol records the level of its frame, and no frame holds a name twice.
pub open spec fn table_wf(t: SpecTable) -> bool {
    &&& t.len() >= 1
    &&& t.len() <= usize::MAX
    &&& forall|f: int, i: int|
        0 <= f < t.len() && 0 <= i < t[f].len() ==> (#[trigger] t[f][i]).scope_level == f
    &&& forall|f: int| 0 <= f < t.len() ==> frame_distinct(#[trigger] t[f])
}

/// A scoped store of symbols.
pub struct SymbolTable {
    frames: Vec<Vec<Symbol>>,
}

impl View for SymbolTable {
    type V = SpecTable;

    closed spec fn view(&self) -> SpecTable {
        self.frames@.map_values(|f: Vec<Symbol>| f@.map_values(|s: Symbol| s@))
    }
}

/// The index of the symbol called `name` in a frame.
fn find_in_frame(frame: &Vec<Symbol>, name: &String) -> (r: Option<usize>)
    ensures
        match r {
            Some(i) => i < frame.len() && frame_find(frame@.map_values(|s: Symbol| s@), name@)
                == Some(frame@[i as int]@),
            None => frame_find(frame@.map_values(|s: Symbol| s@), name@) is None,
        },
{
    let ghost model = frame@.map_values(|s: Symbol| s@);
    let mut i: usize = frame.len();
    proof {
        assert(model.take(frame.len() as int) =~= model);
    }
    while i > 0
        invariant
            i <= frame.len(),
            model == frame@.map_values(|s: Symbol| s@),
            frame_find(model, name@) == frame_find(model.take(i as int), name@),
        decreases i,
    {
        proof {
            let head = model.take(i as int);
            assert(head.last() == frame@[i - 1]@);
            assert(head.drop_last() =~= model.take(i - 1));
        }
        if frame[i - 1].name == *name {
            return Some(i - 1);
        }
        i -= 1;
    }
    None
}

impl SymbolTable {
    /// The table is well formed: see [`table_wf`].
    pub open spec fn wf(&self) -> bool {
        table_wf(self@)
    }

    /// A table with one empty frame, at scope level 0.
    pub fn new() -> (r: Self)
        ensures
            r@ == empty_table(),
            r.wf(),
    {
        let mut frames: Vec<Vec<Symbol>> = Vec::new();
        frames.push(Vec::new());
        let r = SymbolTable { frames };
        proof {
            assert(r@ =~~= empty_table());
        }
        r
    }

    /// The current scope level: the number of frames above the outermost one.
    pub fn current_scope(&self) -> (r: usize)
        requires
            self.wf(),
        ensures
            r == self@.len() - 1,
    {
        self.frames.len() - 1
    }

    /// Opens a new scope.
    pub fn enter_scope(&mut self)
        requires
            old(self).wf(),
        ensures
            final(self)@ == table_enter(old(self)@),
            final(self).wf(),
    {
        self.frames.push(Vec::new());
        proof {
            assert(self@ =~~= table_enter(old(self)@));
            assert(self@.len() == self.frames.len());
            assert forall|f: int| 0 <= f < self@.len() implies frame_distinct(#[trigger] self@[f]) by {
                if f < old(self)@.len() {
                    assert(self@[f] == old(self)@[f]);
                }
            }
        }
    }

    /// Closes the current scope: its symbols are discarded and the level goes
    /// down by one. At level 0 the symbols are discarded and the level stays.
    pub fn exit_scope(&mut self)
        requires
            old(self).wf(),
        ensures
            final(self)@ == table_exit(old(self)@),
            final(self).wf(),
    {
        self.frames.pop();
        if self.frames.len() == 0 {
            self.frames.push(Vec::new());
        }
        proof {
            assert(self@ =~~= table_exit(old(self)@));
        }
    }

    /// Defines a variable in the current scope. Fails, and leaves the table as
    /// it was, if the current scope already holds the name.
    pub fn define_variable(&mut self, name: String, var_type: String, mutable: bool) -> (r: Result<
        (),
        SymbolError,
    >)
        requires
            old(self).wf(),
        ensures
            final(self).wf(),
            match table_define(old(self)@, name@, SpecSymbolType::Variable(var_type@), mutable) {
                Ok(t) => r is Ok && final(self)@ == t,
                Err(e) => r matches Err(x) && x@ == e && final(self)@ == old(self)@,
            },
    {
        self.define(name, SymbolType::Variable(var_type), mutable)
    }

    /// Defines a function in the current scope; functions are immutable.
    /// Fails, and leaves the table as it was, if the current scope already
    /// holds the name.
    pub fn define_function(&mut self, name: String, signature: FunctionSignature) -> (r: Result<
        (),
        SymbolError,
    >)
        requires
            old(self).wf(),
        ensures
            final(self).wf(),
            match table_define(old(self)@, name@, SpecSymbolType::Function(signature@), false) {
                Ok(t) => r is Ok && final(self)@ == t,
                Err(e) => r matches Err(x) && x@ == e && final(self)@ == old(self)@,
            },
    {
        self.define(name, SymbolType::Function(signature), false)
    }

    /// The innermost symbol called `name`, if any scope holds one.
    pub fn lookup(&self, name: &str) -> (r: Option<&Symbol>)
        requires
            self.wf(),
        ensures
            match r {
                Some(s) => table_lookup(self@, name@) == Some(s@),
                None => table_lookup(self@, name@) is None,
            },
    {
        let key = String::from_str(name);
        let mut f: usize = self.frames.len();
        proof {
            assert(self@.take(f as int) =~= self@);
        }
        while f > 0
            invariant
                f <= self.frames.len(),
                key@ == name@,
                table_lookup(self@, name@) == table_lookup(self@.take(f as int), name@),
            decreases f,
        {
            proof {
                let head = self@.take(f as int);
                assert(head.last() == self@[f - 1]);
                assert(head.drop_last() =~= self@.take(f - 1));
            }
            match find_in_frame(&self.frames[f - 1], &key) {
                Some(i) => {
                    return Some(&self.frames[f - 1][i]);
                },
                None => {},
            }
            f -= 1;
        }
        None
    }

    /// The symbol called `name` in the current scope, if it holds one.
    pub fn lookup_in_current_scope(&self, name: &str) -> (r: Option<&Symbol>)
        requires
            self.wf(),
        ensures
            match r {
                Some(s) => table_lookup_current(self@, name@) == Some(s@),
                None => table_lookup_current(self@, name@) is None,
            },
    {
        let key = String::from_str(name);
        let top = self.frames.len() - 1;
        match find_in_frame(&self.frames[top], &key) {
            Some(i) => Some(&self.frames[top][i]),
            None => None,
        }
    }

    /// Every symbol called `name`, outermost first; `None` if there is none.
    pub fn lookup_all_scopes(&self, name: &str) -> (r: Option<Vec<&Symbol>>)
        requires
            self.wf(),
        ensures
            match r {
                Some(list) => list@.len() > 0 && list@.map_values(|s: &Symbol| s@)
                    == table_lookup_all(self@, name@),
                None => table_lookup_all(self@, name@).len() == 0,
            },
    {
        let key = String::from_str(name);
        let mut out: Vec<&Symbol> = Vec::new();
        let mut f: usize = 0;
        while f < self.frames.len()
            invariant
                f <= self.frames.len(),
                key@ == name@,
                out@.map_values(|s: &Symbol| s@) == table_lookup_all(self@.take(f as int), name@),
            decreases self.frames.len() - f,
        {
            proof {
                let head = self@.take(f + 1);
                assert(head.last() == self@[f as int]);
                assert(head.drop_last() =~= self@.take(f as int));
            }
            let ghost before = out@.map_values(|s: &Symbol| s@);
            match find_in_frame(&self.frames[f], &key) {
                Some(i) => {
                    out.push(&self.frames[f][i]);
                    proof {
                        assert(out@.map_values(|s: &Symbol| s@) =~= before.push(
                            self.frames[f as int][i as int]@,
                        ));
                    }
                },
                None => {},
            }
            f += 1;
        }
        proof {
            assert(self@.take(f as int) =~= self@);
        }
        if out.len() == 0 {
            None
        } else {
            Some(out)
        }
    }

    /// Every symbol of the table, from the outermost scope to the current
    /// one, each scope in the order of its definitions.
    pub fn get_all_symbols(&self) -> (r: Vec<&Symbol>)
        requires
            self.wf(),
        ensures
            r@.map_values(|s: &Symbol| s@) == self@.flatten(),
    {
        let mut out: Vec<&Symbol> = Vec::new();
        let mut f: usize = 0;
        proof {
            assert(self@.take(0) =~= Seq::<Seq<SpecSymbol>>::empty());
            assert(out@.map_values(|s: &Symbol| s@) =~= self@.take(0).flatten());
        }
        while f < self.frames.len()
            invariant
                f <= self.frames.len(),
                out@.map_values(|s: &Symbol| s@) == self@.take(f as int).flatten(),
            decreases self.frames.len() - f,
        {
            let ghost done = out@.map_values(|s: &Symbol| s@);
            let mut i: usize = 0;
            while i < self.frames[f].len()
                invariant
                    f < self.frames.len(),
                    i <= self.frames@[f as int].len(),
                    out@.map_values(|s: &Symbol| s@) == done + self@[f as int].take(i as int),
                decreases self.frames@[f as int].len() - i,
            {
                let ghost before = out@.map_values(|s: &Symbol| s@);
                out.push(&self.frames[f][i]);
                proof {
                    assert(out@.map_values(|s: &Symbol| s@) =~= before.push(
                        self@[f as int][i as int],
                    ));
                    assert(self@[f as int].take(i + 1) =~= self@[f as int].take(i as int).push(
                        self@[f as int][i as int],
                    ));
                }
                i += 1;
            }
            proof {
                assert(self@[f as int].take(self@[f as int].len() as int) =~= self@[f as int]);
                assert(self@.take(f + 1) =~= self@.take(f as int).push(self@[f as int]));
                self@.take(f as int).lemma_flatten_push(self@[f as int]);
            }
            f += 1;
        }
        proof {
            assert(self@.take(self.frames.len() as int) =~= self@);
        }
        out
    }

    /// Adds a symbol to the current frame, unless the frame holds its name.
    fn define(&mut self, name: String, symbol_type: SymbolType, mutable: bool) -> (r: Result<
        (),
        SymbolError,
    >)
        requires
            old(self).wf(),
        ensures
            final(self).wf(),
            match table_define(old(self)@, name@, symbol_type@, mutable) {
                Ok(t) => r is Ok && final(self)@ == t,
                Err(e) => r matches Err(x) && x@ == e && final(self)@ == old(self)@,
            },
    {
        let top = self.frames.len() - 1;
        let ghost before = self@;
        match find_in_frame(&self.frames[top], &name) {
            Some(_) => Err(SymbolError::AlreadyDefined(name)),
            None => {
                let symbol = Symbol { name, symbol_type, scope_level: top, mutable };
                let ghost added = symbol@;
                let mut frame: Vec<Symbol> = Vec::new();
                std::mem::swap(&mut frame, &mut self.frames[top]);
                frame.push(symbol);
                self.frames.set(top, frame);
                proof {
                    let after = before.update(top as int, before.last().push(added));
                    assert(self@ =~= after) by {
                        assert(self@.len() == after.len());
                        assert forall|f: int| 0 <= f < after.len() implies self@[f] =~= after[f] by {
                        }
                    }
                    assert forall|f: int| 0 <= f < after.len() implies frame_distinct(
                        #[trigger] after[f],
                    ) by {
                        if f == top {
                            lemma_find_none(before.last(), added.name);
                        } else {
                            assert(after[f] == before[f]);
                        }
                    }
                }
                Ok(())
            },
        }
    }
}

impl Default for SymbolTable {
    fn default() -> (r: Self)
        ensures
            r@ == empty_table(),
            r.wf(),
    {
        SymbolTable::new()
    }
}

/// A frame in which `name` is not found holds no symbol of that name.
pub proof fn lemma_find_none(frame: Seq<SpecSymbol>, name: Seq<char>)
    requires
        frame_find(frame, name) is None,
    ensures
        forall|i: int| 0 <= i < frame.len() ==> (#[trigger] frame[i]).name != name,
    decreases frame.len(),
{
    if frame.len() > 0 {
        lemma_find_none(frame.drop_last(), name);
        assert forall|i: int| 0 <= i < frame.len() implies (#[trigger] frame[i]).name != name by {
            if i < frame.len() - 1 {
                assert(frame.drop_last()[i] == frame[i]);
            }
        }
    }
}

/// Leaving a scope that was just entered gives the table back as it was.
pub proof fn lemma_enter_exit(t: SpecTable)
    requires
        table_wf(t),
    ensures
        table_exit(table_enter(t)) == t,
{
    assert(table_exit(table_enter(t)) =~~= t);
}

/// Defining a symbol touches the current frame only.
pub proof fn lemma_define_keeps_outer(
    t: SpecTable,
    name: Seq<char>,
    symbol_type: SpecSymbolType,
    mutable: bool,
)
    requires
        t.len() >= 2,
        table_define(t, name, symbol_type, mutable) is Ok,
    ensures
        table_define(t, name, symbol_type, mutable)->Ok_0.len() == t.len(),
        table_define(t, name, symbol_type, mutable)->Ok_0.drop_last() == t.drop_last(),
        table_exit(table_define(t, name, symbol_type, mutable)->Ok_0) == table_exit(t),
{
    let after = table_define(t, name, symbol_type, mutable)->Ok_0;
    assert(after.drop_last() =~~= t.drop_last());
}

/// A symbol found in a frame has the name asked for and is held by the frame.
pub proof fn lemma_find_some(frame: Seq<SpecSymbol>, name: Seq<char>)
    requires
        frame_find(frame, name) is Some,
    ensures
        frame_find(frame, name)->0.name == name,
        frame.contains(frame_find(frame, name)->0),
    decreases frame.len(),
{
    if frame.last().name == name {
        assert(frame[frame.len() - 1] == frame.last());
    } else {
        lemma_find_some(frame.drop_last(), name);
        let found = frame_find(frame.drop_last(), name)->0;
        let i = choose|i: int| 0 <= i < frame.drop_last().len() && frame.drop_last()[i] == found;
        assert(frame[i] == found);
    }
}

/// Leaving a scope undoes entering it and defining a symbol in it: the table
/// is again what it was before. So the symbol defined inside is no longer
/// found unless an outer scope holds its name, and every lookup gives what it
/// gave before the scope was entered.
pub proof fn lemma_exit_restores(
    t: SpecTable,
    name: Seq<char>,
    symbol_type: SpecSymbolType,
    mutable: bool,
)
    requires
        table_wf(t),
    ensures
        table_define(table_enter(t), name, symbol_type, mutable) is Ok,
        table_exit(table_define(table_enter(t), name, symbol_type, mutable)->Ok_0) == t,
        forall|other: Seq<char>|
            table_lookup(
                table_exit(table_define(table_enter(t), name, symbol_type, mutable)->Ok_0),
                other,
            ) == table_lookup(t, other),
{
    let inner = table_enter(t);
    assert(inner.last() =~= Seq::<SpecSymbol>::empty());
    let defined = table_define(inner, name, symbol_type, mutable)->Ok_0;
    assert(table_exit(defined) =~~= t);
}

/// A symbol that was just defined is the one that a lookup of its name finds,
/// at the current scope level.
pub proof fn lemma_define_then_lookup(
    t: SpecTable,
    name: Seq<char>,
    symbol_type: SpecSymbolType,
    mutable: bool,
)
    requires
        table_wf(t),
        table_define(t, name, symbol_type, mutable) is Ok,
    ensures
        table_lookup(table_define(t, name, symbol_type, mutable)->Ok_0, name) == Some(
            SpecSymbol { name, symbol_type, scope_level: (t.len() - 1) as usize, mutable },
        ),
{
    let after = table_define(t, name, symbol_type, mutable)->Ok_0;
    assert(after.last().last().name == name);
}

/// Shadowing: a lookup finds a symbol of the name asked for that no other
/// symbol of that name lies deeper than; it finds nothing only if no scope
/// holds the name.
pub proof fn lemma_lookup_innermost(t: SpecTable, name: Seq<char>)
    requires
        table_wf(t),
    ensures
        match table_lookup(t, name) {
            Some(s) => {
                &&& s.name == name
                &&& s.scope_level < t.len()
                &&& t[s.scope_level as int].contains(s)
                &&& forall|f: int, i: int|
                    0 <= f < t.len() && 0 <= i < t[f].len() && (#[trigger] t[f][i]).name == name
                        ==> f <= s.scope_level
            },
            None => forall|f: int, i: int|
                0 <= f < t.len() && 0 <= i < t[f].len() ==> (#[trigger] t[f][i]).name != name,
        },
    decreases t.len(),
{
    let top = t.len() - 1;
    match frame_find(t.last(), name) {
        Some(s) => {
            lemma_find_some(t.last(), name);
            let i = choose|i: int| 0 <= i < t.last().len() && t.last()[i] == s;
            assert(t[top][i] == s);
        },
        None => {
            lemma_find_none(t.last(), name);
            if t.len() > 1 {
                let rest = t.drop_last();
                assert(table_wf(rest)) by {
                    assert forall|f: int, i: int| 0 <= f < rest.len() && 0 <= i < rest[f].len()
                    implies (#[trigger] rest[f][i]).scope_level == f by {
                        assert(rest[f][i] == t[f][i]);
                    }
                    assert forall|f: int| 0 <= f < rest.len() implies frame_distinct(
                        #[trigger] rest[f],
                    ) by {
                        assert(rest[f] == t[f]);
                    }
                }
                lemma_lookup_innermost(rest, name);
                match table_lookup(rest, name) {
                    Some(s) => {
                        assert(t[s.scope_level as int] == rest[s.scope_level as int]);
                        assert forall|f: int, i: int|
                            0 <= f < t.len() && 0 <= i < t[f].len() && (#[trigger] t[f][i]).name
                                == name implies f <= s.scope_level by {
                            if f < top {
                                assert(rest[f][i] == t[f][i]);
                            }
                        }
                    },
                    None => {
                        assert forall|f: int, i: int|
                            0 <= f < t.len() && 0 <= i < t[f].len() implies (
                        #[trigger] t[f][i]).name != name by {
                            if f < top {
                                assert(rest[f][i] == t[f][i]);
                            }
                        }
                    },
                }
            } else {
                assert(table_lookup(t.drop_last(), name) is None);
            }
        },
    }
}

} // verus!
