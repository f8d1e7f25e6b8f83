//! Symbols and the table of lexical scopes that holds them.
//!
//! The table is an arena: a scope is named by its handle, the index at which
//! it was opened, and refers to its enclosing scope by that scope's handle,
//! which is always smaller than its own.

use vstd::prelude::*;
use vstd::string::*;
use crate::error::{ErrorView, SemaError};
use crate::types::{BuiltinType, ScalarType};

verus! {

/// The handle under which a function's body is known to later stages.
#[derive(Clone, Copy, Debug, PartialEq, Eq, Structural)]
pub struct BodyHandle(pub usize);

/// A formal parameter of a function: its name and declared type.
#[derive(Debug, PartialEq, Eq)]
pub struct Param {
    pub name: String,
    pub ty: BuiltinType,
}

/// The mathematical model of a `Param`.
pub struct ParamView {
    pub name: Seq<char>,
    pub ty: BuiltinType,
}

impl View for Param {
    type V = ParamView;

    open spec fn view(&self) -> ParamView {
        ParamView { name: self.name@, ty: self.ty }
    }
}

impl Clone for Param {
    fn clone(&self) -> (r: Self)
        ensures
            r@ == self@,
    {
        Param { name: self.name.clone(), ty: self.ty }
    }
}

/// A named entity that a scope records.
#[derive(Debug, PartialEq, Eq)]
pub enum Symbol {
    /// The name of a builtin scalar type, registered when a scope is opened.
    Builtin(ScalarType),
    /// A declared value: `array_len` is present exactly where it is an array,
    /// and `ty` is then the type of its elements.
    Variable { name: String, ty: ScalarType, array_len: Option<usize> },
    /// A function: its parameters in order and the handle of its body.
    Function { name: String, params: Vec<Param>, body: BodyHandle },
}

/// The mathematical model of a `Symbol`.
pub enum SymbolView {
    Builtin(ScalarType),
    Variable { name: Seq<char>, ty: ScalarType, array_len: Option<usize> },
    Function { name: Seq<char>, params: Seq<ParamView>, body: BodyHandle },
}

/// The models of a sequence of parameters, in order.
pub open spec fn params_view(ps: Seq<Param>) -> Seq<ParamView> {
    ps.map_values(|p: Param| p@)
}

impl View for Symbol {
    type V = SymbolView;

    open spec fn view(&self) -> SymbolView {
        match self {
            Symbol::Builtin(s) => SymbolView::Builtin(*s),
            Symbol::Variable { name, ty, array_len } => SymbolView::Variable {
                name: name@,
                ty: *ty,
                array_len: *array_len,
            },
            Symbol::Function { name, params, body } => SymbolView::Function {
                name: name@,
                params: params_view(params@),
                body: *body,
            },
        }
    }
}

/// The name under which a scalar builtin type is registered.
pub open spec fn scalar_name(s: ScalarType) -> Seq<char> {
    match s {
        ScalarType::Felt => "felt"@,
        ScalarType::I32 => "i32"@,
    }
}

/// The name under which a symbol is recorded in a scope.
pub open spec fn symbol_name(s: SymbolView) -> Seq<char> {
    match s {
        SymbolView::Builtin(t) => scalar_name(t),
        SymbolView::Variable { name, .. } => name,
        SymbolView::Function { name, .. } => name,
    }
}

/// Whether a symbol is a variable declared as an array.
pub open spec fn is_array_variable(s: SymbolView) -> bool {
    s matches SymbolView::Variable { array_len, .. } && array_len is Some
}

/// The model of an optional symbol.
pub open spec fn symbol_option_view(s: Option<Symbol>) -> Option<SymbolView> {
    match s {
        Some(sym) => Some(sym@),
        None => None,
    }
}

/// A copy of a parameter list, parameter by parameter.
pub fn clone_params(ps: &Vec<Param>) -> (r: Vec<Param>)
    ensures
        params_view(r@) == params_view(ps@),
{
    let mut out: Vec<Param> = Vec::new();
    let mut i: usize = 0;
    while i < ps.len()
        invariant
            i <= ps.len(),
            out@.len() == i,
            forall|j: int| 0 <= j < i ==> out@[j]@ == ps@[j]@,
        decreases ps.len() - i,
    {
        out.push(ps[i].clone());
        i = i + 1;
    }
    assert(params_view(out@) =~= params_view(ps@));
    out
}

impl Clone for Symbol {
    fn clone(&self) -> (r: Self)
        ensures
            r@ == self@,
    {
        match self {
            Symbol::Builtin(s) => Symbol::Builtin(*s),
            Symbol::Variable { name, ty, array_len } => Symbol::Variable {
                name: name.clone(),
                ty: *ty,
                array_len: *array_len,
            },
            Symbol::Function { name, params, body } => Symbol::Function {
                name: name.clone(),
                params: clone_params(params),
                body: *body,
            },
        }
    }
}

impl Symbol {
    /// The name under which this symbol is recorded.
    pub fn name(&self) -> (r: String)
        ensures
            r@ == symbol_name(self@),
    {
        match self {
            Symbol::Builtin(ScalarType::Felt) => String::from_str("felt"),
            Symbol::Builtin(ScalarType::I32) => String::from_str("i32"),
            Symbol::Variable { name, .. } => name.clone(),
            Symbol::Function { name, .. } => name.clone(),
        }
    }

    /// Whether this symbol is a variable declared as an array.
    pub fn is_array(&self) -> (b: bool)
        ensures
            b == is_array_variable(self@),
    {
        match self {
            Symbol::Variable { array_len, .. } => array_len.is_some(),
            _ => false,
        }
    }
}

/// The mathematical model of one scope: its label, its nesting depth, the
/// handle of its enclosing scope, and its bindings.
pub struct ScopeView {
    pub name: Seq<char>,
    pub level: usize,
    pub enclosing: Option<usize>,
    pub symbols: Map<Seq<char>, SymbolView>,
}

/// The bindings that every scope starts with: the names of the builtin
/// scalar types.
pub open spec fn builtin_symbols() -> Map<Seq<char>, SymbolView> {
    Map::<Seq<char>, SymbolView>::empty().insert(
        scalar_name(ScalarType::Felt),
        SymbolView::Builtin(ScalarType::Felt),
    ).insert(scalar_name(ScalarType::I32), SymbolView::Builtin(ScalarType::I32))
}

/// A scope with one more binding; a binding of the same name is replaced.
pub open spec fn with_symbol(s: ScopeView, sym: SymbolView) -> ScopeView {
    ScopeView { symbols: s.symbols.insert(symbol_name(sym), sym), ..s }
}

/// A scope after the symbols `syms` were recorded in it, in order.
pub open spec fn bound_all(s: ScopeView, syms: Seq<SymbolView>) -> ScopeView
    decreases syms.len(),
{
    if syms.len() == 0 {
        s
    } else {
        with_symbol(bound_all(s, syms.drop_last()), syms.last())
    }
}

/// The models of a sequence of symbols, in order.
pub open spec fn symbols_view(syms: Seq<Symbol>) -> Seq<SymbolView> {
    syms.map_values(|s: Symbol| s@)
}

/// A scope with no bindings at all.
pub open spec fn without_symbols(s: ScopeView) -> ScopeView {
    ScopeView { symbols: Map::empty(), ..s }
}

/// The depth that a scope opened under `enclosing` has: 1 for a root, one
/// more than the enclosing scope's depth otherwise.
pub open spec fn depth_under(scopes: Seq<ScopeView>, enclosing: Option<usize>) -> int {
    match enclosing {
        Some(p) => scopes[p as int].level + 1,
        None => 1,
    }
}

/// The scope that `open_scope` adds to the table `scopes`.
pub open spec fn fresh_scope(
    scopes: Seq<ScopeView>,
    label: Seq<char>,
    enclosing: Option<usize>,
) -> ScopeView {
    ScopeView {
        name: label,
        level: depth_under(scopes, enclosing) as usize,
        enclosing,
        symbols: builtin_symbols(),
    }
}

/// The table's invariant: a root scope has depth 1; any other scope was
/// opened after its enclosing scope and lies one level deeper.
pub open spec fn well_formed(scopes: Seq<ScopeView>) -> bool {
    forall|i: int| 0 <= i < scopes.len() ==> #[trigger] well_placed(scopes, i)
}

/// The table's invariant for the scope with handle `i`.
pub open spec fn well_placed(scopes: Seq<ScopeView>, i: int) -> bool {
    match scopes[i].enclosing {
        Some(p) => p < i && scopes[i].level == scopes[p as int].level + 1,
        None => scopes[i].level == 1,
    }
}

/// Name resolution: the binding of `name` in `scope`, else in the scope that
/// encloses it, and so on up to a root; `None` where no scope of the chain
/// binds the name.
pub open spec fn resolve(scopes: Seq<ScopeView>, scope: int, name: Seq<char>) -> Option<
    SymbolView,
>
    decreases scope,
{
    if 0 <= scope < scopes.len() {
        if scopes[scope].symbols.contains_key(name) {
            Some(scopes[scope].symbols[name])
        } else {
            match scopes[scope].enclosing {
                Some(p) => if p < scope {
                    resolve(scopes, p as int, name)
                } else {
                    None
                },
                None => None,
            }
        }
    } else {
        None
    }
}

/// The builtin type that a type token names in `scope`, or the internal
/// error that its resolution ends in.
pub open spec fn resolved_builtin(scopes: Seq<ScopeView>, scope: int, token: Seq<char>) -> Result<
    ScalarType,
    ErrorView,
> {
    match resolve(scopes, scope, token) {
        Some(SymbolView::Builtin(s)) => Ok(s),
        Some(_) => Err(ErrorView::UnexpectedSymbol(token)),
        None => Err(ErrorView::UnknownBuiltin(token)),
    }
}

/// In a well-formed table a scope's depth is at most one more than its handle.
pub proof fn depth_is_bounded(scopes: Seq<ScopeView>, i: int)
    requires
        well_formed(scopes),
        0 <= i < scopes.len(),
    ensures
        1 <= scopes[i].level <= i + 1,
    decreases i,
{
    assert(well_placed(scopes, i));
    match scopes[i].enclosing {
        Some(p) => {
            depth_is_bounded(scopes, p as int);
        },
        None => {},
    }
}

#[derive(Clone, Debug)]
struct Entry {
    name: String,
    symbol: Symbol,
}

/// One lexical scope. Bindings are kept in the order in which they were
/// made; the latest binding of a name is the one in force.
#[derive(Clone, Debug)]
pub struct Scope {
    scope_name: String,
    scope_level: usize,
    enclosing_scope: Option<usize>,
    entries: Vec<Entry>,
}

spec fn entries_map(es: Seq<Entry>) -> Map<Seq<char>, SymbolView>
    decreases es.len(),
{
    if es.len() == 0 {
        Map::empty()
    } else {
        entries_map(es.drop_last()).insert(es.last().name@, es.last().symbol@)
    }
}

impl View for Scope {
    type V = ScopeView;

    closed spec fn view(&self) -> ScopeView {
        ScopeView {
            name: self.scope_name@,
            level: self.scope_level,
            enclosing: self.enclosing_scope,
            symbols: entries_map(self.entries@),
        }
    }
}

impl Scope {
    fn new(label: String, level: usize, enclosing: Option<usize>) -> (s: Scope)
        ensures
            s@ == (ScopeView {
                name: label@,
                level,
                enclosing,
                symbols: builtin_symbols(),
            }),
    {
        let mut entries: Vec<Entry> = Vec::new();
        entries.push(Entry { name: String::from_str("felt"), symbol: Symbol::Builtin(ScalarType::Felt) });
        entries.push(Entry { name: String::from_str("i32"), symbol: Symbol::Builtin(ScalarType::I32) });
        proof {
            let es = entries@;
            assert(es.drop_last().drop_last() =~= Seq::<Entry>::empty());
            assert(entries_map(es.drop_last().drop_last()) == Map::<Seq<char>, SymbolView>::empty());
            assert(entries_map(es.drop_last()) == Map::<Seq<char>, SymbolView>::empty().insert(
                "felt"@,
                SymbolView::Builtin(ScalarType::Felt),
            ));
        }
        Scope { scope_name: label, scope_level: level, enclosing_scope: enclosing, entries }
    }

    fn find(&self, name: &String) -> (r: Option<usize>)
        ensures
            match r {
                Some(i) => i < self.entries@.len() && self@.symbols.contains_key(name@)
                    && self@.symbols[name@] == self.entries@[i as int].symbol@,
                None => !self@.symbols.contains_key(name@),
            },
    {
        let mut i: usize = self.entries.len();
        assert(self.entries@.take(i as int) =~= self.entries@);
        while i > 0
            invariant
                i <= self.entries@.len(),
                entries_map(self.entries@).contains_key(name@) == entries_map(
                    self.entries@.take(i as int),
                ).contains_key(name@),
                entries_map(self.entries@).contains_key(name@) ==> entries_map(self.entries@)[name@]
                    == entries_map(self.entries@.take(i as int))[name@],
            decreases i,
        {
            let ghost prefix = self.entries@.take(i as int);
            proof {
                assert(prefix.drop_last() =~= self.entries@.take(i - 1));
                assert(prefix.last() == self.entries@[i - 1]);
            }
            if self.entries[i - 1].name == *name {
                return Some(i - 1);
            }
            i = i - 1;
        }
        proof {
            assert(self.entries@.take(0) =~= Seq::<Entry>::empty());
        }
        None
    }
}

/// The table of all scopes opened so far.
#[derive(Clone, Debug)]
pub struct SymbolTable {
    scopes: Vec<Scope>,
}

impl View for SymbolTable {
    type V = Seq<ScopeView>;

    closed spec fn view(&self) -> Seq<ScopeView> {
        self.scopes@.map_values(|s: Scope| s@)
    }
}

impl SymbolTable {
    /// A table without scopes.
    pub fn new() -> (t: SymbolTable)
        ensures
            t@ == Seq::<ScopeView>::empty(),
    {
        let t = SymbolTable { scopes: Vec::new() };
        assert(t@ =~= Seq::<ScopeView>::empty());
        t
    }

    /// The number of scopes opened so far.
    pub fn len(&self) -> (n: usize)
        ensures
            n == self@.len(),
    {
        self.scopes.len()
    }

    /// Opens a scope labelled `label` under `enclosing`, or as a root where
    /// there is none, with the builtin type names as its first bindings, and
    /// returns its handle.
    pub fn open_scope(&mut self, label: String, enclosing: Option<usize>) -> (id: usize)
        requires
            well_formed(old(self)@),
            enclosing matches Some(p) ==> p < old(self)@.len(),
        ensures
            id == old(self)@.len(),
            final(self)@ == old(self)@.push(fresh_scope(old(self)@, label@, enclosing)),
            depth_under(old(self)@, enclosing) <= usize::MAX,
            well_formed(final(self)@),
    {
        let id: usize = self.scopes.len();
        let mut scope = Scope::new(label, 1, enclosing);
        match enclosing {
            Some(p) => {
                // The enclosing scope's depth is at most `p + 1`, and one more
                // scope fits in the table only if `id + 1` is a `usize`.
                self.scopes.push(scope);
                proof {
                    depth_is_bounded(old(self)@, p as int);
                    assert(self.scopes@[p as int]@ == old(self)@[p as int]);
                    assert(self.scopes@[p as int].scope_level == old(self)@[p as int].level);
                    assert(self.scopes.len() == id + 1);
                }
                let level: usize = self.scopes[p].scope_level + 1;
                let opened = self.scopes.pop();
                scope = opened.unwrap();
                scope.scope_level = level;
            },
            None => {},
        }
        assert(self.scopes@ =~= old(self).scopes@);
        assert(scope@ == fresh_scope(old(self)@, label@, enclosing));
        self.scopes.push(scope);
        assert(self@ =~= old(self)@.push(fresh_scope(old(self)@, label@, enclosing)));
        assert forall|i: int| 0 <= i < self@.len() implies #[trigger] well_placed(self@, i) by {
            if i < id {
                assert(well_placed(old(self)@, i));
            }
        }
        id
    }

    /// Opens a scope labelled `label` of depth `depth` under `enclosing`, and
    /// returns its handle, where the depth is the one that such a scope has:
    /// 1 for a root, one more than the enclosing scope's depth otherwise.
    /// With any other depth, or under a scope that the table does not hold,
    /// nothing is opened.
    pub fn new_scope(&mut self, label: String, depth: usize, enclosing: Option<usize>) -> (r:
        Option<usize>)
        requires
            well_formed(old(self)@),
        ensures
            well_formed(final(self)@),
            r is Some <==> ((enclosing matches Some(p) ==> p < old(self)@.len()) && depth
                == depth_under(old(self)@, enclosing)),
            match r {
                Some(id) => id == old(self)@.len() && final(self)@ == old(self)@.push(
                    fresh_scope(old(self)@, label@, enclosing),
                ),
                None => final(self)@ == old(self)@,
            },
    {
        let fits = match enclosing {
            Some(p) => p < self.scopes.len() && depth >= 1 && depth - 1
                == self.scope_level(p),
            None => depth == 1,
        };
        if fits {
            Some(self.open_scope(label, enclosing))
        } else {
            None
        }
    }

    /// Records `symbol` in `scope` under the symbol's own name. A binding of
    /// that name made earlier in the same scope is replaced; other scopes are
    /// not touched.
    pub fn insert(&mut self, scope: usize, symbol: Symbol)
        requires
            scope < old(self)@.len(),
        ensures
            final(self)@ == old(self)@.update(
                scope as int,
                with_symbol(old(self)@[scope as int], symbol@),
            ),
            well_formed(old(self)@) ==> well_formed(final(self)@),
    {
        let name = symbol.name();
        let ghost before = self.scopes@[scope as int];
        self.scopes[scope].entries.push(Entry { name, symbol });
        proof {
            let after = self.scopes@[scope as int];
            assert(after.entries@.drop_last() =~= before.entries@);
            assert(after@ == with_symbol(before@, symbol@));
            assert(self@ =~= old(self)@.update(
                scope as int,
                with_symbol(old(self)@[scope as int], symbol@),
            ));
            assert forall|i: int| 0 <= i < self@.len() && well_formed(old(self)@) implies #[trigger] well_placed(
                self@,
                i,
            ) by {
                assert(well_placed(old(self)@, i));
            }
        }
    }

    /// Records copies of the symbols `symbols` in `scope`, in order, each
    /// under its own name.
    pub fn insert_all(&mut self, scope: usize, symbols: &Vec<Symbol>)
        requires
            scope < old(self)@.len(),
        ensures
            final(self)@ == old(self)@.update(
                scope as int,
                bound_all(old(self)@[scope as int], symbols_view(symbols@)),
            ),
            well_formed(old(self)@) ==> well_formed(final(self)@),
    {
        let ghost all = symbols_view(symbols@);
        let ghost start = self@[scope as int];
        let mut i: usize = 0;
        assert(self@ =~= old(self)@.update(scope as int, bound_all(start, all.take(0))));
        while i < symbols.len()
            invariant
                i <= symbols.len(),
                scope < old(self)@.len(),
                all == symbols_view(symbols@),
                start == old(self)@[scope as int],
                self@ == old(self)@.update(scope as int, bound_all(start, all.take(i as int))),
                well_formed(old(self)@) ==> well_formed(self@),
            decreases symbols.len() - i,
        {
            let ghost before = self@;
            self.insert(scope, symbols[i].clone());
            proof {
                assert(all.take(i + 1).drop_last() =~= all.take(i as int));
                assert(all.take(i + 1).last() == symbols@[i as int]@);
                assert(self@ =~= old(self)@.update(
                    scope as int,
                    bound_all(start, all.take(i + 1)),
                ));
            }
            i = i + 1;
        }
        assert(all.take(i as int) =~= all);
    }

    /// Removes every binding of `scope`, the builtin type names included.
    pub fn clear(&mut self, scope: usize)
        requires
            scope < old(self)@.len(),
        ensures
            final(self)@ == old(self)@.update(scope as int, without_symbols(old(self)@[scope as int])),
            well_formed(old(self)@) ==> well_formed(final(self)@),
    {
        self.scopes[scope].entries.clear();
        proof {
            assert(self@ =~= old(self)@.update(
                scope as int,
                without_symbols(old(self)@[scope as int]),
            ));
            assert forall|i: int| 0 <= i < self@.len() && well_formed(old(self)@) implies #[trigger] well_placed(
                self@,
                i,
            ) by {
                assert(well_placed(old(self)@, i));
            }
        }
    }

    fn locate(&self, scope: usize, name: &String) -> (r: Option<(usize, usize)>)
        ensures
            match r {
                Some((s, e)) => s < self.scopes@.len() && e < self.scopes@[s as int].entries@.len()
                    && resolve(self@, scope as int, name@) == Some(
                    self.scopes@[s as int].entries@[e as int].symbol@,
                ),
                None => resolve(self@, scope as int, name@) is None,
            },
    {
        let mut cur: usize = scope;
        while cur < self.scopes.len()
            invariant
                resolve(self@, scope as int, name@) == resolve(self@, cur as int, name@),
            decreases cur,
        {
            assert(self@[cur as int] == self.scopes@[cur as int]@);
            match self.scopes[cur].find(name) {
                Some(e) => {
                    return Some((cur, e));
                },
                None => {},
            }
            match self.scopes[cur].enclosing_scope {
                Some(p) => {
                    if p < cur {
                        cur = p;
                    } else {
                        return None;
                    }
                },
                None => {
                    return None;
                },
            }
        }
        None
    }

    /// Whether `name` resolves from `scope`: in that scope or in one of the
    /// scopes that enclose it.
    pub fn is_declared(&self, scope: usize, name: &String) -> (b: bool)
        ensures
            b == (resolve(self@, scope as int, name@) is Some),
    {
        self.locate(scope, name).is_some()
    }

    /// The symbol that `name` resolves to from `scope`, by reference.
    pub fn find(&self, scope: usize, name: &String) -> (r: Option<&Symbol>)
        ensures
            match r {
                Some(sym) => resolve(self@, scope as int, name@) == Some(sym@),
                None => resolve(self@, scope as int, name@) is None,
            },
    {
        match self.locate(scope, name) {
            Some((s, e)) => Some(&self.scopes[s].entries[e].symbol),
            None => None,
        }
    }

    /// A copy of the symbol that `name` resolves to from `scope`: the binding
    /// in that scope, else the one in the nearest enclosing scope that has
    /// one, else `None`.
    pub fn lookup(&self, scope: usize, name: &String) -> (r: Option<Symbol>)
        ensures
            symbol_option_view(r) == resolve(self@, scope as int, name@),
    {
        match self.find(scope, name) {
            Some(sym) => Some(sym.clone()),
            None => None,
        }
    }

    /// The builtin type that the type token `token` names from `scope`. A
    /// token that resolves to nothing, or to a symbol that is no builtin
    /// type, is an internal error.
    pub fn resolve_builtin(&self, scope: usize, token: &String) -> (r: Result<ScalarType, SemaError>)
        ensures
            match r {
                Ok(s) => resolved_builtin(self@, scope as int, token@) == Ok::<ScalarType, ErrorView>(s),
                Err(e) => resolved_builtin(self@, scope as int, token@) == Err::<ScalarType, ErrorView>(e@),
            },
    {
        match self.find(scope, token) {
            Some(Symbol::Builtin(s)) => Ok(*s),
            Some(_) => Err(SemaError::UnexpectedSymbol(token.clone())),
            None => Err(SemaError::UnknownBuiltin(token.clone())),
        }
    }

    /// The label of `scope`.
    pub fn scope_name(&self, scope: usize) -> (r: String)
        requires
            scope < self@.len(),
        ensures
            r@ == self@[scope as int].name,
    {
        self.scopes[scope].scope_name.clone()
    }

    /// The nesting depth of `scope`: 1 for a root.
    pub fn scope_level(&self, scope: usize) -> (r: usize)
        requires
            scope < self@.len(),
        ensures
            r == self@[scope as int].level,
    {
        self.scopes[scope].scope_level
    }

    /// The handle of the scope that encloses `scope`, if any.
    pub fn enclosing_scope(&self, scope: usize) -> (r: Option<usize>)
        requires
            scope < self@.len(),
        ensures
            r == self@[scope as int].enclosing,
    {
        self.scopes[scope].enclosing_scope
    }
}

} // verus!
