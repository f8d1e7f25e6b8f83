//! What a visit may do to the table of scopes: it only ever grows.
//!
//! A visit opens scopes at the end of the table and records symbols; it
//! never removes a scope or a binding, and never replaces a binding by
//! anything but a function. This holds however the visit ends.

use vstd::prelude::*;
use crate::ast::{DeclarationView, IdentifierView, NodeView, TypeTokenView};
use crate::error::ErrorView;
use crate::model::{
    Visit,
    bind,
    check,
    check_list,
    check_list_unfolds,
    declared_type,
    entry_label,
    fails,
    first_param_error,
    function_scope,
    function_symbol,
    params_checked,
    variable_symbol,
    visit,
};
use crate::symbol::{ScopeView, SymbolView, fresh_scope, resolve, symbol_name};
use crate::types::{TypeValue, argument_type_of};

verus! {

/// Whether scope `b` is scope `a` grown: the same label, depth and
/// enclosing scope, every name of `a` still bound, and bound to the same
/// symbol unless a function took its place.
pub open spec fn scope_extends(a: ScopeView, b: ScopeView) -> bool {
    &&& a.name == b.name
    &&& a.level == b.level
    &&& a.enclosing == b.enclosing
    &&& forall|k: Seq<char>| #[trigger]
        a.symbols.contains_key(k) ==> b.symbols.contains_key(k) && (b.symbols[k] == a.symbols[k]
            || b.symbols[k] is Function)
}

/// Whether table `b` is table `a` grown: every scope of `a` is there under
/// its handle, grown, and new scopes come after them.
pub open spec fn extends(a: Seq<ScopeView>, b: Seq<ScopeView>) -> bool {
    &&& a.len() <= b.len()
    &&& forall|i: int| 0 <= i < a.len() ==> #[trigger] scope_extends(a[i], b[i])
}

/// A table is itself grown by nothing.
pub proof fn extends_is_reflexive(a: Seq<ScopeView>)
    ensures
        extends(a, a),
{
}

/// Growth composes.
pub proof fn extends_is_transitive(a: Seq<ScopeView>, b: Seq<ScopeView>, c: Seq<ScopeView>)
    requires
        extends(a, b),
        extends(b, c),
    ensures
        extends(a, c),
{
    assert forall|i: int| 0 <= i < a.len() implies #[trigger] scope_extends(a[i], c[i]) by {
        assert(scope_extends(a[i], b[i]));
        assert(scope_extends(b[i], c[i]));
        assert forall|k: Seq<char>| #[trigger] a[i].symbols.contains_key(k) implies c[i].symbols.contains_key(k)
            && (c[i].symbols[k] == a[i].symbols[k] || c[i].symbols[k] is Function) by {
            assert(b[i].symbols.contains_key(k));
        }
    }
}

/// Recording a symbol under a name that its scope does not bind yet, or
/// recording a function, grows the table.
pub proof fn binding_extends(scopes: Seq<ScopeView>, cur: int, sym: SymbolView)
    requires
        0 <= cur < scopes.len(),
        !scopes[cur].symbols.contains_key(symbol_name(sym)) || sym is Function,
    ensures
        extends(scopes, bind(scopes, cur, sym)),
{
    let after = bind(scopes, cur, sym);
    assert forall|i: int| 0 <= i < scopes.len() implies #[trigger] scope_extends(
        scopes[i],
        after[i],
    ) by {}
}

/// Opening a scope grows the table.
pub proof fn opening_extends(scopes: Seq<ScopeView>, opened: ScopeView)
    ensures
        extends(scopes, scopes.push(opened)),
{
    let after = scopes.push(opened);
    assert forall|i: int| 0 <= i < scopes.len() implies #[trigger] scope_extends(
        scopes[i],
        after[i],
    ) by {}
}

/// A name that resolves from a scope still resolves from it in any table
/// grown from this one.
pub proof fn resolution_persists(
    before: Seq<ScopeView>,
    after: Seq<ScopeView>,
    scope: int,
    name: Seq<char>,
)
    requires
        extends(before, after),
        resolve(before, scope, name) is Some,
    ensures
        resolve(after, scope, name) is Some,
    decreases scope,
{
    assert(0 <= scope < before.len());
    assert(scope_extends(before[scope], after[scope]));
    if before[scope].symbols.contains_key(name) {
        assert(after[scope].symbols.contains_key(name));
    } else {
        match before[scope].enclosing {
            Some(p) => {
                resolution_persists(before, after, p as int, name);
            },
            None => {},
        }
    }
}

/// A visit of a node grows the table, however it ends.
pub proof fn check_extends(scopes: Seq<ScopeView>, cur: int, n: NodeView)
    requires
        0 <= cur < scopes.len(),
    ensures
        extends(scopes, check(scopes, cur, n).scopes),
    decreases n, 0nat,
{
    reveal(check);
    reveal(check_list);
    extends_is_reflexive(scopes);
    match n {
        NodeView::Entry { global_declarations, entry_block } => {
            list_extends(scopes, cur, global_declarations, 0, Seq::empty(), Seq::empty(), Visit::Statement);
            let ds = check_list(scopes, cur, global_declarations, 0, Seq::empty(), Seq::empty(), Visit::Statement);
            if ds.error is None {
                check_extends(ds.scopes, cur, *entry_block);
                extends_is_transitive(scopes, ds.scopes, check(ds.scopes, cur, *entry_block).scopes);
            }
        },
        NodeView::Block { declarations, compound_statement } => {
            list_extends(scopes, cur, declarations, 0, Seq::empty(), Seq::empty(), Visit::Statement);
            let ds = check_list(scopes, cur, declarations, 0, Seq::empty(), Seq::empty(), Visit::Statement);
            if ds.error is None {
                check_extends(ds.scopes, cur, *compound_statement);
                extends_is_transitive(
                    scopes,
                    ds.scopes,
                    check(ds.scopes, cur, *compound_statement).scopes,
                );
            }
        },
        NodeView::EntryBlock { declarations, compound_statement } => {
            let scope = fresh_scope(scopes, entry_label(), Some(cur as usize));
            let opened = scopes.push(scope);
            let inner = scopes.len() as int;
            opening_extends(scopes, scope);
            list_extends(opened, inner, declarations, 0, Seq::empty(), Seq::empty(), Visit::Statement);
            let ds = check_list(opened, inner, declarations, 0, Seq::empty(), Seq::empty(), Visit::Statement);
            extends_is_transitive(scopes, opened, ds.scopes);
            if ds.error is None {
                check_extends(ds.scopes, inner, *compound_statement);
                extends_is_transitive(
                    scopes,
                    ds.scopes,
                    check(ds.scopes, inner, *compound_statement).scopes,
                );
            }
        },
        NodeView::Declaration(d) => {
            match d.identifier {
                IdentifierView::Id(name) => {
                    if resolve(scopes, cur, name) is None && declared_type(scopes, cur, d.token) is Ok {
                        let b = declared_type(scopes, cur, d.token)->Ok_0;
                        binding_extends(scopes, cur, variable_symbol(name, b));
                    }
                },
                _ => {},
            }
        },
        NodeView::IdentIndex { identifier, index } => {
            check_extends(scopes, cur, *index);
        },
        NodeView::BinOp { left, operator, right } => {
            check_extends(scopes, cur, *left);
            let l = check(scopes, cur, *left);
            if l.result is Ok {
                check_extends(l.scopes, cur, *right);
                extends_is_transitive(scopes, l.scopes, check(l.scopes, cur, *right).scopes);
            }
        },
        NodeView::UnaryOp { operator, expr } => {
            check_extends(scopes, cur, *expr);
        },
        NodeView::Compound(children) => {
            list_extends(scopes, cur, children, 0, Seq::empty(), Seq::empty(), Visit::Statement);
        },
        NodeView::Assign { identifier, expr } => {
            check_extends(scopes, cur, *expr);
        },
        NodeView::MultiAssign { identifier, call } => {
            list_extends(scopes, cur, identifier, 0, Seq::empty(), Seq::empty(), Visit::Target);
            let ts = check_list(scopes, cur, identifier, 0, Seq::empty(), Seq::empty(), Visit::Target);
            if ts.error is None {
                check_extends(ts.scopes, cur, *call);
                extends_is_transitive(scopes, ts.scopes, check(ts.scopes, cur, *call).scopes);
            }
        },
        NodeView::Cond { condition, consequences, alternatives } => {
            check_extends(scopes, cur, *condition);
            let c = check(scopes, cur, *condition);
            if c.result is Ok {
                list_extends(c.scopes, cur, consequences, 0, Seq::empty(), Seq::empty(), Visit::Statement);
            let yes = check_list(c.scopes, cur, consequences, 0, Seq::empty(), Seq::empty(), Visit::Statement);
                extends_is_transitive(scopes, c.scopes, yes.scopes);
                if yes.error is None {
                    list_extends(yes.scopes, cur, alternatives, 0, Seq::empty(), Seq::empty(), Visit::Statement);
            let no = check_list(yes.scopes, cur, alternatives, 0, Seq::empty(), Seq::empty(), Visit::Statement);
                    extends_is_transitive(scopes, yes.scopes, no.scopes);
                }
            }
        },
        NodeView::Loop { condition, consequences } => {
            check_extends(scopes, cur, *condition);
            let c = check(scopes, cur, *condition);
            if c.result is Ok {
                list_extends(c.scopes, cur, consequences, 0, Seq::empty(), Seq::empty(), Visit::Statement);
            let body = check_list(c.scopes, cur, consequences, 0, Seq::empty(), Seq::empty(), Visit::Statement);
                extends_is_transitive(scopes, c.scopes, body.scopes);
            }
        },
        NodeView::Function { func_name, params, block, body } => {
            match func_name {
                IdentifierView::Id(name) => {
                    if first_param_error(scopes, cur, params, 0) is None {
                        let ps = params_checked(scopes, cur, params);
                        let registered = bind(scopes, cur, function_symbol(name, ps, body));
                        binding_extends(scopes, cur, function_symbol(name, ps, body));
                        let scope = function_scope(registered, cur, name, ps);
                        let opened = registered.push(scope);
                        opening_extends(registered, scope);
                        extends_is_transitive(scopes, registered, opened);
                        check_extends(opened, scopes.len() as int, *block);
                        extends_is_transitive(
                            scopes,
                            opened,
                            check(opened, scopes.len() as int, *block).scopes,
                        );
                    }
                },
                _ => {},
            }
        },
        NodeView::Call { func_name, actual_params, func_symbol } => {
            list_extends(
                scopes,
                cur,
                actual_params,
                0,
                Seq::empty(),
                Seq::empty(),
                Visit::Statement,
            );
        },
        NodeView::Return(values) => {
            list_extends(scopes, cur, values, 0, Seq::empty(), Seq::empty(), Visit::Returned);
        },
        NodeView::Sqrt(value) => {
            check_extends(scopes, cur, *value);
        },
        NodeView::Malloc(size) => {
            check_extends(scopes, cur, *size);
        },
        NodeView::Printf { flag, val_addr } => {
            check_extends(scopes, cur, *flag);
            let f = check(scopes, cur, *flag);
            if f.result is Ok {
                check_extends(f.scopes, cur, *val_addr);
                extends_is_transitive(scopes, f.scopes, check(f.scopes, cur, *val_addr).scopes);
            }
        },
        _ => {},
    }
}

/// A visit of one element of a list grows the table, however it ends.
pub proof fn visit_extends(scopes: Seq<ScopeView>, cur: int, n: NodeView, how: Visit)
    requires
        0 <= cur < scopes.len(),
    ensures
        extends(scopes, visit(scopes, cur, n, how).scopes),
    decreases n, 1nat,
{
    reveal(visit);
    reveal(check);
    extends_is_reflexive(scopes);
    check_extends(scopes, cur, n);
}

/// A visit of a list grows the table, however it ends.
pub proof fn list_extends(
    scopes: Seq<ScopeView>,
    cur: int,
    ns: Seq<NodeView>,
    i: int,
    done: Seq<NodeView>,
    types: Seq<TypeValue>,
    how: Visit,
)
    requires
        0 <= cur < scopes.len(),
    ensures
        extends(scopes, check_list(scopes, cur, ns, i, done, types, how).scopes),
    decreases ns, ns.len() - i,
{
    check_list_unfolds(scopes, cur, ns, i, done, types, how);
    extends_is_reflexive(scopes);
    if 0 <= i < ns.len() {
        visit_extends(scopes, cur, ns[i], how);
        let c = visit(scopes, cur, ns[i], how);
        match c.result {
            Ok(t) => {
                list_extends(
                    c.scopes,
                    cur,
                    ns,
                    i + 1,
                    done.push(c.node),
                    types.push(argument_type_of(t)),
                    how,
                );
                extends_is_transitive(
                    scopes,
                    c.scopes,
                    check_list(
                        c.scopes,
                        cur,
                        ns,
                        i + 1,
                        done.push(c.node),
                        types.push(argument_type_of(t)),
                        how,
                    ).scopes,
                );
            },
            Err(_) => {},
        }
    }
}

/// A name that resolves from the current scope still does after any visit,
/// however it ends, so that a later declaration of it fails as a duplicate.
pub proof fn declared_name_stays_declared(
    scopes: Seq<ScopeView>,
    cur: int,
    n: NodeView,
    name: Seq<char>,
    token: TypeTokenView,
)
    requires
        resolve(scopes, cur, name) is Some,
    ensures
        resolve(check(scopes, cur, n).scopes, cur, name) is Some,
        check(
            check(scopes, cur, n).scopes,
            cur,
            NodeView::Declaration(DeclarationView { identifier: IdentifierView::Id(name), token }),
        ) == fails(
            check(scopes, cur, n).scopes,
            NodeView::Declaration(DeclarationView { identifier: IdentifierView::Id(name), token }),
            ErrorView::DuplicateDeclaration(name),
        ),
{
    check_extends(scopes, cur, n);
    resolution_persists(scopes, check(scopes, cur, n).scopes, cur, name);
    reveal(check);
}

} // verus!
