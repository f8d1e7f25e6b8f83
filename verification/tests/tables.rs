use ola_sema::error::SemaError;
use ola_sema::symbol::{BodyHandle, Param, Symbol, SymbolTable};
use ola_sema::types::{BuiltinType, Literal, ScalarType, TraversalResult, TypeValue};

fn s(text: &str) -> String {
    text.to_string()
}

fn variable(name: &str, ty: ScalarType, array_len: Option<usize>) -> Symbol {
    Symbol::Variable { name: s(name), ty, array_len }
}

#[test]
fn promotion_takes_the_higher_rank() {
    let array_i32 = TypeValue::Array(ScalarType::I32, 2);
    let array_felt = TypeValue::Array(ScalarType::Felt, 2);
    assert_eq!(TypeValue::Nil.promote(TypeValue::Nil), TypeValue::Nil);
    assert_eq!(TypeValue::Nil.promote(TypeValue::I32), TypeValue::I32);
    assert_eq!(TypeValue::I32.promote(TypeValue::I32), TypeValue::I32);
    assert_eq!(TypeValue::I32.promote(TypeValue::Felt), TypeValue::Felt);
    assert_eq!(TypeValue::Felt.promote(TypeValue::I32), TypeValue::Felt);
    assert_eq!(TypeValue::Felt.promote(TypeValue::Felt), TypeValue::Felt);
    assert_eq!(array_i32.promote(TypeValue::Nil), TypeValue::I32);
    assert_eq!(array_i32.promote(array_felt), TypeValue::Felt);
    assert_eq!(TypeValue::Nil.promote(array_felt), TypeValue::Felt);
}

#[test]
fn promotion_does_not_depend_on_the_order() {
    let all = [
        TypeValue::Nil,
        TypeValue::I32,
        TypeValue::Felt,
        TypeValue::Array(ScalarType::I32, 3),
        TypeValue::Array(ScalarType::Felt, 1),
    ];
    for a in all.iter() {
        for b in all.iter() {
            assert_eq!(a.promote(*b), b.promote(*a));
        }
    }
}

#[test]
fn type_values_of_builtins_and_literals() {
    assert_eq!(TypeValue::of_scalar(ScalarType::Felt), TypeValue::Felt);
    assert_eq!(TypeValue::of_scalar(ScalarType::I32), TypeValue::I32);
    assert_eq!(TypeValue::of_builtin(BuiltinType::Scalar(ScalarType::I32)), TypeValue::I32);
    assert_eq!(
        TypeValue::of_builtin(BuiltinType::Array(ScalarType::Felt, 4)),
        TypeValue::Array(ScalarType::Felt, 4)
    );
    assert_eq!(TypeValue::of_variable(ScalarType::Felt, None), TypeValue::Felt);
    assert_eq!(
        TypeValue::of_variable(ScalarType::I32, Some(9)),
        TypeValue::Array(ScalarType::I32, 9)
    );
    assert_eq!(TypeValue::of_literal(Literal::I32(-1)), TypeValue::I32);
    assert_eq!(TypeValue::of_literal(Literal::Felt(1)), TypeValue::Felt);
    assert_eq!(TypeValue::Array(ScalarType::I32, 9).rank_of(), 1);
    assert_eq!(TypeValue::Felt.rank_of(), 2);
    assert_eq!(TypeValue::Nil.rank_of(), 0);
}

#[test]
fn several_values_reduce_to_the_first() {
    let several = TraversalResult::Multiple(vec![TypeValue::I32, TypeValue::Felt, TypeValue::Felt]);
    assert_eq!(several.representative(), TypeValue::I32);
    assert_eq!(several.argument_type(), TypeValue::Array(ScalarType::I32, 3));
    let felts = TraversalResult::Multiple(vec![TypeValue::Felt, TypeValue::Felt]);
    assert_eq!(felts.argument_type(), TypeValue::Array(ScalarType::Felt, 2));
    let single = TraversalResult::Single(TypeValue::Felt);
    assert_eq!(single.representative(), TypeValue::Felt);
    assert_eq!(single.argument_type(), TypeValue::Felt);
    let none = TraversalResult::Multiple(vec![]);
    assert_eq!(none.representative(), TypeValue::Nil);
    assert_eq!(none.argument_type(), TypeValue::Nil);
    let nested = TraversalResult::Multiple(vec![TypeValue::Array(ScalarType::Felt, 2)]);
    assert_eq!(nested.argument_type(), TypeValue::Array(ScalarType::Felt, 2));
}

#[test]
fn scopes_are_numbered_and_nested() {
    let mut table = SymbolTable::new();
    assert_eq!(table.len(), 0);
    let root = table.open_scope(s("root"), None);
    let child = table.open_scope(s("child"), Some(root));
    let grandchild = table.open_scope(s("grandchild"), Some(child));
    let sibling = table.open_scope(s("sibling"), Some(root));
    let other_root = table.open_scope(s("other"), None);
    assert_eq!((root, child, grandchild, sibling, other_root), (0, 1, 2, 3, 4));
    assert_eq!(table.len(), 5);
    assert_eq!(table.scope_level(root), 1);
    assert_eq!(table.scope_level(child), 2);
    assert_eq!(table.scope_level(grandchild), 3);
    assert_eq!(table.scope_level(sibling), 2);
    assert_eq!(table.scope_level(other_root), 1);
    assert_eq!(table.enclosing_scope(grandchild), Some(child));
    assert_eq!(table.enclosing_scope(other_root), None);
    assert_eq!(table.scope_name(sibling), s("sibling"));
}

#[test]
fn lookup_walks_the_chain_of_enclosing_scopes() {
    let mut table = SymbolTable::new();
    let root = table.open_scope(s("root"), None);
    let child = table.open_scope(s("child"), Some(root));
    let sibling = table.open_scope(s("sibling"), Some(root));
    table.insert(root, variable("a", ScalarType::Felt, None));
    table.insert(child, variable("b", ScalarType::I32, Some(2)));
    assert_eq!(table.lookup(child, &s("a")), Some(variable("a", ScalarType::Felt, None)));
    assert_eq!(table.lookup(child, &s("b")), Some(variable("b", ScalarType::I32, Some(2))));
    assert_eq!(table.lookup(root, &s("b")), None);
    assert_eq!(table.lookup(sibling, &s("b")), None);
    assert_eq!(table.lookup(sibling, &s("a")), Some(variable("a", ScalarType::Felt, None)));
    assert_eq!(table.lookup(child, &s("c")), None);
    assert_eq!(table.lookup(17, &s("a")), None);
    assert!(table.is_declared(child, &s("a")));
    assert!(!table.is_declared(root, &s("b")));
    assert_eq!(table.find(child, &s("b")), Some(&variable("b", ScalarType::I32, Some(2))));
}

#[test]
fn insert_replaces_a_binding_of_the_same_scope_and_hides_an_outer_one() {
    let mut table = SymbolTable::new();
    let root = table.open_scope(s("root"), None);
    let child = table.open_scope(s("child"), Some(root));
    table.insert(root, variable("a", ScalarType::Felt, None));
    table.insert(root, variable("a", ScalarType::I32, None));
    assert_eq!(table.lookup(root, &s("a")), Some(variable("a", ScalarType::I32, None)));
    table.insert(child, variable("a", ScalarType::Felt, Some(3)));
    assert_eq!(table.lookup(child, &s("a")), Some(variable("a", ScalarType::Felt, Some(3))));
    assert_eq!(table.lookup(root, &s("a")), Some(variable("a", ScalarType::I32, None)));
}

#[test]
fn builtin_names_resolve_in_every_new_scope() {
    let mut table = SymbolTable::new();
    let root = table.open_scope(s("root"), None);
    assert_eq!(table.resolve_builtin(root, &s("felt")), Ok(ScalarType::Felt));
    assert_eq!(table.resolve_builtin(root, &s("i32")), Ok(ScalarType::I32));
    assert_eq!(table.resolve_builtin(root, &s("bool")), Err(SemaError::UnknownBuiltin(s("bool"))));
    table.insert(root, variable("v", ScalarType::Felt, None));
    assert_eq!(table.resolve_builtin(root, &s("v")), Err(SemaError::UnexpectedSymbol(s("v"))));
    table.clear(root);
    assert_eq!(table.resolve_builtin(root, &s("felt")), Err(SemaError::UnknownBuiltin(s("felt"))));
    assert_eq!(table.lookup(root, &s("v")), None);
    table.insert(root, Symbol::Builtin(ScalarType::I32));
    assert_eq!(table.resolve_builtin(root, &s("i32")), Ok(ScalarType::I32));
}

#[test]
fn insert_all_records_in_order() {
    let mut table = SymbolTable::new();
    let root = table.open_scope(s("root"), None);
    let symbols = vec![
        variable("a", ScalarType::Felt, None),
        variable("b", ScalarType::Felt, None),
        variable("a", ScalarType::I32, Some(1)),
    ];
    table.insert_all(root, &symbols);
    assert_eq!(table.lookup(root, &s("a")), Some(variable("a", ScalarType::I32, Some(1))));
    assert_eq!(table.lookup(root, &s("b")), Some(variable("b", ScalarType::Felt, None)));
}

#[test]
fn symbols_are_named_and_copied() {
    let function = Symbol::Function {
        name: s("f"),
        params: vec![Param { name: s("p"), ty: BuiltinType::Scalar(ScalarType::I32) }],
        body: BodyHandle(3),
    };
    assert_eq!(function.name(), s("f"));
    assert_eq!(function.clone(), function);
    assert!(!function.is_array());
    assert_eq!(Symbol::Builtin(ScalarType::Felt).name(), s("felt"));
    assert_eq!(Symbol::Builtin(ScalarType::I32).name(), s("i32"));
    assert_eq!(variable("v", ScalarType::Felt, None).name(), s("v"));
    assert!(variable("v", ScalarType::Felt, Some(2)).is_array());
    assert!(!variable("v", ScalarType::Felt, None).is_array());
}

#[test]
fn messages_name_the_violation_and_the_offender() {
    assert_eq!(
        SemaError::DuplicateDeclaration(s("a")).message(),
        "Found duplicate variable declaration for 'a'!"
    );
    assert_eq!(SemaError::UndeclaredVariable(s("y")).message(), "Undeclared variable 'y' found.");
    assert_eq!(SemaError::InvalidIdentifier(s("c")).message(), "Invalid identifier found 'c'");
    assert_eq!(SemaError::FunctionNotFound(s("f")).message(), "Not found function 'f'");
    assert_eq!(
        SemaError::ArgumentTypeMismatch { function: s("f"), position: 2 }.message(),
        "Function params type not match in call of 'f'"
    );
    assert_eq!(
        SemaError::ArgumentCountMismatch { function: s("g"), expected: 1, found: 0 }.message(),
        "Function params count not match in call of 'g'"
    );
    assert_eq!(SemaError::UnknownBuiltin(s("u8")).message(), "Invalid builtin type 'u8'");
    assert_eq!(
        SemaError::UnexpectedSymbol(s("x")).message(),
        "Not supported symbol type for 'x'"
    );
    assert_eq!(SemaError::UnknownBuiltin(s("u8")).name(), &s("u8"));
    assert!(SemaError::UnknownBuiltin(s("u8")).is_internal());
    assert!(SemaError::UnexpectedSymbol(s("x")).is_internal());
    assert!(!SemaError::DuplicateDeclaration(s("a")).is_internal());
    assert!(!SemaError::ArgumentCountMismatch { function: s("g"), expected: 1, found: 0 }
        .is_internal());
}

#[test]
fn scope_of_a_given_depth_opens_only_at_that_depth() {
    let mut table = SymbolTable::new();
    assert_eq!(table.new_scope(s("root"), 2, None), None);
    assert_eq!(table.new_scope(s("root"), 0, None), None);
    assert_eq!(table.new_scope(s("root"), 1, Some(0)), None);
    assert_eq!(table.len(), 0);
    assert_eq!(table.new_scope(s("root"), 1, None), Some(0));
    assert_eq!(table.new_scope(s("child"), 1, Some(0)), None);
    assert_eq!(table.new_scope(s("child"), 3, Some(0)), None);
    assert_eq!(table.new_scope(s("child"), 2, Some(1)), None);
    assert_eq!(table.new_scope(s("child"), 2, Some(0)), Some(1));
    assert_eq!(table.new_scope(s("grandchild"), 3, Some(1)), Some(2));
    assert_eq!(table.len(), 3);
    assert_eq!(table.scope_level(2), 3);
    assert_eq!(table.scope_name(2), s("grandchild"));
    assert_eq!(table.resolve_builtin(2, &s("felt")), Ok(ScalarType::Felt));
}
