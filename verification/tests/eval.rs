use nickel::error::EvalError;
use nickel::identifier::FreshVarGen;
use nickel::transform::transform_one;
use nickel::types::Types;
use nickel::eval::{eval, GlobalEnv};
use nickel::identifier::Ident;
use nickel::label::Label;
use nickel::program::{DummyResolver, SimpleResolver};
use nickel::term::{
    BinaryOp, Field, Number, RecordAttrs, RichTerm, StrChunk, Term, UnaryOp,
};

fn ident(name: &str) -> Ident {
    Ident::User(String::from(name))
}

fn num(millis: i64) -> Term {
    Term::Num(Number::from_millis(millis))
}

fn rt(t: Term) -> RichTerm {
    RichTerm::from_term(t)
}

/// Evaluate a term without import support.
fn eval_no_import(t: RichTerm) -> Result<Term, EvalError> {
    eval(t, GlobalEnv::new(), &mut DummyResolver {})
}

#[test]
fn identity_over_values() {
    let number = num(45_300);
    assert_eq!(Ok(number.clone()), eval_no_import(rt(number)));

    let boolean = Term::Bool(true);
    assert_eq!(Ok(boolean.clone()), eval_no_import(rt(boolean)));

    let lambda = Term::Fun(
        ident("x"),
        RichTerm::app(RichTerm::var(String::from("x")), RichTerm::var(String::from("x"))),
    );
    assert_eq!(Ok(lambda.clone()), eval_no_import(rt(lambda)));
}

#[test]
fn blame_panics() {
    let label = Label::dummy();
    if let Err(EvalError::BlameError(l, _)) =
        eval_no_import(rt(Term::Op1(UnaryOp::Blame(), rt(Term::Lbl(label.clone())))))
    {
        assert_eq!(l, label);
    } else {
        panic!("This evaluation should've returned a BlameError!");
    }
}

#[test]
#[should_panic]
fn lone_var_panics() {
    eval_no_import(RichTerm::var(String::from("unbound"))).unwrap();
}

#[test]
fn only_fun_are_applicable() {
    eval_no_import(RichTerm::app(rt(Term::Bool(true)), rt(num(45_000)))).unwrap_err();
}

#[test]
fn simple_app() {
    let t = RichTerm::app(
        rt(Term::Fun(ident("x"), RichTerm::var(String::from("x")))),
        rt(num(5_000)),
    );

    assert_eq!(Ok(num(5_000)), eval_no_import(t));
}

#[test]
fn simple_let() {
    let t = RichTerm::let_in(String::from("x"), rt(num(5_000)), RichTerm::var(String::from("x")));

    assert_eq!(Ok(num(5_000)), eval_no_import(t));
}

#[test]
fn simple_ite() {
    let t = RichTerm::ite(rt(Term::Bool(true)), rt(num(5_000)), rt(Term::Bool(false)));

    assert_eq!(Ok(num(5_000)), eval_no_import(t));
}

#[test]
fn simple_plus() {
    let t = RichTerm::plus(rt(num(5_000)), rt(num(7_500)));

    assert_eq!(Ok(num(12_500)), eval_no_import(t));
}

#[test]
fn simple_is_zero() {
    let t = rt(Term::Op1(UnaryOp::IsZero(), rt(num(7_000))));

    assert_eq!(Ok(Term::Bool(false)), eval_no_import(t));
}

#[test]
fn asking_for_various_types() {
    let number = rt(Term::Op1(UnaryOp::IsNum(), rt(num(45_300))));
    assert_eq!(Ok(Term::Bool(true)), eval_no_import(number));

    let boolean = rt(Term::Op1(UnaryOp::IsBool(), rt(Term::Bool(true))));
    assert_eq!(Ok(Term::Bool(true)), eval_no_import(boolean));

    let lambda = rt(Term::Op1(
        UnaryOp::IsFun(),
        rt(Term::Fun(
            ident("x"),
            RichTerm::app(RichTerm::var(String::from("x")), RichTerm::var(String::from("x"))),
        )),
    ));
    assert_eq!(Ok(Term::Bool(true)), eval_no_import(lambda));
}

#[test]
fn enriched_terms_unwrapping() {
    let t = rt(Term::DefaultValue(rt(Term::DefaultValue(rt(Term::Docstring(
        String::from("a"),
        rt(Term::Bool(false)),
    ))))));
    assert_eq!(Ok(Term::Bool(false)), eval_no_import(t));
}

#[test]
fn merge_enriched_default() {
    let t = rt(Term::Op2(
        BinaryOp::Merge(),
        rt(num(1_000)),
        rt(Term::DefaultValue(rt(num(2_000)))),
    ));
    assert_eq!(Ok(num(1_000)), eval_no_import(t));
}

#[test]
fn merge_incompatible_defaults() {
    let t = rt(Term::Op2(
        BinaryOp::Merge(),
        rt(Term::DefaultValue(rt(num(1_000)))),
        rt(Term::DefaultValue(rt(num(2_000)))),
    ));

    eval_no_import(t).unwrap_err();
}

#[test]
fn merge_incompatible_defaults_blame() {
    let t = rt(Term::Op2(
        BinaryOp::Merge(),
        rt(Term::DefaultValue(rt(num(1_000)))),
        rt(Term::DefaultValue(rt(num(2_000)))),
    ));

    match eval_no_import(t) {
        Err(EvalError::BlameError(_, _)) => {}
        other => panic!("expected a blame, got {:?}", other),
    }
}

#[test]
fn merge_equal_defaults() {
    // The merge keeps the default wrapper; the machine, back in strict
    // mode, then unwraps it to the shared constant.
    let t = rt(Term::Op2(
        BinaryOp::Merge(),
        rt(Term::DefaultValue(rt(num(3_000)))),
        rt(Term::DefaultValue(rt(num(3_000)))),
    ));

    assert_eq!(Ok(num(3_000)), eval_no_import(t));
}

#[test]
fn merge_default_right_side_wins() {
    let t = rt(Term::Op2(
        BinaryOp::Merge(),
        rt(Term::DefaultValue(rt(num(9_000)))),
        rt(num(4_000)),
    ));
    assert_eq!(Ok(num(4_000)), eval_no_import(t));
}

#[test]
fn interpolation_simple() {
    let mut chunks = vec![
        StrChunk::Literal(String::from("Hello")),
        StrChunk::Expr(rt(Term::Op2(
            BinaryOp::StrConcat(),
            rt(Term::Str(String::from(", "))),
            rt(Term::Str(String::from("World!"))),
        ))),
        StrChunk::Literal(String::from(" How")),
        StrChunk::Expr(RichTerm::ite(
            rt(Term::Bool(true)),
            rt(Term::Str(String::from(" are"))),
            rt(Term::Str(String::from(" is"))),
        )),
        StrChunk::Literal(String::from(" you?")),
    ];
    chunks.reverse();

    let t = rt(Term::StrChunks(chunks));
    assert_eq!(
        eval_no_import(t),
        Ok(Term::Str(String::from("Hello, World! How are you?")))
    );
}

#[test]
fn interpolation_nested() {
    let mut inner_chunks = vec![
        StrChunk::Literal(String::from(" How")),
        StrChunk::Expr(rt(Term::Op2(
            BinaryOp::StrConcat(),
            rt(Term::Str(String::from(" ar"))),
            rt(Term::Str(String::from("e"))),
        ))),
        StrChunk::Expr(RichTerm::ite(
            rt(Term::Bool(true)),
            rt(Term::Str(String::from(" you"))),
            rt(Term::Str(String::from(" me"))),
        )),
    ];
    inner_chunks.reverse();

    let mut chunks = vec![
        StrChunk::Literal(String::from("Hello, World!")),
        StrChunk::Expr(rt(Term::StrChunks(inner_chunks))),
        StrChunk::Literal(String::from("?")),
    ];
    chunks.reverse();

    let t = rt(Term::StrChunks(chunks));
    assert_eq!(
        eval_no_import(t),
        Ok(Term::Str(String::from("Hello, World! How are you?")))
    );
}

#[test]
fn global_env() {
    let mut global_env = GlobalEnv::new();
    let mut resolver = DummyResolver {};
    global_env.insert(ident("g"), rt(num(1_000)));

    let t = RichTerm::let_in(String::from("x"), rt(num(2_000)), RichTerm::var(String::from("x")));
    assert_eq!(eval(t, global_env.clone(), &mut resolver), Ok(num(2_000)));

    let t = RichTerm::let_in(String::from("x"), rt(num(2_000)), RichTerm::var(String::from("g")));
    assert_eq!(eval(t, global_env.clone(), &mut resolver), Ok(num(1_000)));

    // Shadowing of the global environment.
    let t = RichTerm::let_in(String::from("g"), rt(num(2_000)), RichTerm::var(String::from("g")));
    assert_eq!(eval(t, global_env.clone(), &mut resolver), Ok(num(2_000)));
}

#[test]
fn empty_interpolation_is_empty_string() {
    let t = rt(Term::StrChunks(Vec::new()));
    assert_eq!(Ok(Term::Str(String::new())), eval_no_import(t));
}

#[test]
fn not_a_func_error() {
    match eval_no_import(RichTerm::app(rt(num(1_000)), rt(num(2_000)))) {
        Err(EvalError::NotAFunc(f, _, _)) => assert_eq!(*f.term, num(1_000)),
        other => panic!("expected a NotAFunc error, got {:?}", other),
    }
}

#[test]
fn unresolved_import_is_internal_error() {
    match eval_no_import(rt(Term::Import(String::from("a.ncl")))) {
        Err(EvalError::InternalError(_, _)) => {}
        other => panic!("expected an internal error, got {:?}", other),
    }
}

#[test]
fn missing_resolved_import_is_internal_error() {
    match eval_no_import(rt(Term::ResolvedImport(7))) {
        Err(EvalError::InternalError(_, _)) => {}
        other => panic!("expected an internal error, got {:?}", other),
    }
}

/// The contract of the booleans: `fun l => fun v => if isbool v then v else
/// blame l`, bound as the builtin the `Bool` type maps to.
fn bool_contract_env() -> GlobalEnv {
    let body = RichTerm::ite(
        rt(Term::Op1(UnaryOp::IsBool(), RichTerm::var(String::from("v")))),
        RichTerm::var(String::from("v")),
        rt(Term::Op1(UnaryOp::Blame(), RichTerm::var(String::from("l")))),
    );
    let contract = Term::Fun(ident("l"), rt(Term::Fun(ident("v"), body)));
    let mut global = GlobalEnv::new();
    global.insert(ident("bool"), rt(contract));
    global
}

#[test]
fn contract_erasure_on_success() {
    let t = rt(Term::Assume(Types::Bool(), Label::dummy(), rt(Term::Bool(true))));
    assert_eq!(
        eval(t, bool_contract_env(), &mut DummyResolver {}),
        Ok(Term::Bool(true))
    );

    let direct = eval_no_import(rt(Term::Bool(true)));
    assert_eq!(direct, Ok(Term::Bool(true)));
}

#[test]
fn contract_violation_blames() {
    let t = rt(Term::Assume(Types::Bool(), Label::dummy(), rt(num(5_000))));
    match eval(t, bool_contract_env(), &mut DummyResolver {}) {
        Err(EvalError::BlameError(l, _)) => assert_eq!(l, Label::dummy()),
        other => panic!("expected a blame, got {:?}", other),
    }
}

#[test]
fn undefined_contract_field_access() {
    let t = rt(Term::Contract(Types::Num(), Label::dummy()));
    match eval_no_import(t) {
        Err(EvalError::Other(_, _)) => {}
        other => panic!("expected an error, got {:?}", other),
    }
}

#[test]
fn contract_with_default_checks_the_default() {
    let t = rt(Term::ContractWithDefault(
        Types::Bool(),
        Label::dummy(),
        rt(Term::Bool(false)),
    ));
    assert_eq!(
        eval(t, bool_contract_env(), &mut DummyResolver {}),
        Ok(Term::Bool(false))
    );
}

/// Cyclic imports resolve as long as only leaf fields are accessed: the
/// first file and the second import one another, and the access chain ends
/// on a constant.
#[test]
fn cyclic_imports() {

    let mut gen = FreshVarGen::new();

    // First file: let x = import <second> in {a = 1; b = x.a}
    let rec_a = Field { id: ident("a"), term: rt(num(1_000)) };
    let rec_b = Field {
        id: ident("b"),
        term: rt(Term::Op1(UnaryOp::StaticAccess(ident("a")), RichTerm::var(String::from("x")))),
    };
    let rec = transform_one(
        rt(Term::RecRecord(vec![rec_a, rec_b], Vec::new(), RecordAttrs::default_attrs())),
        &mut gen,
    );
    let cycle = RichTerm::let_in(String::from("x"), rt(Term::ResolvedImport(1)), rec);

    // Second file: let x = import <first> in {a = x.a}
    let rec2_a = Field {
        id: ident("a"),
        term: rt(Term::Op1(UnaryOp::StaticAccess(ident("a")), RichTerm::var(String::from("x")))),
    };
    let rec2 = transform_one(
        rt(Term::RecRecord(vec![rec2_a], Vec::new(), RecordAttrs::default_attrs())),
        &mut gen,
    );
    let cycle_b = RichTerm::let_in(String::from("x"), rt(Term::ResolvedImport(0)), rec2);

    let mut resolver = SimpleResolver::new();
    resolver.add_term(0, cycle);
    resolver.add_term(1, cycle_b);

    // let x = import <first> in x.b
    let main = RichTerm::let_in(
        String::from("x"),
        rt(Term::ResolvedImport(0)),
        rt(Term::Op1(UnaryOp::StaticAccess(ident("b")), RichTerm::var(String::from("x")))),
    );

    assert_eq!(eval(main, GlobalEnv::new(), &mut resolver), Ok(num(1_000)));
}

#[test]
fn recursive_record_sibling_reference() {

    let mut gen = FreshVarGen::new();
    // {a = 1; b = a} — after the share-normal-form rewrite, accessing b
    // yields the value of its sibling a.
    let rec_a = Field { id: ident("a"), term: rt(num(1_000)) };
    let rec_b = Field { id: ident("b"), term: rt(Term::Var(ident("a"))) };
    let rec = transform_one(
        rt(Term::RecRecord(vec![rec_a, rec_b], Vec::new(), RecordAttrs::default_attrs())),
        &mut gen,
    );
    let t = rt(Term::Op1(UnaryOp::StaticAccess(ident("b")), rec));
    assert_eq!(eval_no_import(t), Ok(num(1_000)));
}

#[test]
fn thunks_are_shared() {
    // let f = fun x => 7 in let y = f 0 in y + y: the thunk of y is forced
    // once and updated; the sum sees the same value twice.
    let f = Term::Fun(ident("x"), rt(num(7_000)));
    let body = RichTerm::plus(RichTerm::var(String::from("y")), RichTerm::var(String::from("y")));
    let t = RichTerm::let_in(
        String::from("f"),
        rt(f),
        RichTerm::let_in(
            String::from("y"),
            RichTerm::app(RichTerm::var(String::from("f")), rt(num(0))),
            body,
        ),
    );
    assert_eq!(eval_no_import(t), Ok(num(14_000)));
}
