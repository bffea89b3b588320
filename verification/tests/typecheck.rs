use nickel::error::TypecheckError;
use nickel::eval::fmt_indent;
use nickel::identifier::Ident;
use nickel::term::{BinaryOp, NAryOp, UnaryOp};
use nickel::typecheck::operation::{get_bop_type, get_nop_type, get_uop_type};
use nickel::typecheck::{constraint, State, TypeWrapper};
use nickel::types::AbsType;

fn ident(name: &str) -> Ident {
    Ident::User(String::from(name))
}

fn arrow(dom: TypeWrapper, codom: TypeWrapper) -> TypeWrapper {
    TypeWrapper::Concrete(AbsType::Arrow(Box::new(dom), Box::new(codom)))
}

fn boolean() -> TypeWrapper {
    TypeWrapper::Concrete(AbsType::Bool())
}

fn number() -> TypeWrapper {
    TypeWrapper::Concrete(AbsType::Num())
}

fn string() -> TypeWrapper {
    TypeWrapper::Concrete(AbsType::Str())
}

#[test]
fn ite_scheme() {
    // forall a. Bool -> a -> a -> a, with a drawn fresh.
    let mut state = State::new();
    let (input, output) = get_uop_type(&mut state, &UnaryOp::Ite()).unwrap();
    fn a() -> TypeWrapper {
        TypeWrapper::Ptr(0)
    }
    assert_eq!(input, boolean());
    assert_eq!(output, arrow(a(), arrow(a(), a())));
}

#[test]
fn predicates_take_anything() {
    let mut state = State::new();
    let (input, output) = get_uop_type(&mut state, &UnaryOp::IsNum()).unwrap();
    assert_eq!(input, TypeWrapper::Ptr(0));
    assert_eq!(output, boolean());

    let (input2, _) = get_uop_type(&mut state, &UnaryOp::IsRecord()).unwrap();
    assert_eq!(input2, TypeWrapper::Ptr(1));
}

#[test]
fn blame_returns_anything() {
    let mut state = State::new();
    let (input, output) = get_uop_type(&mut state, &UnaryOp::Blame()).unwrap();
    assert_eq!(input, TypeWrapper::Concrete(AbsType::Dyn()));
    assert_eq!(output, TypeWrapper::Ptr(0));
}

#[test]
fn static_access_scheme() {
    // forall rows a. { f: a | rows } -> a.
    let mut state = State::new();
    let (input, output) =
        get_uop_type(&mut state, &UnaryOp::StaticAccess(ident("f"))).unwrap();
    let row = TypeWrapper::Ptr(0);
    let res = TypeWrapper::Ptr(1);
    assert_eq!(output, res);
    assert_eq!(
        input,
        TypeWrapper::Concrete(AbsType::StaticRecord(Box::new(TypeWrapper::Concrete(
            AbsType::RowExtend(ident("f"), Some(Box::new(res)), Box::new(row))
        ))))
    );
}

#[test]
fn embed_constrains_the_row() {
    let mut state = State::new();
    let (input, output) = get_uop_type(&mut state, &UnaryOp::Embed(ident("tag"))).unwrap();
    fn row() -> TypeWrapper {
        TypeWrapper::Ptr(0)
    }
    assert_eq!(input, TypeWrapper::Concrete(AbsType::Enum(Box::new(row()))));
    assert_eq!(
        output,
        TypeWrapper::Concrete(AbsType::Enum(Box::new(TypeWrapper::Concrete(
            AbsType::RowExtend(ident("tag"), None, Box::new(row()))
        ))))
    );
    // The fresh row variable now carries the constraint: adding the same
    // tag to a row that already lists it is refused.
    let listed = TypeWrapper::Concrete(AbsType::RowExtend(
        ident("tag"),
        None,
        Box::new(TypeWrapper::Concrete(AbsType::RowEmpty())),
    ));
    match constraint(&mut state, listed, ident("tag")) {
        Err(TypecheckError::RowConflict(id)) => assert_eq!(id, ident("tag")),
        other => panic!("expected a row conflict, got {:?}", other),
    }
}

#[test]
fn numeric_operators() {
    let mut state = State::new();
    let (fst, snd, out) = get_bop_type(&mut state, &BinaryOp::Plus()).unwrap();
    assert_eq!((fst, snd, out), (number(), number(), number()));

    let (fst, snd, out) = get_bop_type(&mut state, &BinaryOp::LessThan()).unwrap();
    assert_eq!((fst, snd, out), (number(), number(), boolean()));
}

#[test]
fn equality_is_heterogeneous() {
    let mut state = State::new();
    let (fst, snd, out) = get_bop_type(&mut state, &BinaryOp::Eq()).unwrap();
    assert_eq!(fst, TypeWrapper::Ptr(0));
    assert_eq!(snd, TypeWrapper::Ptr(1));
    assert_eq!(out, boolean());
}

#[test]
fn merge_is_dynamic() {
    let mut state = State::new();
    let (fst, snd, out) = get_bop_type(&mut state, &BinaryOp::Merge()).unwrap();
    fn dynamic() -> TypeWrapper {
        TypeWrapper::Concrete(AbsType::Dyn())
    }
    assert_eq!((fst, snd, out), (dynamic(), dynamic(), dynamic()));
}

#[test]
fn hash_takes_an_algorithm() {
    let mut state = State::new();
    let (fst, snd, out) = get_bop_type(&mut state, &BinaryOp::Hash()).unwrap();
    assert_eq!(snd, string());
    assert_eq!(out, string());
    // The first operand is the enum of the four algorithms.
    let tags = ["Md5", "Sha1", "Sha256", "Sha512"];
    let mut row = TypeWrapper::Concrete(AbsType::RowEmpty());
    for tag in tags.iter().rev() {
        row = TypeWrapper::Concrete(AbsType::RowExtend(ident(tag), None, Box::new(row)));
    }
    assert_eq!(fst, TypeWrapper::Concrete(AbsType::Enum(Box::new(row))));
}

#[test]
fn string_match_scheme() {
    let mut state = State::new();
    let (fst, snd, out) = get_bop_type(&mut state, &BinaryOp::StrMatch()).unwrap();
    assert_eq!(fst, string());
    assert_eq!(snd, string());
    let groups = TypeWrapper::Concrete(AbsType::List(Box::new(string())));
    let row = TypeWrapper::Concrete(AbsType::RowExtend(
        ident("match"),
        Some(Box::new(string())),
        Box::new(TypeWrapper::Concrete(AbsType::RowExtend(
            ident("index"),
            Some(Box::new(number())),
            Box::new(TypeWrapper::Concrete(AbsType::RowExtend(
                ident("groups"),
                Some(Box::new(groups)),
                Box::new(TypeWrapper::Concrete(AbsType::RowEmpty())),
            ))),
        ))),
    ));
    assert_eq!(out, TypeWrapper::Concrete(AbsType::StaticRecord(Box::new(row))));
}

#[test]
fn substring_scheme() {
    let mut state = State::new();
    let (args, out) = get_nop_type(&mut state, &NAryOp::StrSubstr()).unwrap();
    assert_eq!(args, vec![string(), number(), number()]);
    assert_eq!(out, string());

    let (args, out) = get_nop_type(&mut state, &NAryOp::StrReplace()).unwrap();
    assert_eq!(args, vec![string(), string(), string()]);
    assert_eq!(out, string());
}

#[test]
fn to_str_is_a_string_operator() {
    let mut state = State::new();
    let (input, output) = get_uop_type(&mut state, &UnaryOp::ToStr()).unwrap();
    assert_eq!(input, TypeWrapper::Concrete(AbsType::Dyn()));
    assert_eq!(output, string());
}

#[test]
fn zero_test_has_no_scheme() {
    let mut state = State::new();
    match get_uop_type(&mut state, &UnaryOp::IsZero()) {
        Err(TypecheckError::TypingOp(_)) => {}
        other => panic!("expected a typing error, got {:?}", other),
    }
}

#[test]
fn fresh_variables_do_not_clash() {
    let mut state = State::new();
    let (a, _) = get_uop_type(&mut state, &UnaryOp::IsNum()).unwrap();
    let (b, _) = get_uop_type(&mut state, &UnaryOp::IsNum()).unwrap();
    assert_ne!(a, b);
}

#[test]
fn indentation_helper() {
    assert_eq!(fmt_indent("a\nb", false), String::from("  a\n  b"));
    assert_eq!(fmt_indent("a\nb", true), String::from("a\n  b"));
    assert_eq!(fmt_indent("", false), String::from("  "));
    // A trailing break closes the last line and is dropped.
    assert_eq!(fmt_indent("a\n", false), String::from("  a"));
    assert_eq!(fmt_indent("a\n\n", false), String::from("  a\n  "));
}
