use nickel::identifier::{FreshVarGen, Ident};
use nickel::term::{
    BinaryOp, BindingType, Field, MetaValue, Number, RecordAttrs, RichTerm, Term,
};
use nickel::transform::{should_share, transform_one};

fn ident(name: &str) -> Ident {
    Ident::User(String::from(name))
}

fn num(millis: i64) -> Term {
    Term::Num(Number::from_millis(millis))
}

fn rt(t: Term) -> RichTerm {
    RichTerm::from_term(t)
}

fn plus_one_one() -> RichTerm {
    RichTerm::plus(rt(num(1_000)), rt(num(1_000)))
}

#[test]
fn constants_are_not_shared() {
    assert!(!should_share(&Term::Null));
    assert!(!should_share(&Term::Bool(true)));
    assert!(!should_share(&num(1_000)));
    assert!(!should_share(&Term::Str(String::from("a"))));
    assert!(!should_share(&Term::Var(ident("x"))));
    assert!(!should_share(&Term::Fun(ident("x"), RichTerm::var(String::from("x")))));
    assert!(should_share(&*plus_one_one().term));
    assert!(should_share(&Term::Record(Vec::new(), RecordAttrs::default_attrs())));
}

#[test]
fn record_fields_are_hoisted() {
    // { a = 1 + 1 } becomes let %0 = 1 + 1 in { a = %0 }.
    let mut gen = FreshVarGen::new();
    let record = rt(Term::Record(
        vec![Field { id: ident("a"), term: plus_one_one() }],
        RecordAttrs::default_attrs(),
    ));
    let res = transform_one(record, &mut gen);
    match &*res.term {
        Term::Let(x, bound, body, BindingType::Normal) => {
            assert_eq!(*x, Ident::Generated(0));
            assert_eq!(*bound.term, *plus_one_one().term);
            match &*body.term {
                Term::Record(fields, _) => {
                    assert_eq!(fields.len(), 1);
                    assert_eq!(fields[0].id, ident("a"));
                    assert_eq!(*fields[0].term.term, Term::Var(Ident::Generated(0)));
                }
                other => panic!("expected a record under the let, got {:?}", other),
            }
        }
        other => panic!("expected a let, got {:?}", other),
    }
}

#[test]
fn unshareable_fields_stay() {
    let mut gen = FreshVarGen::new();
    let record = rt(Term::Record(
        vec![Field { id: ident("a"), term: rt(num(1_000)) }],
        RecordAttrs::default_attrs(),
    ));
    let res = transform_one(record, &mut gen);
    match &*res.term {
        Term::Record(fields, _) => {
            assert_eq!(fields.len(), 1);
            assert_eq!(*fields[0].term.term, num(1_000));
        }
        other => panic!("expected the record unchanged, got {:?}", other),
    }
}

#[test]
fn list_elements_are_hoisted() {
    // [1 + 1, [1 + 2]] becomes let %1 = [1 + 2] in let %0 = 1 + 1 in
    // [%0, %1]: the nested list is left as it was.
    let mut gen = FreshVarGen::new();
    let nested = rt(Term::List(vec![RichTerm::plus(rt(num(1_000)), rt(num(2_000)))]));
    let list = rt(Term::List(vec![plus_one_one(), nested.clone()]));
    let res = transform_one(list, &mut gen);
    match &*res.term {
        Term::Let(x1, bound1, body1, _) => {
            assert_eq!(*x1, Ident::Generated(1));
            assert_eq!(*bound1.term, *nested.term);
            match &*body1.term {
                Term::Let(x0, bound0, body0, _) => {
                    assert_eq!(*x0, Ident::Generated(0));
                    assert_eq!(*bound0.term, *plus_one_one().term);
                    match &*body0.term {
                        Term::List(ts) => {
                            assert_eq!(*ts[0].term, Term::Var(Ident::Generated(0)));
                            assert_eq!(*ts[1].term, Term::Var(Ident::Generated(1)));
                        }
                        other => panic!("expected a list, got {:?}", other),
                    }
                }
                other => panic!("expected an inner let, got {:?}", other),
            }
        }
        other => panic!("expected a let, got {:?}", other),
    }
}

#[test]
fn recursive_records_hoist_variables_too() {
    // In a recursive record even a bare user variable is hoisted, so every
    // field is a generated variable or a constant.
    let mut gen = FreshVarGen::new();
    let record = rt(Term::RecRecord(
        vec![
            Field { id: ident("a"), term: rt(num(1_000)) },
            Field { id: ident("b"), term: rt(Term::Var(ident("a"))) },
        ],
        Vec::new(),
        RecordAttrs::default_attrs(),
    ));
    let res = transform_one(record, &mut gen);
    match &*res.term {
        Term::Let(x, bound, body, BindingType::Revertible) => {
            assert_eq!(*x, Ident::Generated(0));
            assert_eq!(*bound.term, Term::Var(ident("a")));
            match &*body.term {
                Term::RecRecord(fields, _, _) => {
                    assert_eq!(*fields[0].term.term, num(1_000));
                    assert_eq!(*fields[1].term.term, Term::Var(Ident::Generated(0)));
                }
                other => panic!("expected a recursive record, got {:?}", other),
            }
        }
        other => panic!("expected a revertible let, got {:?}", other),
    }
}

#[test]
fn metavalue_value_is_hoisted() {
    let mut gen = FreshVarGen::new();
    let meta = MetaValue {
        doc: Some(String::from("documented")),
        contracts: Vec::new(),
        value: Some(plus_one_one()),
    };
    let res = transform_one(rt(Term::MetaValue(meta)), &mut gen);
    match &*res.term {
        Term::Let(x, bound, body, BindingType::Normal) => {
            assert_eq!(*x, Ident::Generated(0));
            assert_eq!(*bound.term, *plus_one_one().term);
            match &*body.term {
                Term::MetaValue(meta2) => {
                    assert_eq!(meta2.doc, Some(String::from("documented")));
                    assert_eq!(
                        *meta2.value.as_ref().unwrap().term.clone(),
                        Term::Var(Ident::Generated(0))
                    );
                }
                other => panic!("expected a metavalue, got {:?}", other),
            }
        }
        other => panic!("expected a let, got {:?}", other),
    }
}

#[test]
fn other_nodes_are_untouched() {
    let mut gen = FreshVarGen::new();
    let t = rt(Term::Op2(BinaryOp::Plus(), rt(num(1_000)), rt(num(2_000))));
    let res = transform_one(t.clone(), &mut gen);
    assert_eq!(*res.term, *t.term);
}

#[test]
fn fresh_variables_are_distinct() {
    let mut gen = FreshVarGen::new();
    let a = gen.fresh();
    let b = gen.fresh();
    assert_ne!(a, b);
    assert!(a.is_generated());
    assert!(!ident("x").is_generated());
}
