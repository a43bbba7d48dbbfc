use vhdl_lower::grammar::{add_ast, AstSymbol, Context, Grammar, NonTermDef, Symbol};

fn tok(s: &str) -> AstSymbol {
    AstSymbol::Token(s.to_string())
}

#[test]
fn add_ast_declares_nonterminals_and_productions() {
    let mut ctx = Context::new();
    let g = Grammar {
        nts: vec![
            NonTermDef {
                name: "expr".to_string(),
                public: true,
                choices: vec![vec![tok("term"), tok("PLUS"), tok("expr")], vec![tok("term")]],
            },
            NonTermDef {
                name: "term".to_string(),
                public: false,
                choices: vec![vec![tok("NUM")], vec![AstSymbol::Epsilon]],
            },
        ],
    };
    add_ast(&mut ctx, g);
    assert_eq!(ctx.nonterms, vec![Some("expr".to_string()), Some("term".to_string())]);
    assert_eq!(ctx.terms, vec!["PLUS".to_string(), "NUM".to_string()]);
    assert_eq!(ctx.root_nonterms, vec![0]);
    assert_eq!(ctx.productions.len(), 4);
    assert_eq!(ctx.productions[0].head, 0);
    assert_eq!(
        ctx.productions[0].body,
        vec![Symbol::NonTerm(1), Symbol::Term(0), Symbol::NonTerm(0)]
    );
    assert_eq!(ctx.productions[1].body, vec![Symbol::NonTerm(1)]);
    assert_eq!(ctx.productions[2].head, 1);
    assert_eq!(ctx.productions[2].body, vec![Symbol::Term(1)]);
    assert_eq!(ctx.productions[3].body, vec![Symbol::Epsilon]);
}

#[test]
fn add_ast_expands_repetitions() {
    let mut ctx = Context::new();
    let g = Grammar {
        nts: vec![NonTermDef {
            name: "list".to_string(),
            public: true,
            choices: vec![vec![
                AstSymbol::Maybe(Box::new(tok("A"))),
                AstSymbol::Any(Box::new(tok("B"))),
                AstSymbol::AtLeastOne(Box::new(tok("C"))),
                AstSymbol::Group(vec![tok("D")]),
            ]],
        }],
    };
    add_ast(&mut ctx, g);
    // list, maybe, any-some, any, at-least-one, group
    assert_eq!(ctx.nonterms.len(), 6);
    assert_eq!(ctx.terms, vec!["A".to_string(), "B".to_string(), "C".to_string(), "D".to_string()]);
    let last = ctx.productions.last().unwrap();
    assert_eq!(last.head, 0);
    assert_eq!(
        last.body,
        vec![Symbol::NonTerm(1), Symbol::NonTerm(3), Symbol::NonTerm(4), Symbol::NonTerm(5)]
    );
    // maybe: 2, any: 4, at least one: 2, group: 1, the choice: 1
    assert_eq!(ctx.productions.len(), 10);
    assert_eq!(ctx.productions[0].head, 1);
    assert_eq!(ctx.productions[0].body, vec![Symbol::Epsilon]);
    assert_eq!(ctx.productions[1].body, vec![Symbol::Term(0)]);
    assert_eq!(ctx.productions[3].body, vec![Symbol::NonTerm(2), Symbol::Term(1)]);
}

#[test]
fn public_nonterminal_declared_twice_is_one_root() {
    let mut ctx = Context::new();
    let def = |p: bool| NonTermDef { name: "top".to_string(), public: p, choices: vec![] };
    add_ast(&mut ctx, Grammar { nts: vec![def(true), def(true), def(false)] });
    assert_eq!(ctx.nonterms.len(), 1);
    assert_eq!(ctx.root_nonterms, vec![0]);
    assert!(ctx.productions.is_empty());
}

#[test]
fn token_naming_later_nonterminal_maps_to_it() {
    let mut ctx = Context::new();
    let g = Grammar {
        nts: vec![
            NonTermDef { name: "a".to_string(), public: false, choices: vec![vec![tok("b")]] },
            NonTermDef { name: "b".to_string(), public: false, choices: vec![] },
        ],
    };
    add_ast(&mut ctx, g);
    assert!(ctx.terms.is_empty());
    assert_eq!(ctx.productions[0].body, vec![Symbol::NonTerm(1)]);
    assert!(ctx.root_nonterms.is_empty());
}

#[test]
fn empty_grammar_changes_nothing() {
    let mut ctx = Context::new();
    add_ast(&mut ctx, Grammar { nts: vec![] });
    assert!(ctx.nonterms.is_empty());
    assert!(ctx.terms.is_empty());
    assert!(ctx.productions.is_empty());
    assert!(ctx.root_nonterms.is_empty());
}

#[test]
fn nested_repetitions_create_anonymous_nonterminals() {
    let mut ctx = Context::new();
    let g = Grammar {
        nts: vec![NonTermDef {
            name: "x".to_string(),
            public: false,
            choices: vec![vec![AstSymbol::Group(vec![
                AstSymbol::Any(Box::new(AstSymbol::Maybe(Box::new(tok("y"))))),
                AstSymbol::Epsilon,
            ])]],
        }],
    };
    add_ast(&mut ctx, g);
    // one named, group 1 + any 2 + maybe 1
    assert_eq!(ctx.nonterms.len(), 5);
    assert!(ctx.nonterms[1..].iter().all(|n| n.is_none()));
    assert_eq!(ctx.productions.last().unwrap().body, vec![Symbol::NonTerm(1)]);
}
