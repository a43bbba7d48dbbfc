//! Populating a grammar context from a parsed grammar description: named
//! nonterminals, terminals, and the productions of each choice, with
//! anonymous nonterminals for groups, optional and repeated symbols.

use vstd::prelude::*;

verus! {

/// A symbol as written in a grammar description.
#[derive(Debug)]
pub enum AstSymbol {
    Epsilon,
    /// A name: a nonterminal if one of that name exists, else a terminal.
    Token(String),
    /// A parenthesized sequence.
    Group(Vec<AstSymbol>),
    /// Zero or one occurrence.
    Maybe(Box<AstSymbol>),
    /// Zero or more occurrences.
    Any(Box<AstSymbol>),
    /// One or more occurrences.
    AtLeastOne(Box<AstSymbol>),
}

/// A nonterminal with its alternatives.
#[derive(Debug)]
pub struct NonTermDef {
    pub name: String,
    /// Whether the nonterminal is an entry point of the grammar.
    pub public: bool,
    pub choices: Vec<Vec<AstSymbol>>,
}

/// A parsed grammar description.
#[derive(Debug)]
pub struct Grammar {
    pub nts: Vec<NonTermDef>,
}

/// A symbol of the context: a terminal or nonterminal by index.
#[derive(PartialEq, Eq, Structural, Clone, Copy, Debug)]
pub enum Symbol {
    Epsilon,
    Term(usize),
    NonTerm(usize),
}

/// A production `head -> body`.
#[derive(Debug)]
pub struct Production {
    pub head: usize,
    pub body: Vec<Symbol>,
}

/// The terminals, nonterminals and productions of a grammar being built.
#[derive(Debug)]
pub struct Context {
    /// Nonterminals by index: named ones carry their name, anonymous ones none.
    pub nonterms: Vec<Option<String>>,
    pub terms: Vec<String>,
    pub root_nonterms: Vec<usize>,
    pub productions: Vec<Production>,
}

/// The mathematical value of a context.
pub struct CtxModel {
    pub nonterms: Seq<Option<Seq<char>>>,
    pub terms: Seq<Seq<char>>,
    pub roots: Seq<usize>,
    pub prods: Seq<(usize, Seq<Symbol>)>,
}

pub open spec fn opt_name(o: Option<String>) -> Option<Seq<char>> {
    match o {
        Some(s) => Some(s@),
        None => None,
    }
}

impl View for Context {
    type V = CtxModel;

    open spec fn view(&self) -> CtxModel {
        CtxModel {
            nonterms: self.nonterms@.map_values(|o: Option<String>| opt_name(o)),
            terms: self.terms@.map_values(|s: String| s@),
            roots: self.root_nonterms@,
            prods: self.productions@.map_values(|p: Production| (p.head, p.body@)),
        }
    }
}

impl CtxModel {
    pub open spec fn valid_symbol(self, s: Symbol) -> bool {
        match s {
            Symbol::Epsilon => true,
            Symbol::Term(t) => t < self.terms.len(),
            Symbol::NonTerm(n) => n < self.nonterms.len(),
        }
    }

    /// Productions and roots refer to symbols that exist, and no two
    /// nonterminals, nor two terminals, share a name.
    pub open spec fn wf(self) -> bool {
        &&& forall|p: int| 0 <= p < self.prods.len() ==> (#[trigger] self.prods[p]).0 < self.nonterms.len()
        &&& forall|p: int, k: int|
            0 <= p < self.prods.len() && 0 <= k < self.prods[p].1.len() ==> self.valid_symbol(
                #[trigger] self.prods[p].1[k],
            )
        &&& forall|r: int| 0 <= r < self.roots.len() ==> #[trigger] self.roots[r] < self.nonterms.len()
        &&& forall|i: int, j: int|
            0 <= i < self.nonterms.len() && 0 <= j < self.nonterms.len() && i != j
                && #[trigger] self.nonterms[i] is Some ==> self.nonterms[i] != #[trigger] self.nonterms[j]
        &&& forall|i: int, j: int|
            0 <= i < self.terms.len() && 0 <= j < self.terms.len() && i != j ==> #[trigger] self.terms[i]
                != #[trigger] self.terms[j]
    }

    /// `self` holds everything `old` held, at the same indices.
    pub open spec fn extends(self, old: CtxModel) -> bool {
        &&& old.nonterms.len() <= self.nonterms.len()
        &&& self.nonterms.subrange(0, old.nonterms.len() as int) =~= old.nonterms
        &&& old.terms.len() <= self.terms.len()
        &&& self.terms.subrange(0, old.terms.len() as int) =~= old.terms
        &&& old.prods.len() <= self.prods.len()
        &&& self.prods.subrange(0, old.prods.len() as int) =~= old.prods
        &&& forall|r: usize| old.roots.contains(r) ==> self.roots.contains(r)
    }

    pub open spec fn has_nonterm(self, name: Seq<char>) -> bool {
        exists|i: int| 0 <= i < self.nonterms.len() && self.nonterms[i] == Some(name)
    }

    pub open spec fn nonterm_index(self, name: Seq<char>) -> int {
        choose|i: int| 0 <= i < self.nonterms.len() && self.nonterms[i] == Some(name)
    }

    pub open spec fn has_term(self, name: Seq<char>) -> bool {
        exists|i: int| 0 <= i < self.terms.len() && self.terms[i] == name
    }

    pub open spec fn term_index(self, name: Seq<char>) -> int {
        choose|i: int| 0 <= i < self.terms.len() && self.terms[i] == name
    }

    /// The nonterminal of that name, or else the terminal of that name.
    pub open spec fn lookup(self, name: Seq<char>) -> Option<Symbol> {
        if self.has_nonterm(name) {
            Some(Symbol::NonTerm(self.nonterm_index(name) as usize))
        } else if self.has_term(name) {
            Some(Symbol::Term(self.term_index(name) as usize))
        } else {
            None
        }
    }

    pub open spec fn with_nonterm(self, n: Option<Seq<char>>) -> CtxModel {
        CtxModel { nonterms: self.nonterms.push(n), terms: self.terms, roots: self.roots, prods: self.prods }
    }

    pub open spec fn with_term(self, name: Seq<char>) -> CtxModel {
        CtxModel { nonterms: self.nonterms, terms: self.terms.push(name), roots: self.roots, prods: self.prods }
    }

    pub open spec fn with_prod(self, head: usize, body: Seq<Symbol>) -> CtxModel {
        CtxModel {
            nonterms: self.nonterms,
            terms: self.terms,
            roots: self.roots,
            prods: self.prods.push((head, body)),
        }
    }

    pub open spec fn with_root(self, r: usize) -> CtxModel {
        if self.roots.contains(r) {
            self
        } else {
            CtxModel { nonterms: self.nonterms, terms: self.terms, roots: self.roots.push(r), prods: self.prods }
        }
    }

    /// The context and index after interning the nonterminal `name`.
    pub open spec fn intern(self, name: Seq<char>) -> (CtxModel, usize) {
        if self.has_nonterm(name) {
            (self, self.nonterm_index(name) as usize)
        } else {
            (self.with_nonterm(Some(name)), self.nonterms.len() as usize)
        }
    }

    /// The context and index after interning the terminal `name`.
    pub open spec fn intern_term(self, name: Seq<char>) -> (CtxModel, usize) {
        if self.has_term(name) {
            (self, self.term_index(name) as usize)
        } else {
            (self.with_term(name), self.terms.len() as usize)
        }
    }
}

proof fn lemma_extends_trans(a: CtxModel, b: CtxModel, c: CtxModel)
    requires
        b.extends(a),
        c.extends(b),
    ensures
        c.extends(a),
{
    assert(c.nonterms.subrange(0, a.nonterms.len() as int) =~= c.nonterms.subrange(
        0,
        b.nonterms.len() as int,
    ).subrange(0, a.nonterms.len() as int));
    assert(c.terms.subrange(0, a.terms.len() as int) =~= c.terms.subrange(0, b.terms.len() as int).subrange(
        0,
        a.terms.len() as int,
    ));
    assert(c.prods.subrange(0, a.prods.len() as int) =~= c.prods.subrange(0, b.prods.len() as int).subrange(
        0,
        a.prods.len() as int,
    ));
}

impl Context {
    pub fn new() -> (r: Context)
        ensures
            r@.wf(),
            r@.nonterms.len() == 0,
            r@.terms.len() == 0,
            r@.roots.len() == 0,
            r@.prods.len() == 0,
    {
        let r = Context {
            nonterms: Vec::new(),
            terms: Vec::new(),
            root_nonterms: Vec::new(),
            productions: Vec::new(),
        };
        proof {
            assert(r@.nonterms.len() == 0);
        }
        r
    }

    /// The first nonterminal named `name`, if any.
    pub fn find_nonterm(&self, name: &String) -> (r: Option<usize>)
        ensures
            match r {
                Some(i) => i < self@.nonterms.len() && self@.nonterms[i as int] == Some(name@),
                None => !self@.has_nonterm(name@),
            },
    {
        let mut i: usize = 0;
        while i < self.nonterms.len()
            invariant
                i <= self.nonterms@.len(),
                forall|j: int| 0 <= j < i ==> self@.nonterms[j] != Some(name@),
            decreases self.nonterms@.len() - i,
        {
            match &self.nonterms[i] {
                Some(n) => {
                    if n.eq(name) {
                        return Some(i);
                    }
                },
                None => {},
            }
            i = i + 1;
        }
        None
    }

    /// The first terminal named `name`, if any.
    pub fn find_term(&self, name: &String) -> (r: Option<usize>)
        ensures
            match r {
                Some(i) => i < self@.terms.len() && self@.terms[i as int] == name@,
                None => !self@.has_term(name@),
            },
    {
        let mut i: usize = 0;
        while i < self.terms.len()
            invariant
                i <= self.terms@.len(),
                forall|j: int| 0 <= j < i ==> self@.terms[j] != name@,
            decreases self.terms@.len() - i,
        {
            if self.terms[i].eq(name) {
                return Some(i);
            }
            i = i + 1;
        }
        None
    }

    /// The nonterminal named `name`, added if there is none.
    pub fn intern_nonterm(&mut self, name: &String) -> (r: usize)
        requires
            old(self)@.wf(),
        ensures
            final(self)@.wf(),
            final(self)@.extends(old(self)@),
            (final(self)@, r) == old(self)@.intern(name@),
            r < final(self)@.nonterms.len(),
            final(self)@.nonterms[r as int] == Some(name@),
    {
        match self.find_nonterm(name) {
            Some(i) => {
                proof {
                    let m = self@;
                    assert(m.nonterms[m.nonterm_index(name@)] == Some(name@));
                }
                i
            },
            None => {
                let i = self.nonterms.len();
                self.nonterms.push(Some(name.clone()));
                proof {
                    let m = old(self)@;
                    assert(self@.nonterms =~= m.nonterms.push(Some(name@)));
                    assert(self@.terms =~= m.terms);
                    assert(self@.prods =~= m.prods);
                    assert(self@ == m.with_nonterm(Some(name@)));
                }
                i
            },
        }
    }

    /// The terminal named `name`, added if there is none.
    pub fn intern_term(&mut self, name: &String) -> (r: usize)
        requires
            old(self)@.wf(),
        ensures
            final(self)@.wf(),
            final(self)@.extends(old(self)@),
            (final(self)@, r) == old(self)@.intern_term(name@),
    {
        match self.find_term(name) {
            Some(i) => {
                proof {
                    let m = self@;
                    assert(m.terms[m.term_index(name@)] == name@);
                }
                i
            },
            None => {
                let i = self.terms.len();
                self.terms.push(name.clone());
                proof {
                    let m = old(self)@;
                    assert(self@.nonterms =~= m.nonterms);
                    assert(self@.terms =~= m.terms.push(name@));
                    assert(self@.prods =~= m.prods);
                    assert(self@ == m.with_term(name@));
                }
                i
            },
        }
    }

    /// The nonterminal named `name`, or else the terminal of that name, if any.
    pub fn lookup_symbol(&self, name: &String) -> (r: Option<Symbol>)
        requires
            self@.wf(),
        ensures
            r == self@.lookup(name@),
    {
        match self.find_nonterm(name) {
            Some(i) => {
                proof {
                    let m = self@;
                    assert(m.nonterms[m.nonterm_index(name@)] == Some(name@));
                }
                Some(Symbol::NonTerm(i))
            },
            None => match self.find_term(name) {
                Some(i) => {
                    proof {
                        let m = self@;
                        assert(m.terms[m.term_index(name@)] == name@);
                    }
                    Some(Symbol::Term(i))
                },
                None => None,
            },
        }
    }

    /// A fresh nonterminal without a name.
    pub fn anonymous_nonterm(&mut self) -> (r: usize)
        requires
            old(self)@.wf(),
        ensures
            final(self)@.wf(),
            final(self)@.extends(old(self)@),
            final(self)@ == old(self)@.with_nonterm(None),
            r == old(self)@.nonterms.len(),
    {
        let i = self.nonterms.len();
        self.nonterms.push(None);
        proof {
            let m = old(self)@;
            assert(self@.nonterms =~= m.nonterms.push(None));
            assert(self@.terms =~= m.terms);
            assert(self@.prods =~= m.prods);
            assert(self@ == m.with_nonterm(None));
        }
        i
    }

    /// Adds the production `head -> body`.
    pub fn add_production(&mut self, head: usize, body: Vec<Symbol>)
        requires
            old(self)@.wf(),
            head < old(self)@.nonterms.len(),
            forall|k: int| 0 <= k < body@.len() ==> old(self)@.valid_symbol(#[trigger] body@[k]),
        ensures
            final(self)@.wf(),
            final(self)@.extends(old(self)@),
            final(self)@ == old(self)@.with_prod(head, body@),
    {
        let ghost b = body@;
        self.productions.push(Production { head, body });
        proof {
            let m = old(self)@;
            assert(self@.nonterms =~= m.nonterms);
            assert(self@.terms =~= m.terms);
            assert(self@.prods =~= m.prods.push((head, b)));
            assert(self@ == m.with_prod(head, b));
        }
    }

    /// Marks a nonterminal as an entry point.
    pub fn add_root(&mut self, nt: usize)
        requires
            old(self)@.wf(),
            nt < old(self)@.nonterms.len(),
        ensures
            final(self)@.wf(),
            final(self)@.extends(old(self)@),
            final(self)@ == old(self)@.with_root(nt),
    {
        if !vec_contains(&self.root_nonterms, nt) {
            self.root_nonterms.push(nt);
            proof {
                let m = old(self)@;
                assert(self@.nonterms =~= m.nonterms);
                assert(self@.terms =~= m.terms);
                assert(self@.prods =~= m.prods);
                assert(self@ == m.with_root(nt));
                assert forall|r: usize| m.roots.contains(r) implies self@.roots.contains(r) by {
                    let j = choose|j: int| 0 <= j < m.roots.len() && m.roots[j] == r;
                    assert(self@.roots[j] == r);
                }
            }
        }
    }
}

/// The context and symbol that mapping the written symbol `a` yields.
/// Epsilon stays epsilon; a name is the nonterminal or terminal of that name,
/// a new terminal if there is none. The rest get fresh anonymous
/// nonterminals:
/// a group `N -> body`; an optional symbol `O -> ε`, `O -> inner`; zero or
/// more `S -> inner`, `S -> S inner`, `A -> S`, `A -> ε` (yielding `A`); one
/// or more `O -> inner`, `O -> O inner`. An inner symbol is mapped before its
/// nonterminal is made; a group's nonterminal is made before its body.
pub open spec fn map_symbol_spec(m: CtxModel, a: AstSymbol) -> (CtxModel, Symbol)
    decreases a, 0nat,
{
    match a {
        AstSymbol::Epsilon => (m, Symbol::Epsilon),
        AstSymbol::Token(name) => match m.lookup(name@) {
            Some(s) => (m, s),
            None => (m.with_term(name@), Symbol::Term(m.terms.len() as usize)),
        },
        AstSymbol::Group(v) => {
            let g = m.nonterms.len() as usize;
            let r = map_symbols_spec(m.with_nonterm(None), v@, v@.len());
            (r.0.with_prod(g, r.1), Symbol::NonTerm(g))
        },
        AstSymbol::Maybe(b) => {
            let r = map_symbol_spec(m, *b);
            let o = r.0.nonterms.len() as usize;
            (
                r.0.with_nonterm(None).with_prod(o, seq![Symbol::Epsilon]).with_prod(o, seq![r.1]),
                Symbol::NonTerm(o),
            )
        },
        AstSymbol::Any(b) => {
            let r = map_symbol_spec(m, *b);
            let s = r.0.nonterms.len() as usize;
            let t = (r.0.nonterms.len() + 1) as usize;
            (
                r.0.with_nonterm(None).with_nonterm(None).with_prod(s, seq![r.1]).with_prod(
                    s,
                    seq![Symbol::NonTerm(s), r.1],
                ).with_prod(t, seq![Symbol::NonTerm(s)]).with_prod(t, seq![Symbol::Epsilon]),
                Symbol::NonTerm(t),
            )
        },
        AstSymbol::AtLeastOne(b) => {
            let r = map_symbol_spec(m, *b);
            let o = r.0.nonterms.len() as usize;
            (
                r.0.with_nonterm(None).with_prod(o, seq![r.1]).with_prod(
                    o,
                    seq![Symbol::NonTerm(o), r.1],
                ),
                Symbol::NonTerm(o),
            )
        },
    }
}

/// The context and symbols that mapping the first `n` written symbols, in
/// order, yields.
pub open spec fn map_symbols_spec(m: CtxModel, syms: Seq<AstSymbol>, n: nat) -> (CtxModel, Seq<Symbol>)
    decreases syms, n,
{
    if n == 0 || n > syms.len() {
        (m, Seq::empty())
    } else {
        let prev = map_symbols_spec(m, syms, (n - 1) as nat);
        let r = map_symbol_spec(prev.0, syms[n - 1]);
        (r.0, prev.1.push(r.1))
    }
}

/// How many anonymous nonterminals mapping a written symbol creates: one for
/// a group, an optional or a one-or-more symbol, two for zero-or-more, plus
/// those of the symbols inside.
pub open spec fn anon_count(a: AstSymbol) -> nat
    decreases a, 0nat,
{
    match a {
        AstSymbol::Epsilon => 0,
        AstSymbol::Token(_) => 0,
        AstSymbol::Group(v) => 1 + anon_count_seq(v@, v@.len()),
        AstSymbol::Maybe(b) => 1 + anon_count(*b),
        AstSymbol::Any(b) => 2 + anon_count(*b),
        AstSymbol::AtLeastOne(b) => 1 + anon_count(*b),
    }
}

/// The anonymous nonterminals that mapping the first `n` symbols creates.
pub open spec fn anon_count_seq(syms: Seq<AstSymbol>, n: nat) -> nat
    decreases syms, n,
{
    if n == 0 || n > syms.len() {
        0
    } else {
        anon_count_seq(syms, (n - 1) as nat) + anon_count(syms[n - 1])
    }
}

/// Mapping a symbol adds exactly `anon_count` nonterminals.
pub proof fn lemma_symbol_anon_count(m: CtxModel, a: AstSymbol)
    ensures
        map_symbol_spec(m, a).0.nonterms.len() == m.nonterms.len() + anon_count(a),
    decreases a, 0nat,
{
    match a {
        AstSymbol::Group(v) => {
            lemma_symbols_anon_count(m.with_nonterm(None), v@, v@.len());
        },
        AstSymbol::Maybe(b) => {
            lemma_symbol_anon_count(m, *b);
        },
        AstSymbol::Any(b) => {
            lemma_symbol_anon_count(m, *b);
        },
        AstSymbol::AtLeastOne(b) => {
            lemma_symbol_anon_count(m, *b);
        },
        _ => {},
    }
}

/// Mapping a sequence of symbols adds exactly `anon_count_seq` nonterminals.
pub proof fn lemma_symbols_anon_count(m: CtxModel, syms: Seq<AstSymbol>, n: nat)
    ensures
        map_symbols_spec(m, syms, n).0.nonterms.len() == m.nonterms.len() + anon_count_seq(syms, n),
    decreases syms, n,
{
    if n > 0 && n <= syms.len() {
        lemma_symbols_anon_count(m, syms, (n - 1) as nat);
        lemma_symbol_anon_count(map_symbols_spec(m, syms, (n - 1) as nat).0, syms[n - 1]);
    }
}

/// The anonymous nonterminals that the first `n` choices create.
pub open spec fn anon_count_choices(choices: Seq<Vec<AstSymbol>>, n: nat) -> nat
    decreases n,
{
    if n == 0 || n > choices.len() {
        0
    } else {
        anon_count_choices(choices, (n - 1) as nat) + anon_count_seq(choices[n - 1]@, choices[n - 1]@.len())
    }
}

/// The anonymous nonterminals that the choices of the first `n` nonterminals
/// create.
pub open spec fn anon_count_rules(nts: Seq<NonTermDef>, n: nat) -> nat
    decreases n,
{
    if n == 0 || n > nts.len() {
        0
    } else {
        anon_count_rules(nts, (n - 1) as nat) + anon_count_choices(nts[n - 1].choices@, nts[n - 1].choices@.len())
    }
}

/// The context after declaring the first `n` nonterminals of `nts`, in
/// order: each is interned, and made a root if public.
pub open spec fn declare_spec(m: CtxModel, nts: Seq<NonTermDef>, n: nat) -> CtxModel
    decreases n,
{
    if n == 0 || n > nts.len() {
        m
    } else {
        let prev = declare_spec(m, nts, (n - 1) as nat);
        let r = prev.intern(nts[n - 1].name@);
        if nts[n - 1].public {
            r.0.with_root(r.1)
        } else {
            r.0
        }
    }
}

/// The context after the first `n` choices became productions of `head`,
/// in order, each after its symbols were mapped.
pub open spec fn choices_spec(m: CtxModel, head: usize, choices: Seq<Vec<AstSymbol>>, n: nat) -> CtxModel
    decreases n,
{
    if n == 0 || n > choices.len() {
        m
    } else {
        let prev = choices_spec(m, head, choices, (n - 1) as nat);
        let r = map_symbols_spec(prev, choices[n - 1]@, choices[n - 1]@.len());
        r.0.with_prod(head, r.1)
    }
}

/// The context after the choices of the first `n` nonterminals of `nts`
/// became productions, in order.
pub open spec fn rules_spec(m: CtxModel, nts: Seq<NonTermDef>, n: nat) -> CtxModel
    decreases n,
{
    if n == 0 || n > nts.len() {
        m
    } else {
        let prev = rules_spec(m, nts, (n - 1) as nat);
        let r = prev.intern(nts[n - 1].name@);
        choices_spec(r.0, r.1, nts[n - 1].choices@, nts[n - 1].choices@.len())
    }
}

/// The context after adding a grammar: all nonterminals are declared first,
/// then the productions are added.
pub open spec fn populated(m: CtxModel, nts: Seq<NonTermDef>) -> CtxModel {
    rules_spec(declare_spec(m, nts, nts.len()), nts, nts.len())
}

proof fn lemma_names_kept(a: CtxModel, b: CtxModel, name: Seq<char>)
    requires
        b.extends(a),
        b.wf(),
        a.has_nonterm(name),
    ensures
        b.has_nonterm(name),
        b.nonterm_index(name) == a.nonterm_index(name),
{
    let j = a.nonterm_index(name);
    assert(b.nonterms[j] == b.nonterms.subrange(0, a.nonterms.len() as int)[j]);
    assert(b.nonterms[b.nonterm_index(name)] == Some(name));
}

/// Populate a context with a parsed grammar: every nonterminal of the grammar
/// is declared under its name, public ones as entry points, and then each of
/// its choices becomes one production of it, in order.
pub fn add_ast(ctx: &mut Context, ast: Grammar)
    requires
        old(ctx)@.wf(),
    ensures
        final(ctx)@.wf(),
        final(ctx)@.extends(old(ctx)@),
        final(ctx)@ == populated(old(ctx)@, ast.nts@),
        ast.nts@.len() == 0 ==> final(ctx)@ == old(ctx)@,
        final(ctx)@.nonterms.len() == declare_spec(old(ctx)@, ast.nts@, ast.nts@.len()).nonterms.len()
            + anon_count_rules(ast.nts@, ast.nts@.len()),
        forall|i: int| 0 <= i < ast.nts@.len() ==> final(ctx)@.has_nonterm(#[trigger] ast.nts@[i].name@),
        forall|i: int|
            0 <= i < ast.nts@.len() && ast.nts@[i].public ==> final(ctx)@.roots.contains(
                final(ctx)@.nonterm_index(#[trigger] ast.nts@[i].name@) as usize,
            ),
        forall|r: usize|
            #[trigger] final(ctx)@.roots.contains(r) ==> old(ctx)@.roots.contains(r) || exists|i: int|
                0 <= i < ast.nts@.len() && ast.nts@[i].public && r < final(ctx)@.nonterms.len()
                    && final(ctx)@.nonterms[r as int] == Some(#[trigger] ast.nts@[i].name@),
{
    let mut i: usize = 0;
    while i < ast.nts.len()
        invariant
            i <= ast.nts@.len(),
            ctx@.wf(),
            ctx@.extends(old(ctx)@),
            ctx@ == declare_spec(old(ctx)@, ast.nts@, i as nat),
            forall|k: int| 0 <= k < i ==> ctx@.has_nonterm(#[trigger] ast.nts@[k].name@),
            forall|k: int|
                0 <= k < i && ast.nts@[k].public ==> ctx@.roots.contains(
                    ctx@.nonterm_index(#[trigger] ast.nts@[k].name@) as usize,
                ),
            forall|r: usize|
                #[trigger] ctx@.roots.contains(r) ==> old(ctx)@.roots.contains(r) || exists|k: int|
                    0 <= k < i && ast.nts@[k].public && r < ctx@.nonterms.len() && ctx@.nonterms[r as int]
                        == Some(#[trigger] ast.nts@[k].name@),
        decreases ast.nts@.len() - i,
    {
        let ghost before = ctx@;
        let nt = &ast.nts[i];
        let nonterm = ctx.intern_nonterm(&nt.name);
        let ghost interned = ctx@;
        proof {
            assert(interned.nonterms[nonterm as int] == Some(nt.name@));
        }
        if nt.public {
            let ghost mid = ctx@;
            ctx.add_root(nonterm);
            proof {
                lemma_extends_trans(before, mid, ctx@);
                if !mid.roots.contains(nonterm) {
                    assert(ctx@.roots[ctx@.roots.len() - 1] == nonterm);
                }
                assert(ctx@.roots.contains(nonterm));
            }
        }
        proof {
            lemma_extends_trans(old(ctx)@, before, ctx@);
            lemma_extends_trans(before, interned, ctx@);
            assert(ctx@.nonterms == interned.nonterms);
            assert(ctx@.nonterms[nonterm as int] == Some(nt.name@));
            assert(ctx@.nonterm_index(nt.name@) == nonterm as int);
            assert forall|k: int| 0 <= k < i + 1 implies ctx@.has_nonterm(#[trigger] ast.nts@[k].name@) by {
                if k < i {
                    lemma_names_kept(before, ctx@, ast.nts@[k].name@);
                }
            }
            assert forall|k: int| 0 <= k < i + 1 && ast.nts@[k].public implies ctx@.roots.contains(
                ctx@.nonterm_index(#[trigger] ast.nts@[k].name@) as usize,
            ) by {
                if k < i {
                    lemma_names_kept(before, ctx@, ast.nts@[k].name@);
                }
            }
            assert forall|r: usize| #[trigger] ctx@.roots.contains(r) implies old(ctx)@.roots.contains(r)
                || exists|k: int|
                0 <= k < i + 1 && ast.nts@[k].public && r < ctx@.nonterms.len() && ctx@.nonterms[r as int]
                    == Some(#[trigger] ast.nts@[k].name@) by {
                if before.roots.contains(r) {
                    if !old(ctx)@.roots.contains(r) {
                        let k = choose|k: int|
                            0 <= k < i && ast.nts@[k].public && r < before.nonterms.len()
                                && before.nonterms[r as int] == Some(#[trigger] ast.nts@[k].name@);
                        assert(ctx@.nonterms[r as int] == ctx@.nonterms.subrange(0, before.nonterms.len() as int)[r as int]);
                        assert(ctx@.nonterms[r as int] == Some(ast.nts@[k].name@));
                    }
                } else {
                    assert(interned.roots == before.roots);
                    assert(nt.public && r == nonterm);
                    assert(ctx@.nonterms[r as int] == Some(ast.nts@[i as int].name@));
                }
            }
        }
        i = i + 1;
    }
    let ghost declared = ctx@;
    let mut i: usize = 0;
    while i < ast.nts.len()
        invariant
            i <= ast.nts@.len(),
            ctx@.wf(),
            ctx@.extends(old(ctx)@),
            declared == declare_spec(old(ctx)@, ast.nts@, ast.nts@.len()),
            ctx@ == rules_spec(declared, ast.nts@, i as nat),
            ctx@.extends(declared),
            ctx@.roots == declared.roots,
            forall|k: int| 0 <= k < ast.nts@.len() ==> declared.has_nonterm(#[trigger] ast.nts@[k].name@),
            ctx@.nonterms.len() == declared.nonterms.len() + anon_count_rules(ast.nts@, i as nat),
        decreases ast.nts@.len() - i,
    {
        let nt = &ast.nts[i];
        let ghost before = ctx@;
        let nonterm = ctx.intern_nonterm(&nt.name);
        let ghost interned = ctx@;
        proof {
            lemma_extends_trans(declared, before, interned);
            lemma_names_kept(declared, before, nt.name@);
            assert(interned == before);
        }
        let mut c: usize = 0;
        while c < nt.choices.len()
            invariant
                c <= nt.choices@.len(),
                ctx@.wf(),
                ctx@.extends(old(ctx)@),
                nonterm < ctx@.nonterms.len(),
                ctx@ == choices_spec(interned, nonterm, nt.choices@, c as nat),
                ctx@.extends(declared),
                ctx@.roots == declared.roots,
                ctx@.nonterms.len() == declared.nonterms.len() + anon_count_rules(ast.nts@, i as nat)
                    + anon_count_choices(nt.choices@, c as nat),
            decreases nt.choices@.len() - c,
        {
            let ghost step = ctx@;
            let syms = map_symbols(ctx, &nt.choices[c]);
            let ghost mid = ctx@;
            ctx.add_production(nonterm, syms);
            proof {
                lemma_extends_trans(step, mid, ctx@);
                lemma_extends_trans(old(ctx)@, step, ctx@);
                lemma_extends_trans(declared, step, ctx@);
            }
            c = c + 1;
        }
        i = i + 1;
    }
    proof {
        let fin = ctx@;
        assert forall|k: int| 0 <= k < ast.nts@.len() implies fin.has_nonterm(#[trigger] ast.nts@[k].name@) by {
            lemma_names_kept(declared, fin, ast.nts@[k].name@);
        }
        assert forall|k: int| 0 <= k < ast.nts@.len() && ast.nts@[k].public implies fin.roots.contains(
            fin.nonterm_index(#[trigger] ast.nts@[k].name@) as usize,
        ) by {
            lemma_names_kept(declared, fin, ast.nts@[k].name@);
        }
        assert forall|r: usize| #[trigger] fin.roots.contains(r) implies old(ctx)@.roots.contains(r)
            || exists|k: int|
            0 <= k < ast.nts@.len() && ast.nts@[k].public && r < fin.nonterms.len() && fin.nonterms[r as int]
                == Some(#[trigger] ast.nts@[k].name@) by {
            if !old(ctx)@.roots.contains(r) {
                let k = choose|k: int|
                    0 <= k < ast.nts@.len() && ast.nts@[k].public && r < declared.nonterms.len()
                        && declared.nonterms[r as int] == Some(#[trigger] ast.nts@[k].name@);
                assert(fin.nonterms[r as int] == fin.nonterms.subrange(0, declared.nonterms.len() as int)[r as int]);
            }
        }
    }
}

/// Maps each symbol of a sequence, in order.
fn map_symbols(ctx: &mut Context, syms: &Vec<AstSymbol>) -> (r: Vec<Symbol>)
    requires
        old(ctx)@.wf(),
    ensures
        final(ctx)@.wf(),
        final(ctx)@.extends(old(ctx)@),
        final(ctx)@.roots == old(ctx)@.roots,
        forall|k: int| 0 <= k < r@.len() ==> final(ctx)@.valid_symbol(#[trigger] r@[k]),
        (final(ctx)@, r@) == map_symbols_spec(old(ctx)@, syms@, syms@.len()),
        final(ctx)@.nonterms.len() == old(ctx)@.nonterms.len() + anon_count_seq(syms@, syms@.len()),
    decreases syms,
{
    proof {
        lemma_symbols_anon_count(old(ctx)@, syms@, syms@.len());
    }
    let mut output: Vec<Symbol> = Vec::new();
    let mut i: usize = 0;
    while i < syms.len()
        invariant
            i <= syms@.len(),
            ctx@.wf(),
            ctx@.extends(old(ctx)@),
            ctx@.roots == old(ctx)@.roots,
            forall|k: int| 0 <= k < output@.len() ==> ctx@.valid_symbol(#[trigger] output@[k]),
            (ctx@, output@) == map_symbols_spec(old(ctx)@, syms@, i as nat),
        decreases syms@.len() - i,
    {
        proof {
            assert(decreases_to!(syms => syms@));
            assert(decreases_to!(syms@ => syms@[i as int]));
        }
        let ghost before = ctx@;
        let s = map_symbol(ctx, &syms[i]);
        output.push(s);
        proof {
            lemma_extends_trans(old(ctx)@, before, ctx@);
            assert(output@ =~= map_symbols_spec(old(ctx)@, syms@, i as nat).1.push(s));
        }
        i = i + 1;
    }
    output
}

/// Maps one symbol, adding the productions of the anonymous nonterminals that
/// groups, optional and repeated symbols stand for.
fn map_symbol(ctx: &mut Context, sym: &AstSymbol) -> (r: Symbol)
    requires
        old(ctx)@.wf(),
    ensures
        final(ctx)@.wf(),
        final(ctx)@.extends(old(ctx)@),
        final(ctx)@.roots == old(ctx)@.roots,
        final(ctx)@.valid_symbol(r),
        (final(ctx)@, r) == map_symbol_spec(old(ctx)@, *sym),
        final(ctx)@.nonterms.len() == old(ctx)@.nonterms.len() + anon_count(*sym),
        match sym {
            AstSymbol::Epsilon => r == Symbol::Epsilon && final(ctx)@ == old(ctx)@,
            AstSymbol::Token(name) => match old(ctx)@.lookup(name@) {
                Some(s) => r == s && final(ctx)@ == old(ctx)@,
                None => {
                    &&& r == Symbol::Term(old(ctx)@.terms.len() as usize)
                    &&& final(ctx)@ == old(ctx)@.with_term(name@)
                },
            },
            _ => true,
        },
    decreases sym,
{
    proof {
        lemma_symbol_anon_count(old(ctx)@, *sym);
    }
    let ghost start = ctx@;
    match sym {
        AstSymbol::Epsilon => Symbol::Epsilon,
        AstSymbol::Token(name) => match ctx.lookup_symbol(name) {
            Some(s) => s,
            None => {
                let t = ctx.intern_term(name);
                Symbol::Term(t)
            },
        },
        AstSymbol::Group(syms) => {
            let nonterm = ctx.anonymous_nonterm();
            let ghost a = ctx@;
            let body = map_symbols(ctx, syms);
            let ghost b = ctx@;
            ctx.add_production(nonterm, body);
            proof {
                lemma_extends_trans(start, a, b);
                lemma_extends_trans(start, b, ctx@);
            }
            Symbol::NonTerm(nonterm)
        },
        AstSymbol::Maybe(inner) => {
            let inner = map_symbol(ctx, inner);
            let ghost a = ctx@;
            let outer = ctx.anonymous_nonterm();
            let ghost b = ctx@;
            let v1 = vec![Symbol::Epsilon];
            proof { assert(v1@ =~= seq![Symbol::Epsilon]); }
            ctx.add_production(outer, v1);
            let ghost c = ctx@;
            let v2 = vec![inner];
            proof { assert(v2@ =~= seq![inner]); }
            ctx.add_production(outer, v2);
            proof {
                lemma_extends_trans(start, a, b);
                lemma_extends_trans(start, b, c);
                lemma_extends_trans(start, c, ctx@);
            }
            Symbol::NonTerm(outer)
        },
        AstSymbol::Any(inner) => {
            let inner = map_symbol(ctx, inner);
            let ghost a = ctx@;
            let outer_some = ctx.anonymous_nonterm();
            let ghost b = ctx@;
            let outer_any = ctx.anonymous_nonterm();
            let ghost c = ctx@;
            let v1 = vec![inner];
            proof { assert(v1@ =~= seq![inner]); }
            ctx.add_production(outer_some, v1);
            let ghost d = ctx@;
            let v2 = vec![Symbol::NonTerm(outer_some), inner];
            proof { assert(v2@ =~= seq![Symbol::NonTerm(outer_some), inner]); }
            ctx.add_production(outer_some, v2);
            let ghost e = ctx@;
            let v3 = vec![Symbol::NonTerm(outer_some)];
            proof { assert(v3@ =~= seq![Symbol::NonTerm(outer_some)]); }
            ctx.add_production(outer_any, v3);
            let ghost f = ctx@;
            let v4 = vec![Symbol::Epsilon];
            proof { assert(v4@ =~= seq![Symbol::Epsilon]); }
            ctx.add_production(outer_any, v4);
            proof {
                lemma_extends_trans(start, a, b);
                lemma_extends_trans(start, b, c);
                lemma_extends_trans(start, c, d);
                lemma_extends_trans(start, d, e);
                lemma_extends_trans(start, e, f);
                lemma_extends_trans(start, f, ctx@);
            }
            Symbol::NonTerm(outer_any)
        },
        AstSymbol::AtLeastOne(inner) => {
            let inner = map_symbol(ctx, inner);
            let ghost a = ctx@;
            let outer = ctx.anonymous_nonterm();
            let ghost b = ctx@;
            let v1 = vec![inner];
            proof { assert(v1@ =~= seq![inner]); }
            ctx.add_production(outer, v1);
            let ghost c = ctx@;
            let v2 = vec![Symbol::NonTerm(outer), inner];
            proof { assert(v2@ =~= seq![Symbol::NonTerm(outer), inner]); }
            ctx.add_production(outer, v2);
            proof {
                lemma_extends_trans(start, a, b);
                lemma_extends_trans(start, b, c);
                lemma_extends_trans(start, c, ctx@);
            }
            Symbol::NonTerm(outer)
        },
    }
}

fn vec_contains(v: &Vec<usize>, x: usize) -> (r: bool)
    ensures
        r == v@.contains(x),
{
    let mut i: usize = 0;
    while i < v.len()
        invariant
            i <= v@.len(),
            forall|j: int| 0 <= j < i ==> v@[j] != x,
        decreases v@.len() - i,
    {
        if v[i] == x {
            return true;
        }
        i = i + 1;
    }
    false
}

} // verus!
