//! The elaborated design data that lowering reads: folded constants,
//! declarations and statements, each kind a variant of a closed union.

use vstd::prelude::*;

verus! {

/// A folded constant value.
#[derive(PartialEq, Eq, Structural, Clone, Copy, Debug)]
pub enum Const {
    Null,
    Int(i64),
    /// A literal of an enumeration: the enumeration's declaration id and the
    /// literal's position.
    Enum { decl: usize, index: usize },
    /// Floating-point values and ranges are excluded by type checking and
    /// never reach lowering; their values play no part here.
    Float,
    IntRange,
    FloatRange,
}

/// A signal declaration.
#[derive(Clone, Debug)]
pub struct SignalDecl {
    pub name: String,
    /// The folded initializer expression, if one was written.
    pub init: Option<Const>,
    /// The default value of the signal's type.
    pub default: Const,
}

impl SignalDecl {
    /// The value the signal starts with.
    pub open spec fn initial(&self) -> Const {
        match self.init {
            Some(k) => k,
            None => self.default,
        }
    }
}

/// A declaration inside a block.
#[derive(Clone, Debug)]
pub enum DeclInBlock {
    Subprog,
    SubprogBody,
    SubprogInst,
    Pkg,
    PkgBody,
    PkgInst,
    Type,
    Subtype,
    Const,
    Signal(SignalDecl),
    Var,
    File,
    Alias,
    Comp,
    Attr,
    AttrSpec,
    CfgSpec,
    Discon,
    GroupTemp,
    Group,
}

impl DeclInBlock {
    /// Declarations that produce no IR.
    pub open spec fn is_passive(&self) -> bool {
        match self {
            DeclInBlock::Type | DeclInBlock::Subtype | DeclInBlock::Alias | DeclInBlock::Attr
            | DeclInBlock::AttrSpec | DeclInBlock::CfgSpec | DeclInBlock::Discon
            | DeclInBlock::GroupTemp | DeclInBlock::Group => true,
            _ => false,
        }
    }

    /// The kind of the declaration, in words.
    pub open spec fn kind(&self) -> Seq<char> {
        match self {
            DeclInBlock::Subprog => "subprogram declaration"@,
            DeclInBlock::SubprogBody => "subprogram body"@,
            DeclInBlock::SubprogInst => "subprogram instantiation"@,
            DeclInBlock::Pkg => "package declaration"@,
            DeclInBlock::PkgBody => "package body"@,
            DeclInBlock::PkgInst => "package instantiation"@,
            DeclInBlock::Type => "type declaration"@,
            DeclInBlock::Subtype => "subtype declaration"@,
            DeclInBlock::Const => "constant declaration"@,
            DeclInBlock::Signal(_) => "signal declaration"@,
            DeclInBlock::Var => "variable declaration"@,
            DeclInBlock::File => "file declaration"@,
            DeclInBlock::Alias => "alias declaration"@,
            DeclInBlock::Comp => "component declaration"@,
            DeclInBlock::Attr => "attribute declaration"@,
            DeclInBlock::AttrSpec => "attribute specification"@,
            DeclInBlock::CfgSpec => "configuration specification"@,
            DeclInBlock::Discon => "disconnection specification"@,
            DeclInBlock::GroupTemp => "group template declaration"@,
            DeclInBlock::Group => "group declaration"@,
        }
    }

    pub fn kind_name(&self) -> (r: &'static str)
        ensures
            r@ == self.kind(),
    {
        match self {
            DeclInBlock::Subprog => "subprogram declaration",
            DeclInBlock::SubprogBody => "subprogram body",
            DeclInBlock::SubprogInst => "subprogram instantiation",
            DeclInBlock::Pkg => "package declaration",
            DeclInBlock::PkgBody => "package body",
            DeclInBlock::PkgInst => "package instantiation",
            DeclInBlock::Type => "type declaration",
            DeclInBlock::Subtype => "subtype declaration",
            DeclInBlock::Const => "constant declaration",
            DeclInBlock::Signal(_) => "signal declaration",
            DeclInBlock::Var => "variable declaration",
            DeclInBlock::File => "file declaration",
            DeclInBlock::Alias => "alias declaration",
            DeclInBlock::Comp => "component declaration",
            DeclInBlock::Attr => "attribute declaration",
            DeclInBlock::AttrSpec => "attribute specification",
            DeclInBlock::CfgSpec => "configuration specification",
            DeclInBlock::Discon => "disconnection specification",
            DeclInBlock::GroupTemp => "group template declaration",
            DeclInBlock::Group => "group declaration",
        }
    }
}

/// A sequential statement.
#[derive(PartialEq, Eq, Structural, Clone, Copy, Debug)]
pub enum SeqStmt {
    Wait,
    Assert,
    Report,
    SigAssign,
    VarAssign,
    Call,
    If,
    Case,
    Loop,
    Next,
    Exit,
    Return,
    Null,
}

impl SeqStmt {
    /// The kind of the statement, in words.
    pub open spec fn kind(&self) -> Seq<char> {
        match self {
            SeqStmt::Wait => "wait statement"@,
            SeqStmt::Assert => "assertion statement"@,
            SeqStmt::Report => "report statement"@,
            SeqStmt::SigAssign => "signal assignment statement"@,
            SeqStmt::VarAssign => "variable assignment statement"@,
            SeqStmt::Call => "procedure call statement"@,
            SeqStmt::If => "if statement"@,
            SeqStmt::Case => "case statement"@,
            SeqStmt::Loop => "loop statement"@,
            SeqStmt::Next => "next statement"@,
            SeqStmt::Exit => "exit statement"@,
            SeqStmt::Return => "return statement"@,
            SeqStmt::Null => "null statement"@,
        }
    }

    pub fn kind_name(&self) -> (r: &'static str)
        ensures
            r@ == self.kind(),
    {
        match self {
            SeqStmt::Wait => "wait statement",
            SeqStmt::Assert => "assertion statement",
            SeqStmt::Report => "report statement",
            SeqStmt::SigAssign => "signal assignment statement",
            SeqStmt::VarAssign => "variable assignment statement",
            SeqStmt::Call => "procedure call statement",
            SeqStmt::If => "if statement",
            SeqStmt::Case => "case statement",
            SeqStmt::Loop => "loop statement",
            SeqStmt::Next => "next statement",
            SeqStmt::Exit => "exit statement",
            SeqStmt::Return => "return statement",
            SeqStmt::Null => "null statement",
        }
    }
}

/// A process statement: its optional label and its body.
#[derive(Clone, Debug)]
pub struct ProcessStmt {
    pub label: Option<String>,
    pub stmts: Vec<SeqStmt>,
}

/// A concurrent statement.
#[derive(Clone, Debug)]
pub enum ConcStmt {
    Block,
    Process(ProcessStmt),
    ConcProcCall,
    ConcAssert,
    ConcSigAssign,
    CompInst,
    ForGen,
    IfGen,
    CaseGen,
}

impl ConcStmt {
    /// The kind of the statement, in words.
    pub open spec fn kind(&self) -> Seq<char> {
        match self {
            ConcStmt::Block => "block statement"@,
            ConcStmt::Process(_) => "process statement"@,
            ConcStmt::ConcProcCall => "concurrent procedure call"@,
            ConcStmt::ConcAssert => "concurrent assertion"@,
            ConcStmt::ConcSigAssign => "concurrent signal assignment"@,
            ConcStmt::CompInst => "component instantiation"@,
            ConcStmt::ForGen => "for generate statement"@,
            ConcStmt::IfGen => "if generate statement"@,
            ConcStmt::CaseGen => "case generate statement"@,
        }
    }

    pub fn kind_name(&self) -> (r: &'static str)
        ensures
            r@ == self.kind(),
    {
        match self {
            ConcStmt::Block => "block statement",
            ConcStmt::Process(_) => "process statement",
            ConcStmt::ConcProcCall => "concurrent procedure call",
            ConcStmt::ConcAssert => "concurrent assertion",
            ConcStmt::ConcSigAssign => "concurrent signal assignment",
            ConcStmt::CompInst => "component instantiation",
            ConcStmt::ForGen => "for generate statement",
            ConcStmt::IfGen => "if generate statement",
            ConcStmt::CaseGen => "case generate statement",
        }
    }
}

} // verus!
