//! Lowering of resolved types, constants, declarations and concurrent
//! statements into the IR.

use vstd::prelude::*;
use vstd::string::*;
use crate::diag::{Diagnostic, Failure, Fault, Severity, diag_views, emit, failure_of, sink_after};
use crate::hir::{ConcStmt, Const, DeclInBlock, ProcessStmt, SeqStmt, SignalDecl};
use crate::ir::{ExtUnit, Inst, Module, Unit, UnitBuilder, UnitKind, Value};
use crate::ty::{ArrayIndex, Dir, IrType, Ty, TypeModel, bits, enum_size, map_fields, map_ty, wrap_indices};

verus! {

/// The state lowering works against: what earlier stages resolved, the
/// diagnostic sink, and the module that finished units are added to.
pub struct ScoreContext {
    /// For each enumeration declaration id, its literal count, or `None`
    /// where the declaration's data is not available.
    pub enums: Vec<Option<usize>>,
    pub diags: Vec<Diagnostic>,
    pub module: Module,
}

/// The step changed nothing but the diagnostic sink.
pub open spec fn only_diags(post: &ScoreContext, pre: &ScoreContext) -> bool {
    &&& post.enums == pre.enums
    &&& post.module == pre.module
}

/// Bits needed to represent `n` is at most `k` when `n < 2^k`.
proof fn lemma_bits_bound(n: nat, k: nat)
    requires
        n < vstd::arithmetic::power2::pow2(k),
    ensures
        bits(n) <= k,
    decreases k,
{
    if n > 0 && k > 0 {
        vstd::arithmetic::power2::lemma_pow2_unfold(k);
        lemma_bits_bound(n / 2, (k - 1) as nat);
    } else if n > 0 {
        vstd::arithmetic::power2::lemma2_to64();
    }
}

/// The number of bits needed to represent `n`.
pub fn bit_width(n: u64) -> (r: usize)
    ensures
        r == bits(n as nat),
{
    proof {
        vstd::arithmetic::power2::lemma2_to64();
        lemma_bits_bound(n as nat, 64);
    }
    let mut m: u64 = n;
    let mut c: usize = 0;
    while m > 0
        invariant
            c + bits(m as nat) == bits(n as nat),
            bits(n as nat) <= 64,
        decreases m,
    {
        m = m / 2;
        c = c + 1;
    }
    c
}

/// Once mapping the fields fails, mapping more of them fails the same way.
proof fn lemma_fields_fail_stays(enums: Seq<Option<usize>>, fields: Seq<Ty>, n: nat, m: nat)
    requires
        0 < n <= m <= fields.len(),
        map_fields(enums, fields, n) is Err,
    ensures
        map_fields(enums, fields, m) == map_fields(enums, fields, n),
    decreases m - n,
{
    if m > n {
        lemma_fields_fail_stays(enums, fields, n, (m - 1) as nat);
    }
}

/// The width given to integer constants, whose width is not checked against
/// the type they stand in.
pub const UNSIZED_INT_WIDTH: usize = 999;

/// The width and value of the integer constant a constant lowers to, or
/// `None` where it cannot be lowered.
pub open spec fn const_inst(enums: Seq<Option<usize>>, k: Const) -> Option<(usize, i128)> {
    match k {
        Const::Null => Some((0, 0)),
        Const::Int(v) => Some((UNSIZED_INT_WIDTH, v as i128)),
        Const::Enum { decl, index } => match enum_size(enums, decl) {
            Some(n) => Some((n as usize, index as i128)),
            None => None,
        },
        _ => None,
    }
}

pub open spec fn not_implemented_message(kind: Seq<char>) -> Seq<char> {
    "code generation for "@ + kind + " not implemented"@
}

/// The name of the unit made for a process inside the unit named `outer`.
pub open spec fn process_name(outer: Seq<char>, label: Option<Seq<char>>) -> Seq<char> {
    match label {
        Some(l) => outer + "_"@ + l,
        None => outer + "_proc"@,
    }
}

/// `u` is a process unit named `name` with one empty block named "entry" and
/// no extern units.
pub open spec fn is_empty_process(u: Unit, name: Seq<char>) -> bool {
    &&& u.name@ == name
    &&& u.kind == UnitKind::Process
    &&& u.externs@.len() == 0
    &&& u.blocks@.len() == 1
    &&& u.blocks@[0].name@ == "entry"@
    &&& u.blocks@[0].insts@.len() == 0
}

/// `i` instantiates the extern unit `e` with no signals wired.
pub open spec fn is_bare_instance(i: Inst, e: ExtUnit) -> bool {
    match i {
        Inst::Inst { unit, inputs, outputs } => unit == e && inputs@.len() == 0 && outputs@.len()
            == 0,
        _ => false,
    }
}

/// The caller's builder after a process was instantiated in it: one extern
/// unit named `name` was declared and one instance of it was appended.
pub open spec fn instantiated(post: UnitBuilder, pre: UnitBuilder, name: Seq<char>) -> bool {
    &&& post.block == pre.block
    &&& post.unit.name == pre.unit.name
    &&& post.unit.kind == pre.unit.kind
    &&& post.unit.externs@.len() == pre.unit.externs@.len() + 1
    &&& post.unit.externs@.drop_last() == pre.unit.externs@
    &&& post.unit.externs@.last()@ == name
    &&& post.unit.blocks@.len() == pre.unit.blocks@.len()
    &&& forall|i: int|
        0 <= i < post.unit.blocks@.len() && i != post.block ==> #[trigger] post.unit.blocks@[i]
            == pre.unit.blocks@[i]
    &&& post.unit.blocks@[post.block as int].name == pre.unit.blocks@[pre.block as int].name
    &&& post.current().drop_last() == pre.current()
    &&& post.current().len() == pre.current().len() + 1
    &&& is_bare_instance(post.current().last(), ExtUnit { index: pre.unit.externs@.len() as usize })
}

/// The outcome of lowering a declaration.
pub open spec fn decl_lowered(
    post: ScoreContext,
    pre: ScoreContext,
    post_ctx: UnitBuilder,
    pre_ctx: UnitBuilder,
    decl: DeclInBlock,
    r: Result<(), Failure>,
) -> bool {
    &&& only_diags(&post, &pre)
    &&& match decl {
        DeclInBlock::Signal(s) => {
            &&& post.diags@ == pre.diags@
            &&& match const_inst(pre.enums@, s.initial()) {
                Some((w, v)) => {
                    &&& r is Ok
                    &&& post_ctx.same_but_current(&pre_ctx)
                    &&& post_ctx.current() == pre_ctx.current().push(
                        Inst::ConstInt { width: w, value: v },
                    ).push(
                        Inst::Sig {
                            init: Value {
                                block: pre_ctx.block,
                                index: pre_ctx.current().len() as usize,
                            },
                        },
                    )
                },
                None => r == Err::<(), Failure>(Failure::Defect) && post_ctx == pre_ctx,
            }
        },
        _ => {
            &&& post_ctx == pre_ctx
            &&& decl.is_passive() ==> r is Ok && post.diags@ == pre.diags@
            &&& !decl.is_passive() ==> r == Err::<(), Failure>(Failure::Reported) && diag_views(
                post.diags@,
            ) == diag_views(pre.diags@).push(
                (Severity::Bug, not_implemented_message(decl.kind())),
            )
        },
    }
}

/// The outcome of lowering a sequential statement.
pub open spec fn seq_lowered(
    post: ScoreContext,
    pre: ScoreContext,
    post_ctx: UnitBuilder,
    pre_ctx: UnitBuilder,
    stmt: SeqStmt,
    r: Result<(), Failure>,
) -> bool {
    &&& post_ctx == pre_ctx
    &&& only_diags(&post, &pre)
    &&& r == Err::<(), Failure>(Failure::Reported)
    &&& diag_views(post.diags@) == diag_views(pre.diags@).push(
        (Severity::Bug, not_implemented_message(stmt.kind())),
    )
}

/// The outcome of lowering a concurrent statement.
pub open spec fn conc_lowered(
    post: ScoreContext,
    pre: ScoreContext,
    post_ctx: UnitBuilder,
    pre_ctx: UnitBuilder,
    stmt: ConcStmt,
    r: Result<(), Failure>,
) -> bool {
    &&& post.enums == pre.enums
    &&& match stmt {
        ConcStmt::Process(p) => process_lowered(post, pre, post_ctx, pre_ctx, p, r),
        _ => {
            &&& r == Err::<(), Failure>(Failure::Reported)
            &&& post.module == pre.module
            &&& post_ctx == pre_ctx
            &&& diag_views(post.diags@) == diag_views(pre.diags@).push(
                (Severity::Bug, not_implemented_message(stmt.kind())),
            )
        },
    }
}

/// The outcome of lowering a process. An empty body yields a process unit
/// added to the module and one instance of it in the caller. Otherwise the
/// first statement's report is the only effect: neither the module nor the
/// caller refers to a unit that was not finished.
pub open spec fn process_lowered(
    post: ScoreContext,
    pre: ScoreContext,
    post_ctx: UnitBuilder,
    pre_ctx: UnitBuilder,
    stmt: ProcessStmt,
    r: Result<(), Failure>,
) -> bool {
    &&& post.enums == pre.enums
    &&& stmt.stmts@.len() == 0 ==> {
        let name = process_name(
            pre_ctx.unit.name@,
            match stmt.label {
                Some(l) => Some(l@),
                None => None,
            },
        );
        &&& r is Ok
        &&& post.diags@ == pre.diags@
        &&& post.module.units@.len() == pre.module.units@.len() + 1
        &&& post.module.units@.drop_last() == pre.module.units@
        &&& is_empty_process(post.module.units@.last(), name)
        &&& instantiated(post_ctx, pre_ctx, name)
    }
    &&& stmt.stmts@.len() > 0 ==> {
        &&& r == Err::<(), Failure>(Failure::Reported)
        &&& post.module == pre.module
        &&& post_ctx == pre_ctx
        &&& diag_views(post.diags@) == diag_views(pre.diags@).push(
            (Severity::Bug, not_implemented_message(stmt.stmts@[0].kind())),
        )
    }
}

impl ScoreContext {
    /// A context over the given enumeration table, with an empty sink and
    /// an empty module.
    pub fn new(enums: Vec<Option<usize>>) -> (r: ScoreContext)
        ensures
            r.enums == enums,
            r.diags@.len() == 0,
            r.module.units@.len() == 0,
    {
        ScoreContext { enums, diags: Vec::new(), module: Module::new() }
    }

    /// The literal count of an enumeration declaration.
    fn enum_size(&self, decl: usize) -> (r: Option<usize>)
        ensures
            match r {
                Some(n) => enum_size(self.enums@, decl) == Some(n as nat),
                None => enum_size(self.enums@, decl) is None,
            },
    {
        if decl < self.enums.len() {
            self.enums[decl]
        } else {
            None
        }
    }

    #[verifier::loop_isolation(false)]
    /// Map a resolved type to the corresponding IR type.
    pub fn map_type(&mut self, ty: &Ty) -> (r: Result<IrType, Failure>)
        ensures
            only_diags(final(self), old(self)),
            match map_ty(old(self).enums@, *ty) {
                Ok(m) => r is Ok && r->Ok_0.model() == m && final(self).diags@ == old(self).diags@,
                Err(f) => r == Err::<IrType, Failure>(failure_of(f)) && diag_views(final(self).diags@)
                    == sink_after(diag_views(old(self).diags@), f),
            },
        decreases ty,
    {
        match ty {
            Ty::Null => Ok(IrType::Void),
            Ty::Int(it) => {
                let diff: i128 = match it.dir {
                    Dir::To => it.right_bound as i128 - it.left_bound as i128,
                    Dir::Downto => it.left_bound as i128 - it.right_bound as i128,
                };
                if diff < 0 {
                    Ok(IrType::Void)
                } else {
                    Ok(IrType::Int(bit_width(diff as u64)))
                }
            },
            Ty::Enum(d) => match self.enum_size(*d) {
                Some(n) => Ok(IrType::Enum(n)),
                None => Err(Failure::Defect),
            },
            Ty::Physical(name) => {
                let mut m = String::from_str("cannot generate code for physical type `");
                m.append(name.as_str());
                m.append("`");
                emit(&mut self.diags, Severity::Error, m);
                Err(Failure::Reported)
            },
            Ty::Access(p) => match self.map_type(p) {
                Ok(t) => Ok(IrType::Pointer(Box::new(t))),
                Err(e) => Err(e),
            },
            Ty::Array(e, indices) => {
                let el = match self.map_type(e) {
                    Ok(t) => t,
                    Err(f) => {
                        return Err(f);
                    },
                };
                self.wrap_array(indices, el)
            },
            Ty::File => Ok(IrType::Int(32)),
            Ty::Record(fields) => {
                let mut out: Vec<IrType> = Vec::new();
                let mut j: usize = 0;
                proof {
                    assert(out@.map_values(|t: IrType| t.model()) =~= Seq::<TypeModel>::empty());
                }
                while j < fields.len()
                    invariant
                        j <= fields@.len(),
                        out@.len() == j,
                        only_diags(self, old(self)),
                        self.diags@ == old(self).diags@,
                        map_fields(self.enums@, fields@, j as nat) == Ok::<Seq<TypeModel>, Fault>(
                            out@.map_values(|t: IrType| t.model()),
                        ),
                    decreases fields@.len() - j,
                {
                    proof {
                        assert(decreases_to!(fields@ => fields@[j as int]));
                    }
                    let ghost fault_of_ty = map_ty(self.enums@, fields@[j as int])->Err_0;
                    match self.map_type(&fields[j]) {
                        Ok(t) => {
                            let ghost prev = out@;
                            out.push(t);
                            proof {
                                assert(out@.map_values(|t: IrType| t.model()) =~= prev.map_values(
                                    |t: IrType| t.model(),
                                ).push(out@[j as int].model()));
                            }
                        },
                        Err(f) => {
                            proof {
                                assert(map_fields(self.enums@, fields@, (j + 1) as nat) == Err::<Seq<TypeModel>, Fault>(fault_of_ty));
                                lemma_fields_fail_stays(self.enums@, fields@, (j + 1) as nat, fields@.len());
                            }
                            return Err(f);
                        },
                    }
                    j = j + 1;
                }
                let r = IrType::Struct(out);
                proof {
                    assert(r.model()->Struct_0 =~= out@.map_values(|t: IrType| t.model()));
                }
                Ok(r)
            },
            _ => Err(Failure::Defect),
        }
    }
    /// Wraps `inner` in an array for each index, from the last index to the
    /// first.
    #[verifier::loop_isolation(false)]
    fn wrap_array(&mut self, indices: &Vec<ArrayIndex>, inner: IrType) -> (r: Result<IrType, Failure>)
        ensures
            only_diags(final(self), old(self)),
            match wrap_indices(old(self).enums@, indices@, indices@.len(), inner.model()) {
                Ok(m) => r is Ok && r->Ok_0.model() == m && final(self).diags@ == old(self).diags@,
                Err(f) => r == Err::<IrType, Failure>(failure_of(f)) && diag_views(final(self).diags@)
                    == sink_after(diag_views(old(self).diags@), f),
            },
    {
        let ghost goal = wrap_indices(self.enums@, indices@, indices@.len(), inner.model());
        let mut acc = inner;
        let mut i = indices.len();
        while i > 0
            invariant
                i <= indices@.len(),
                only_diags(self, old(self)),
                self.diags@ == old(self).diags@,
                wrap_indices(self.enums@, indices@, i as nat, acc.model()) == goal,
            decreases i,
        {
            let count: usize = match &indices[i - 1] {
                ArrayIndex::Unbounded => {
                    emit(&mut self.diags, Severity::Error, String::from_str("array type is unbounded"));
                    return Err(Failure::Reported);
                },
                ArrayIndex::Constrained(t) => match &**t {
                    Ty::Int(it) => {
                        let len: i128 = match it.dir {
                            Dir::To => it.right_bound as i128 - it.left_bound as i128,
                            Dir::Downto => it.left_bound as i128 - it.right_bound as i128,
                        } + 1;
                        if len <= 0 {
                            return Ok(IrType::Void);
                        }
                        if len > usize::MAX as i128 {
                            emit(&mut self.diags, Severity::Error, String::from_str("array index is too large"));
                            return Err(Failure::Reported);
                        }
                        len as usize
                    },
                    Ty::Enum(d) => match self.enum_size(*d) {
                        Some(n) => n,
                        None => {
                            return Err(Failure::Defect);
                        },
                    },
                    _ => {
                        emit(&mut self.diags, Severity::Error, String::from_str("invalid array index type"));
                        return Err(Failure::Reported);
                    },
                },
            };
            acc = IrType::Array(count, Box::new(acc));
            i = i - 1;
        }
        Ok(acc)
    }
    /// Map a constant value to an instruction appended at the builder's cursor.
    pub fn map_const(&self, builder: &mut UnitBuilder, konst: &Const) -> (r: Result<Value, Failure>)
        requires
            old(builder).wf(),
        ensures
            final(builder).wf(),
            match const_inst(self.enums@, *konst) {
                Some((w, v)) => {
                    &&& r == Ok::<Value, Failure>(
                        Value { block: old(builder).block, index: old(builder).current().len() as usize },
                    )
                    &&& final(builder).same_but_current(old(builder))
                    &&& final(builder).current() == old(builder).current().push(
                        Inst::ConstInt { width: w, value: v },
                    )
                },
                None => r == Err::<Value, Failure>(Failure::Defect) && *final(builder) == *old(builder),
            },
    {
        match konst {
            Const::Null => Ok(builder.ins(Inst::ConstInt { width: 0, value: 0 })),
            Const::Int(v) => Ok(builder.ins(Inst::ConstInt { width: UNSIZED_INT_WIDTH, value: *v as i128 })),
            Const::Enum { decl, index } => match self.enum_size(*decl) {
                Some(n) => Ok(builder.ins(Inst::ConstInt { width: n, value: *index as i128 })),
                None => Err(Failure::Defect),
            },
            _ => Err(Failure::Defect),
        }
    }

    /// Reports that lowering `kind` is not implemented.
    fn not_implemented(&mut self, kind: &str) -> (r: Failure)
        ensures
            r == Failure::Reported,
            only_diags(final(self), old(self)),
            diag_views(final(self).diags@) == diag_views(old(self).diags@).push(
                (Severity::Bug, not_implemented_message(kind@)),
            ),
    {
        let mut m = String::from_str("code generation for ");
        m.append(kind);
        m.append(" not implemented");
        emit(&mut self.diags, Severity::Bug, m);
        Failure::Reported
    }

    /// Declares a signal in the current block, initialized with its
    /// initializer, or with its type's default value where it has none.
    pub fn lower_signal(&self, decl: &SignalDecl, ctx: &mut UnitBuilder) -> (r: Result<(), Failure>)
        requires
            old(ctx).wf(),
        ensures
            final(ctx).wf(),
            match const_inst(self.enums@, decl.initial()) {
                Some((w, v)) => {
                    &&& r is Ok
                    &&& final(ctx).same_but_current(old(ctx))
                    &&& final(ctx).current() == old(ctx).current().push(
                        Inst::ConstInt { width: w, value: v },
                    ).push(
                        Inst::Sig {
                            init: Value { block: old(ctx).block, index: old(ctx).current().len() as usize },
                        },
                    )
                },
                None => r == Err::<(), Failure>(Failure::Defect) && *final(ctx) == *old(ctx),
            },
    {
        let init = match &decl.init {
            Some(k) => k,
            None => &decl.default,
        };
        let k = match self.map_const(ctx, init) {
            Ok(k) => k,
            Err(f) => {
                return Err(f);
            },
        };
        ctx.ins(Inst::Sig { init: k });
        Ok(())
    }

    /// Lowers a declaration inside a block.
    pub fn lower_decl(&mut self, decl: &DeclInBlock, ctx: &mut UnitBuilder) -> (r: Result<(), Failure>)
        requires
            old(ctx).wf(),
        ensures
            final(ctx).wf(),
            decl_lowered(*final(self), *old(self), *final(ctx), *old(ctx), *decl, r),
    {
        match decl {
            DeclInBlock::Type | DeclInBlock::Subtype | DeclInBlock::Alias | DeclInBlock::Attr
            | DeclInBlock::AttrSpec | DeclInBlock::CfgSpec | DeclInBlock::Discon
            | DeclInBlock::GroupTemp | DeclInBlock::Group => Ok(()),
            DeclInBlock::Signal(s) => self.lower_signal(s, ctx),
            _ => Err(self.not_implemented(decl.kind_name())),
        }
    }

    /// Lowers a sequential statement. No kind is supported yet: each fails
    /// with a report naming it.
    pub fn lower_seq_stmt(&mut self, stmt: &SeqStmt, ctx: &mut UnitBuilder) -> (r: Result<(), Failure>)
        requires
            old(ctx).wf(),
        ensures
            final(ctx).wf(),
            seq_lowered(*final(self), *old(self), *final(ctx), *old(ctx), *stmt, r),
    {
        Err(self.not_implemented(stmt.kind_name()))
    }

    #[verifier::loop_isolation(false)]
    /// Lowers a process into a unit of its own, adds that unit to the module
    /// and instantiates it in the caller's current block. Nothing is added to
    /// the module or to the caller unless the whole body lowered.
    pub fn lower_process(&mut self, stmt: &ProcessStmt, ctx: &mut UnitBuilder) -> (r: Result<(), Failure>)
        requires
            old(ctx).wf(),
        ensures
            final(ctx).wf(),
            final(self).enums == old(self).enums,
            process_lowered(*final(self), *old(self), *final(ctx), *old(ctx), *stmt, r),
    {
        let mut name = ctx.name().clone();
        match &stmt.label {
            Some(l) => {
                name.append("_");
                name.append(l.as_str());
            },
            None => {
                name.append("_proc");
            },
        }
        let mut prok = UnitBuilder::with_entry(name.clone(), UnitKind::Process);
        let mut i: usize = 0;
        while i < stmt.stmts.len()
            invariant
                i == 0,
                prok.wf(),
                is_empty_process(prok.unit, name@),
                self.enums == old(self).enums,
                self.module == old(self).module,
                self.diags == old(self).diags,
            decreases stmt.stmts@.len() - i,
        {
            match self.lower_seq_stmt(&stmt.stmts[i], &mut prok) {
                Ok(()) => {},
                Err(f) => {
                    return Err(f);
                },
            }
            i = i + 1;
        }
        let ghost pre = *ctx;
        let ext = ctx.add_extern(name);
        ctx.ins(Inst::Inst { unit: ext, inputs: Vec::new(), outputs: Vec::new() });
        proof {
            assert(ctx.current().drop_last() =~= pre.current());
            assert(ctx.unit.externs@.drop_last() =~= pre.unit.externs@);
        }
        self.module.add_unit(prok.finish());
        proof {
            assert(self.module.units@.drop_last() =~= old(self).module.units@);
            assert(name@ == process_name(
                old(ctx).unit.name@,
                match stmt.label {
                    Some(l) => Some(l@),
                    None => None,
                },
            ));
            assert(instantiated(*ctx, *old(ctx), name@));
        }
        Ok(())
    }

    /// Lowers a concurrent statement. Processes are lowered; every other kind
    /// fails with a report naming it.
    pub fn lower_conc_stmt(&mut self, stmt: &ConcStmt, ctx: &mut UnitBuilder) -> (r: Result<(), Failure>)
        requires
            old(ctx).wf(),
        ensures
            final(ctx).wf(),
            conc_lowered(*final(self), *old(self), *final(ctx), *old(ctx), *stmt, r),
    {
        match stmt {
            ConcStmt::Process(p) => self.lower_process(p, ctx),
            _ => Err(self.not_implemented(stmt.kind_name())),
        }
    }
}

/// Generates IR for one kind of design node into a context of type `C`.
pub trait Codegen<I, C>: Sized {
    /// What generating `id` does to the lowering state and the context.
    spec fn generated(pre: Self, post: Self, id: I, pre_ctx: C, post_ctx: C, r: Result<(), Failure>) -> bool;

    fn codegen(&mut self, id: &I, ctx: &mut C) -> (r: Result<(), Failure>)
        ensures
            Self::generated(*old(self), *final(self), *id, *old(ctx), *final(ctx), r),
    ;
}

/// A builder whose cursor is off its unit's blocks fails as a defect and is
/// left as it was.
pub open spec fn rejected(
    pre: ScoreContext,
    post: ScoreContext,
    pre_ctx: UnitBuilder,
    post_ctx: UnitBuilder,
    r: Result<(), Failure>,
) -> bool {
    r == Err::<(), Failure>(Failure::Defect) && post == pre && post_ctx == pre_ctx
}

impl Codegen<DeclInBlock, UnitBuilder> for ScoreContext {
    open spec fn generated(
        pre: ScoreContext,
        post: ScoreContext,
        id: DeclInBlock,
        pre_ctx: UnitBuilder,
        post_ctx: UnitBuilder,
        r: Result<(), Failure>,
    ) -> bool {
        if pre_ctx.wf() {
            post_ctx.wf() && decl_lowered(post, pre, post_ctx, pre_ctx, id, r)
        } else {
            rejected(pre, post, pre_ctx, post_ctx, r)
        }
    }

    fn codegen(&mut self, id: &DeclInBlock, ctx: &mut UnitBuilder) -> (r: Result<(), Failure>) {
        if ctx.block < ctx.unit.blocks.len() {
            self.lower_decl(id, ctx)
        } else {
            Err(Failure::Defect)
        }
    }
}

impl Codegen<ConcStmt, UnitBuilder> for ScoreContext {
    open spec fn generated(
        pre: ScoreContext,
        post: ScoreContext,
        id: ConcStmt,
        pre_ctx: UnitBuilder,
        post_ctx: UnitBuilder,
        r: Result<(), Failure>,
    ) -> bool {
        if pre_ctx.wf() {
            post_ctx.wf() && conc_lowered(post, pre, post_ctx, pre_ctx, id, r)
        } else {
            rejected(pre, post, pre_ctx, post_ctx, r)
        }
    }

    fn codegen(&mut self, id: &ConcStmt, ctx: &mut UnitBuilder) -> (r: Result<(), Failure>) {
        if ctx.block < ctx.unit.blocks.len() {
            self.lower_conc_stmt(id, ctx)
        } else {
            Err(Failure::Defect)
        }
    }
}

impl Codegen<SeqStmt, UnitBuilder> for ScoreContext {
    open spec fn generated(
        pre: ScoreContext,
        post: ScoreContext,
        id: SeqStmt,
        pre_ctx: UnitBuilder,
        post_ctx: UnitBuilder,
        r: Result<(), Failure>,
    ) -> bool {
        if pre_ctx.wf() {
            seq_lowered(post, pre, post_ctx, pre_ctx, id, r)
        } else {
            rejected(pre, post, pre_ctx, post_ctx, r)
        }
    }

    fn codegen(&mut self, id: &SeqStmt, ctx: &mut UnitBuilder) -> (r: Result<(), Failure>) {
        if ctx.block < ctx.unit.blocks.len() {
            self.lower_seq_stmt(id, ctx)
        } else {
            Err(Failure::Defect)
        }
    }
}

} // verus!
