//! The intermediate representation being built: modules of units, units of
//! basic blocks, blocks of instructions, and the builder cursor.

use vstd::prelude::*;

verus! {

/// A value produced by an instruction: the block and position it stands at.
#[derive(PartialEq, Eq, Structural, Clone, Copy, Debug)]
pub struct Value {
    pub block: usize,
    pub index: usize,
}

/// A handle to a unit defined elsewhere, declared inside the unit that uses it.
#[derive(PartialEq, Eq, Structural, Clone, Copy, Debug)]
pub struct ExtUnit {
    pub index: usize,
}

/// One instruction.
#[derive(Debug)]
pub enum Inst {
    /// An integer constant of the given width.
    ConstInt { width: usize, value: i128 },
    /// Declares a signal with the given initial value.
    Sig { init: Value },
    /// Instantiates an extern unit, wiring the given input and output signals.
    Inst { unit: ExtUnit, inputs: Vec<Value>, outputs: Vec<Value> },
}

/// A basic block: a name and its instructions, in order.
#[derive(Debug)]
pub struct Block {
    pub name: String,
    pub insts: Vec<Inst>,
}

#[derive(PartialEq, Eq, Structural, Clone, Copy, Debug)]
pub enum UnitKind {
    Function,
    Process,
    Entity,
}

/// A named unit of basic blocks, with the names of the extern units it refers to.
#[derive(Debug)]
pub struct Unit {
    pub name: String,
    pub kind: UnitKind,
    pub blocks: Vec<Block>,
    pub externs: Vec<String>,
}

/// The units of a design.
#[derive(Debug)]
pub struct Module {
    pub units: Vec<Unit>,
}

/// A unit under construction with the block that instructions are appended to.
#[derive(Debug)]
pub struct UnitBuilder {
    pub unit: Unit,
    pub block: usize,
}

impl Module {
    pub fn new() -> (r: Module)
        ensures
            r.units@.len() == 0,
    {
        Module { units: Vec::new() }
    }

    /// Adds a finished unit.
    pub fn add_unit(&mut self, unit: Unit)
        ensures
            final(self).units@ == old(self).units@.push(unit),
    {
        self.units.push(unit);
    }
}

impl UnitBuilder {
    /// The cursor stands on a block of the unit.
    pub open spec fn wf(&self) -> bool {
        self.block < self.unit.blocks@.len()
    }

    /// The instructions of the block under the cursor.
    pub open spec fn current(&self) -> Seq<Inst> {
        self.unit.blocks@[self.block as int].insts@
    }

    /// Everything of the unit but the instructions of the current block is
    /// as in `other`.
    pub open spec fn same_but_current(&self, other: &UnitBuilder) -> bool {
        &&& self.block == other.block
        &&& self.unit.name == other.unit.name
        &&& self.unit.kind == other.unit.kind
        &&& self.unit.externs == other.unit.externs
        &&& self.unit.blocks@.len() == other.unit.blocks@.len()
        &&& self.unit.blocks@[self.block as int].name == other.unit.blocks@[other.block as int].name
        &&& forall|i: int|
            0 <= i < self.unit.blocks@.len() && i != self.block ==> #[trigger] self.unit.blocks@[i]
                == other.unit.blocks@[i]
    }

    /// Starts a unit of one empty block named "entry", with the cursor on it.
    pub fn with_entry(name: String, kind: UnitKind) -> (r: UnitBuilder)
        ensures
            r.wf(),
            r.block == 0,
            r.unit.name == name,
            r.unit.kind == kind,
            r.unit.externs@.len() == 0,
            r.unit.blocks@.len() == 1,
            r.unit.blocks@[0].name@ == "entry"@,
            r.unit.blocks@[0].insts@.len() == 0,
    {
        let entry = Block { name: String::from_str("entry"), insts: Vec::new() };
        let mut blocks: Vec<Block> = Vec::new();
        blocks.push(entry);
        UnitBuilder {
            unit: Unit { name, kind, blocks, externs: Vec::new() },
            block: 0,
        }
    }

    /// The name of the unit being built.
    pub fn name(&self) -> (r: &String)
        ensures
            r == &self.unit.name,
    {
        &self.unit.name
    }

    /// Appends an instruction to the current block and returns its value.
    pub fn ins(&mut self, inst: Inst) -> (r: Value)
        requires
            old(self).wf(),
        ensures
            final(self).wf(),
            final(self).same_but_current(old(self)),
            final(self).current() == old(self).current().push(inst),
            r == (Value { block: old(self).block, index: old(self).current().len() as usize }),
    {
        let b = self.block;
        let index = self.unit.blocks[b].insts.len();
        self.unit.blocks[b].insts.push(inst);
        Value { block: b, index }
    }

    /// Declares an extern unit by name, so that instructions can refer to it.
    pub fn add_extern(&mut self, name: String) -> (r: ExtUnit)
        ensures
            final(self).block == old(self).block,
            final(self).unit.name == old(self).unit.name,
            final(self).unit.kind == old(self).unit.kind,
            final(self).unit.blocks == old(self).unit.blocks,
            final(self).unit.externs@ == old(self).unit.externs@.push(name),
            r == (ExtUnit { index: old(self).unit.externs@.len() as usize }),
    {
        let index = self.unit.externs.len();
        self.unit.externs.push(name);
        ExtUnit { index }
    }

    /// Ends construction and hands out the unit.
    pub fn finish(self) -> (r: Unit)
        ensures
            r == self.unit,
    {
        self.unit
    }
}

} // verus!
