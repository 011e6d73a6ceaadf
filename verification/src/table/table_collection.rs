//! The closed set of execution-trace table kinds, and the collection of
//! extended tables' codeword data that the permutation arguments read.

use vstd::prelude::*;

use twenty_first::math::x_field_element::XFieldElement;

verus! {

/// The number of distinct execution-trace tables.
pub const NUM_TABLES: usize = 8;

/// A stable identifier for each execution-trace table.
#[derive(Clone, Copy, Debug, PartialEq, Eq, Structural)]
pub enum TableId {
    ProgramTable,
    InstructionTable,
    ProcessorTable,
    OpStackTable,
    RamTable,
    JumpStackTable,
    HashTable,
    U32OpTable,
}

impl TableId {
    pub open spec fn index_spec(self) -> nat {
        match self {
            TableId::ProgramTable => 0,
            TableId::InstructionTable => 1,
            TableId::ProcessorTable => 2,
            TableId::OpStackTable => 3,
            TableId::RamTable => 4,
            TableId::JumpStackTable => 5,
            TableId::HashTable => 6,
            TableId::U32OpTable => 7,
        }
    }

    pub fn index(self) -> (r: usize)
        ensures
            r as nat == self.index_spec(),
            r < NUM_TABLES,
    {
        match self {
            TableId::ProgramTable => 0,
            TableId::InstructionTable => 1,
            TableId::ProcessorTable => 2,
            TableId::OpStackTable => 3,
            TableId::RamTable => 4,
            TableId::JumpStackTable => 5,
            TableId::HashTable => 6,
            TableId::U32OpTable => 7,
        }
    }
}

/// The extended tables' evaluated column data, one entry per table kind in
/// `TableId` order: for each table, one codeword per column. Also carries the
/// common interpolant degree of the extended tables.
pub struct ExtTableCollection {
    pub columns: Vec<Vec<Vec<XFieldElement>>>,
    pub interpolant_degree: i64,
}

impl ExtTableCollection {
    /// Whether the collection holds one entry per table kind.
    pub open spec fn wf(self) -> bool {
        self.columns@.len() == NUM_TABLES
    }

    pub fn new(columns: Vec<Vec<Vec<XFieldElement>>>, interpolant_degree: i64) -> (r: Self)
        ensures
            r.columns == columns,
            r.interpolant_degree == interpolant_degree,
    {
        ExtTableCollection { columns, interpolant_degree }
    }

    /// The evaluated column codewords of the identified table.
    pub fn data(&self, id: TableId) -> (r: &Vec<Vec<XFieldElement>>)
        requires
            self.wf(),
        ensures
            *r == self.columns@[id.index_spec() as int],
    {
        &self.columns[id.index()]
    }

    /// The common degree of the randomized column interpolants of the
    /// extended tables.
    pub fn interpolant_degree(&self) -> (r: i64)
        ensures
            r == self.interpolant_degree,
    {
        self.interpolant_degree
    }
}

} // verus!
