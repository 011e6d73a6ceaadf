//! The column identifiers that the extended execution-trace tables expose.
//! Only the running-product columns that the cross-table permutation
//! arguments address are named here; the indices are the positions of those
//! columns within each extended table's full width.

use vstd::prelude::*;

verus! {

/// The permutation-argument columns of the extended processor table.
#[derive(Clone, Copy, Debug, PartialEq, Eq, Structural)]
pub enum ExtProcessorTableColumn {
    InstructionTablePermArg,
    OpStackTablePermArg,
    RamTablePermArg,
    JumpStackTablePermArg,
    U32OpTablePermArg,
}

impl ExtProcessorTableColumn {
    pub open spec fn index_spec(self) -> nat {
        match self {
            ExtProcessorTableColumn::InstructionTablePermArg => 37,
            ExtProcessorTableColumn::OpStackTablePermArg => 38,
            ExtProcessorTableColumn::RamTablePermArg => 39,
            ExtProcessorTableColumn::JumpStackTablePermArg => 40,
            ExtProcessorTableColumn::U32OpTablePermArg => 41,
        }
    }

    pub fn column_index(self) -> (r: usize)
        ensures
            r as nat == self.index_spec(),
    {
        match self {
            ExtProcessorTableColumn::InstructionTablePermArg => 37,
            ExtProcessorTableColumn::OpStackTablePermArg => 38,
            ExtProcessorTableColumn::RamTablePermArg => 39,
            ExtProcessorTableColumn::JumpStackTablePermArg => 40,
            ExtProcessorTableColumn::U32OpTablePermArg => 41,
        }
    }
}

/// The running-product column of the extended instruction table.
#[derive(Clone, Copy, Debug, PartialEq, Eq, Structural)]
pub enum ExtInstructionTableColumn {
    RunningProductPermArg,
}

impl ExtInstructionTableColumn {
    pub open spec fn index_spec(self) -> nat {
        6
    }

    pub fn column_index(self) -> (r: usize)
        ensures
            r as nat == self.index_spec(),
    {
        6
    }
}

/// The running-product column of the extended jump-stack table.
#[derive(Clone, Copy, Debug, PartialEq, Eq, Structural)]
pub enum ExtJumpStackTableColumn {
    RunningProductPermArg,
}

impl ExtJumpStackTableColumn {
    pub open spec fn index_spec(self) -> nat {
        9
    }

    pub fn column_index(self) -> (r: usize)
        ensures
            r as nat == self.index_spec(),
    {
        9
    }
}

/// The running-product column of the extended op-stack table.
#[derive(Clone, Copy, Debug, PartialEq, Eq, Structural)]
pub enum ExtOpStackTableColumn {
    RunningProductPermArg,
}

impl ExtOpStackTableColumn {
    pub open spec fn index_spec(self) -> nat {
        8
    }

    pub fn column_index(self) -> (r: usize)
        ensures
            r as nat == self.index_spec(),
    {
        8
    }
}

/// The running-product column of the extended RAM table.
#[derive(Clone, Copy, Debug, PartialEq, Eq, Structural)]
pub enum ExtRamTableColumn {
    RunningProductPermArg,
}

impl ExtRamTableColumn {
    pub open spec fn index_spec(self) -> nat {
        7
    }

    pub fn column_index(self) -> (r: usize)
        ensures
            r as nat == self.index_spec(),
    {
        7
    }
}

/// The running-product column of the extended u32 op-table.
#[derive(Clone, Copy, Debug, PartialEq, Eq, Structural)]
pub enum ExtU32OpTableColumn {
    RunningProductPermArg,
}

impl ExtU32OpTableColumn {
    pub open spec fn index_spec(self) -> nat {
        11
    }

    pub fn column_index(self) -> (r: usize)
        ensures
            r as nat == self.index_spec(),
    {
        11
    }
}

} // verus!
