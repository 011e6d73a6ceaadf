//! Cross-table permutation arguments: a claimed equality between a
//! running-product column of one extended table and one of another, proven
//! via a quotient codeword whose zerofier vanishes at the argument's anchor
//! point `x = 1`.

use vstd::prelude::*;

use twenty_first::math::x_field_element::XFieldElement;

use crate::field::xfe_batch_inversion;
use crate::field::xfe_from_nat;
use crate::field::xfe_eq;
use crate::field::xfe_from_u32;
use crate::field::xfe_inverse_of;
use crate::field::xfe_mul;
use crate::field::xfe_mul_of;
use crate::field::xfe_sub;
use crate::field::xfe_sub_of;
use crate::fri_domain::FriDomain;
use crate::table::table_collection::ExtTableCollection;
use crate::table::table_collection::TableId;
use crate::table::table_column::ExtInstructionTableColumn;
use crate::table::table_column::ExtJumpStackTableColumn;
use crate::table::table_column::ExtOpStackTableColumn;
use crate::table::table_column::ExtProcessorTableColumn;
use crate::table::table_column::ExtRamTableColumn;
use crate::table::table_column::ExtU32OpTableColumn;

verus! {

/// The number of permutation arguments the processor table takes part in;
/// incidentally, every permutation argument of the system.
pub const PROCESSOR_TABLE_PERMUTATION_ARGUMENTS_COUNT: usize = 5;

/// A permutation argument between the column `from_column` of the extended
/// table `from_table` and the column `to_column` of the extended table
/// `to_table`.
#[derive(Clone, Copy, Debug, PartialEq, Eq, Structural)]
pub struct PermArg {
    pub from_table: TableId,
    pub from_column: usize,
    pub to_table: TableId,
    pub to_column: usize,
}

impl PermArg {
    pub fn new(from_table: TableId, from_column: usize, to_table: TableId, to_column: usize) -> (r:
        Self)
        ensures
            r.from_table == from_table,
            r.from_column == from_column,
            r.to_table == to_table,
            r.to_column == to_column,
    {
        PermArg { from_table, from_column, to_table, to_column }
    }

    /// The codeword this argument's side reads at position `i` of the
    /// identified table.
    pub open spec fn codeword_of(tables: ExtTableCollection, id: TableId, column: int) -> Seq<
        XFieldElement,
    > {
        tables.columns@[id.index_spec() as int]@[column]@
    }

    /// The value of the quotient codeword at one domain point `x`:
    /// `(lhs - rhs) / (x - 1)`.
    pub open spec fn quotient_value_spec(
        lhs: XFieldElement,
        rhs: XFieldElement,
        x: XFieldElement,
    ) -> XFieldElement {
        xfe_mul_of(xfe_sub_of(lhs, rhs), xfe_inverse_of(xfe_sub_of(x, xfe_from_nat(1))))
    }

    /// The quotient codeword of this argument over the evaluation domain:
    /// pointwise `(lhs(x) - rhs(x)) / (x - 1)`, realized through one batch
    /// inversion of the zerofier column.
    pub fn quotient(
        &self,
        ext_codeword_tables: &ExtTableCollection,
        fri_domain: &FriDomain<XFieldElement>,
    ) -> (r: Vec<XFieldElement>)
        requires
            ext_codeword_tables.wf(),
            fri_domain.length <= u32::MAX,
            self.from_column < Self::table_data_spec(
                *ext_codeword_tables,
                self.from_table,
            ).len(),
            self.to_column < Self::table_data_spec(*ext_codeword_tables, self.to_table).len(),
            Self::codeword_of(*ext_codeword_tables, self.from_table, self.from_column as int).len()
                == fri_domain.length as nat,
            Self::codeword_of(*ext_codeword_tables, self.to_table, self.to_column as int).len()
                == fri_domain.length as nat,
            forall|i: nat|
                i < fri_domain.length as nat ==> xfe_sub_of(
                    #[trigger] fri_domain.domain_value_spec(i),
                    xfe_from_nat(1),
                ) != xfe_from_nat(0),
        ensures
            r@.len() == fri_domain.length as nat,
            forall|i: int|
                0 <= i < r@.len() ==> r@[i] == Self::quotient_value_spec(
                    Self::codeword_of(*ext_codeword_tables, self.from_table, self.from_column as int)[i],
                    Self::codeword_of(*ext_codeword_tables, self.to_table, self.to_column as int)[i],
                    #[trigger] fri_domain.domain_value_spec(i as nat),
                ),
    {
        let lhs_data = ext_codeword_tables.data(self.from_table);
        let lhs_codeword = &lhs_data[self.from_column];
        let rhs_data = ext_codeword_tables.data(self.to_table);
        let rhs_codeword = &rhs_data[self.to_column];
        let domain_values = fri_domain.domain_values();
        let one = xfe_from_u32(1);
        let mut zerofier: Vec<XFieldElement> = Vec::new();
        let mut i: usize = 0;
        while i < domain_values.len()
            invariant
                i <= domain_values@.len(),
                domain_values@.len() == fri_domain.length as nat,
                one == xfe_from_nat(1),
                forall|k: int|
                    0 <= k < domain_values@.len() ==> domain_values@[k]
                        == fri_domain.domain_value_spec(k as nat),
                zerofier@.len() == i as nat,
                forall|k: int|
                    0 <= k < i ==> zerofier@[k] == xfe_sub_of(
                        #[trigger] fri_domain.domain_value_spec(k as nat),
                        xfe_from_nat(1),
                    ),
                forall|k: nat|
                    k < fri_domain.length as nat ==> xfe_sub_of(
                        #[trigger] fri_domain.domain_value_spec(k),
                        xfe_from_nat(1),
                    ) != xfe_from_nat(0),
            decreases domain_values@.len() - i,
        {
            zerofier.push(xfe_sub(domain_values[i], one));
            i = i + 1;
        }
        proof {
            assert forall|k: int| 0 <= k < zerofier@.len() implies zerofier@[k] != xfe_from_nat(0)
                by {
                assert(zerofier@[k] == xfe_sub_of(
                    fri_domain.domain_value_spec(k as nat),
                    xfe_from_nat(1),
                ));
            }
        }
        let inverse_zerofier = xfe_batch_inversion(zerofier);
        let mut quotient_codeword: Vec<XFieldElement> = Vec::new();
        let mut j: usize = 0;
        while j < inverse_zerofier.len()
            invariant
                j <= inverse_zerofier@.len(),
                inverse_zerofier@.len() == fri_domain.length as nat,
                lhs_codeword@ == Self::codeword_of(
                    *ext_codeword_tables,
                    self.from_table,
                    self.from_column as int,
                ),
                rhs_codeword@ == Self::codeword_of(
                    *ext_codeword_tables,
                    self.to_table,
                    self.to_column as int,
                ),
                lhs_codeword@.len() == fri_domain.length as nat,
                rhs_codeword@.len() == fri_domain.length as nat,
                forall|k: int|
                    0 <= k < inverse_zerofier@.len() ==> inverse_zerofier@[k] == xfe_inverse_of(
                        xfe_sub_of(
                            #[trigger] fri_domain.domain_value_spec(k as nat),
                            xfe_from_nat(1),
                        ),
                    ),
                quotient_codeword@.len() == j as nat,
                forall|k: int|
                    0 <= k < j ==> quotient_codeword@[k] == Self::quotient_value_spec(
                        lhs_codeword@[k],
                        rhs_codeword@[k],
                        #[trigger] fri_domain.domain_value_spec(k as nat),
                    ),
            decreases inverse_zerofier@.len() - j,
        {
            let difference = xfe_sub(lhs_codeword[j], rhs_codeword[j]);
            quotient_codeword.push(xfe_mul(difference, inverse_zerofier[j]));
            j = j + 1;
        }
        quotient_codeword
    }


    /// Whether the zerofier `x - 1` is nonzero at every point of the domain:
    /// the condition under which the quotient codeword exists.
    fn zerofier_nonzero_everywhere(fri_domain: &FriDomain<XFieldElement>) -> (r: bool)
        requires
            fri_domain.length <= u32::MAX,
        ensures
            r == (forall|i: nat|
                i < fri_domain.length as nat ==> xfe_sub_of(
                    #[trigger] fri_domain.domain_value_spec(i),
                    xfe_from_nat(1),
                ) != xfe_from_nat(0)),
    {
        let domain_values = fri_domain.domain_values();
        let one = xfe_from_u32(1);
        let zero = xfe_from_u32(0);
        let mut i: usize = 0;
        while i < domain_values.len()
            invariant
                i <= domain_values@.len(),
                domain_values@.len() == fri_domain.length as nat,
                one == xfe_from_nat(1),
                zero == xfe_from_nat(0),
                forall|k: int|
                    0 <= k < domain_values@.len() ==> domain_values@[k]
                        == fri_domain.domain_value_spec(k as nat),
                forall|k: nat|
                    k < i as nat ==> xfe_sub_of(
                        #[trigger] fri_domain.domain_value_spec(k),
                        xfe_from_nat(1),
                    ) != xfe_from_nat(0),
            decreases domain_values@.len() - i,
        {
            let difference = xfe_sub(domain_values[i], one);
            if xfe_eq(&difference, &zero) {
                proof {
                    assert(xfe_sub_of(
                        fri_domain.domain_value_spec(i as nat),
                        xfe_from_nat(1),
                    ) == xfe_from_nat(0));
                }
                return false;
            }
            i = i + 1;
        }
        true
    }

    /// Compute the quotient codeword after checking that the zerofier is
    /// nonzero on the whole domain; `None` when some domain point equals the
    /// anchor point, where no quotient exists.
    pub fn quotient_checked(
        &self,
        ext_codeword_tables: &ExtTableCollection,
        fri_domain: &FriDomain<XFieldElement>,
    ) -> (r: Option<Vec<XFieldElement>>)
        requires
            ext_codeword_tables.wf(),
            fri_domain.length <= u32::MAX,
            self.from_column < Self::table_data_spec(
                *ext_codeword_tables,
                self.from_table,
            ).len(),
            self.to_column < Self::table_data_spec(*ext_codeword_tables, self.to_table).len(),
            Self::codeword_of(*ext_codeword_tables, self.from_table, self.from_column as int).len()
                == fri_domain.length as nat,
            Self::codeword_of(*ext_codeword_tables, self.to_table, self.to_column as int).len()
                == fri_domain.length as nat,
        ensures
            match r {
                Option::Some(q) => q@.len() == fri_domain.length as nat && forall|i: int|
                    0 <= i < q@.len() ==> q@[i] == Self::quotient_value_spec(
                        Self::codeword_of(
                            *ext_codeword_tables,
                            self.from_table,
                            self.from_column as int,
                        )[i],
                        Self::codeword_of(
                            *ext_codeword_tables,
                            self.to_table,
                            self.to_column as int,
                        )[i],
                        #[trigger] fri_domain.domain_value_spec(i as nat),
                    ),
                Option::None => exists|i: nat|
                    i < fri_domain.length as nat && xfe_sub_of(
                        #[trigger] fri_domain.domain_value_spec(i),
                        xfe_from_nat(1),
                    ) == xfe_from_nat(0),
            },
    {
        if Self::zerofier_nonzero_everywhere(fri_domain) {
            Option::Some(self.quotient(ext_codeword_tables, fri_domain))
        } else {
            Option::None
        }
    }

    /// The column codewords of one table of the collection.
    pub open spec fn table_data_spec(tables: ExtTableCollection, id: TableId) -> Seq<Vec<
        XFieldElement,
    >> {
        tables.columns@[id.index_spec() as int]@
    }

    /// One less than the common interpolant degree of the extended tables:
    /// the zerofier divided out has degree one.
    pub fn quotient_degree_bound(&self, ext_codeword_tables: &ExtTableCollection) -> (r: i64)
        requires
            ext_codeword_tables.interpolant_degree > i64::MIN,
        ensures
            r == ext_codeword_tables.interpolant_degree - 1,
    {
        ext_codeword_tables.interpolant_degree() - 1
    }

    /// The difference of the two endpoint values at one opened point per
    /// table; the verifier's spot-check of the claimed equality.
    pub fn evaluate_difference(&self, points: &Vec<Vec<XFieldElement>>) -> (r: XFieldElement)
        requires
            self.from_table.index_spec() < points@.len(),
            self.to_table.index_spec() < points@.len(),
            self.from_column < points@[self.from_table.index_spec() as int]@.len(),
            self.to_column < points@[self.to_table.index_spec() as int]@.len(),
        ensures
            r == xfe_sub_of(
                points@[self.from_table.index_spec() as int]@[self.from_column as int],
                points@[self.to_table.index_spec() as int]@[self.to_column as int],
            ),
    {
        let lhs = points[self.from_table.index()][self.from_column];
        let rhs = points[self.to_table.index()][self.to_column];
        xfe_sub(lhs, rhs)
    }
}

/// The system-wide fixed set of permutation arguments, as a mathematical
/// sequence.
pub open spec fn all_permutation_arguments_spec() -> Seq<PermArg> {
    seq![
        PermArg {
            from_table: TableId::ProcessorTable,
            from_column: 37usize,
            to_table: TableId::InstructionTable,
            to_column: 6usize,
        },
        PermArg {
            from_table: TableId::ProcessorTable,
            from_column: 40usize,
            to_table: TableId::JumpStackTable,
            to_column: 9usize,
        },
        PermArg {
            from_table: TableId::ProcessorTable,
            from_column: 38usize,
            to_table: TableId::OpStackTable,
            to_column: 8usize,
        },
        PermArg {
            from_table: TableId::ProcessorTable,
            from_column: 39usize,
            to_table: TableId::RamTable,
            to_column: 7usize,
        },
        PermArg {
            from_table: TableId::ProcessorTable,
            from_column: 41usize,
            to_table: TableId::U32OpTable,
            to_column: 11usize,
        },
    ]
}

/// Every argument of the fixed system-wide set links from the processor
/// table, and the set has exactly five members.
pub proof fn lemma_all_permutation_arguments_from_processor()
    ensures
        all_permutation_arguments_spec().len()
            == PROCESSOR_TABLE_PERMUTATION_ARGUMENTS_COUNT as nat,
        forall|i: int|
            0 <= i < all_permutation_arguments_spec().len()
                ==> (#[trigger] all_permutation_arguments_spec()[i]).from_table
                == TableId::ProcessorTable,
{
    assert forall|i: int|
        0 <= i < all_permutation_arguments_spec().len() implies (
    #[trigger] all_permutation_arguments_spec()[i]).from_table == TableId::ProcessorTable by {
        if i == 0 {
        } else if i == 1 {
        } else if i == 2 {
        } else if i == 3 {
        } else {
            assert(i == 4);
        }
    }
}

impl PermArg {
    /// A permutation argument between processor table and instruction table.
    pub fn processor_instruction_perm_arg() -> (r: Self)
        ensures
            r == all_permutation_arguments_spec()[0],
    {
        PermArg::new(
            TableId::ProcessorTable,
            ExtProcessorTableColumn::InstructionTablePermArg.column_index(),
            TableId::InstructionTable,
            ExtInstructionTableColumn::RunningProductPermArg.column_index(),
        )
    }

    /// A permutation argument between processor table and jump-stack table.
    pub fn processor_jump_stack_perm_arg() -> (r: Self)
        ensures
            r == all_permutation_arguments_spec()[1],
    {
        PermArg::new(
            TableId::ProcessorTable,
            ExtProcessorTableColumn::JumpStackTablePermArg.column_index(),
            TableId::JumpStackTable,
            ExtJumpStackTableColumn::RunningProductPermArg.column_index(),
        )
    }

    /// A permutation argument between processor table and op-stack table.
    pub fn processor_op_stack_perm_arg() -> (r: Self)
        ensures
            r == all_permutation_arguments_spec()[2],
    {
        PermArg::new(
            TableId::ProcessorTable,
            ExtProcessorTableColumn::OpStackTablePermArg.column_index(),
            TableId::OpStackTable,
            ExtOpStackTableColumn::RunningProductPermArg.column_index(),
        )
    }

    /// A permutation argument between processor table and RAM table.
    pub fn processor_ram_perm_arg() -> (r: Self)
        ensures
            r == all_permutation_arguments_spec()[3],
    {
        PermArg::new(
            TableId::ProcessorTable,
            ExtProcessorTableColumn::RamTablePermArg.column_index(),
            TableId::RamTable,
            ExtRamTableColumn::RunningProductPermArg.column_index(),
        )
    }

    /// A permutation argument with the u32 op-table.
    pub fn processor_u32_perm_arg() -> (r: Self)
        ensures
            r == all_permutation_arguments_spec()[4],
    {
        PermArg::new(
            TableId::ProcessorTable,
            ExtProcessorTableColumn::U32OpTablePermArg.column_index(),
            TableId::U32OpTable,
            ExtU32OpTableColumn::RunningProductPermArg.column_index(),
        )
    }

    /// The system-wide fixed set of permutation arguments.
    pub fn all_permutation_arguments() -> (r: [Self; PROCESSOR_TABLE_PERMUTATION_ARGUMENTS_COUNT])
        ensures
            r@ == all_permutation_arguments_spec(),
    {
        let args = [
            Self::processor_instruction_perm_arg(),
            Self::processor_jump_stack_perm_arg(),
            Self::processor_op_stack_perm_arg(),
            Self::processor_ram_perm_arg(),
            Self::processor_u32_perm_arg(),
        ];
        proof {
            assert(args@ =~= all_permutation_arguments_spec());
        }
        args
    }
}

} // verus!
