//! Test-script reading under the older names: `TST` and `CMP` carry the
//! same data as the test-script module's types.

pub use crate::test_script::{parse_bool, Instruction, OutList, OutType};

use crate::hdl::strs_view;
use crate::test_script::n2t_cmp::cmp_spec;
use crate::test_script::n2t_tst::{instrs_view, opt_out_list_view, opt_str_view, tst_spec};
use crate::test_script::{cells_view, table_view, N2tCmp, N2tTst};
use vstd::prelude::*;

verus! {

/// A parsed test script.
#[derive(Debug, PartialEq, Eq)]
pub struct TST {
    pub load: String,
    pub out_file: Option<String>,
    pub compare_to: Option<String>,
    pub out_list: Option<Vec<OutList>>,
    pub instruction: Vec<Instruction>,
    pub out: Option<CMP>,
}

/// A parsed comparison table: one cell column per named column.
#[derive(Debug, PartialEq, Eq)]
pub struct CMP {
    pub table: Vec<Vec<OutType>>,
    pub names: Vec<String>,
}

impl TST {
    /// Reads a test script.
    pub fn new(code: &str) -> (r: Result<Self, String>)
        ensures
            match r {
                Ok(tst) => tst_spec(code@) == Some(
                    (
                        tst.load@,
                        opt_str_view(tst.out_file),
                        opt_str_view(tst.compare_to),
                        opt_out_list_view(tst.out_list),
                        instrs_view(tst.instruction@),
                    ),
                ) && tst.out is None,
                Err(_) => tst_spec(code@) is None,
            },
    {
        match N2tTst::from_code(code) {
            Ok(parsed) => Ok(
                TST {
                    load: parsed.load,
                    out_file: parsed.out_file,
                    compare_to: parsed.compare_to,
                    out_list: parsed.out_list,
                    instruction: parsed.instruction,
                    out: None,
                },
            ),
            Err(e) => Err(e),
        }
    }

    /// Holds a comparison table against the script.  Every parsed table is
    /// accepted.
    pub fn validate(&self, cmp: CMP) -> (r: Result<(), usize>)
        ensures
            r is Ok,
    {
        Ok(())
    }
}

impl CMP {
    /// Reads a comparison table under the supplied column header.
    pub fn new(code: &str, head: Vec<OutType>) -> (r: Result<Self, String>)
        ensures
            match r {
                Ok(cmp) => cmp_spec(code@, cells_view(head@)) == Some(
                    (strs_view(cmp.names@), table_view(cmp.table@)),
                ),
                Err(_) => cmp_spec(code@, cells_view(head@)) is None,
            },
    {
        match N2tCmp::from_code(code, head) {
            Ok(parsed) => Ok(CMP { table: parsed.table, names: parsed.names }),
            Err(e) => Err(e),
        }
    }
}

} // verus!
