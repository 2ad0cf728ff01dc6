//! Parsed test-script data: the `.tst` instruction list and the `.cmp`
//! comparison table.

pub mod n2t_cmp;
pub mod n2t_tst;

pub use n2t_cmp::{parse_bool, N2tCmp};
pub use n2t_tst::{Instruction, N2tTst, OutList, Token};

use vstd::prelude::*;

verus! {

/// One typed cell of a comparison table or output list: a clock count with
/// its half-phase mark, a bit row, or a signed decimal.
#[derive(Debug, PartialEq, Eq)]
pub enum OutType {
    Clock((usize, bool)),
    Binary(Vec<bool>),
    Decimal(isize),
}

/// The mathematical reading of a cell.
pub ghost enum OutTypeV {
    Clock((nat, bool)),
    Binary(Seq<bool>),
    Decimal(int),
}

impl View for OutType {
    type V = OutTypeV;

    open spec fn view(&self) -> OutTypeV {
        match self {
            OutType::Clock(p) => OutTypeV::Clock((p.0 as nat, p.1)),
            OutType::Binary(bits) => OutTypeV::Binary(bits@),
            OutType::Decimal(d) => OutTypeV::Decimal(*d as int),
        }
    }
}

/// The views of a cell list.
pub open spec fn cells_view(v: Seq<OutType>) -> Seq<OutTypeV> {
    v.map_values(|c: OutType| c@)
}

/// The views of a cell table.
pub open spec fn table_view(v: Seq<Vec<OutType>>) -> Seq<Seq<OutTypeV>> {
    v.map_values(|col: Vec<OutType>| cells_view(col@))
}

/// A copy of a cell, equal in its mathematical reading.
pub fn dup_out_type(c: &OutType) -> (r: OutType)
    ensures
        r@ == c@,
{
    match c {
        OutType::Clock(p) => OutType::Clock(*p),
        OutType::Binary(bits) => {
            let mut copy: Vec<bool> = Vec::new();
            let mut j: usize = 0;
            while j < bits.len()
                invariant
                    j <= bits@.len(),
                    copy@ =~= bits@.subrange(0, j as int),
                decreases bits@.len() - j,
            {
                copy.push(bits[j]);
                j = j + 1;
                proof {
                    assert(copy@ =~= bits@.subrange(0, j as int));
                }
            }
            proof {
                assert(bits@.subrange(0, bits@.len() as int) =~= bits@);
            }
            OutType::Binary(copy)
        },
        OutType::Decimal(d) => OutType::Decimal(*d),
    }
}

} // verus!
