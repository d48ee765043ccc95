//! The fixed 64x64 transform basis shared by every block operation. Each
//! entry is an IEEE-754 double carried as its bit pattern; the raw entries
//! (products of a 1-D cosine basis with itself) are evaluated by the
//! caller, while this module performs and guarantees the final shaping
//! step: column 0 of every row is overwritten with the unit value, so a
//! regression over the rows can learn an additive offset through its first
//! coefficient.

use vstd::prelude::*;

verus! {

use vstd::arithmetic::div_mod::lemma_fundamental_div_mod;
use vstd::arithmetic::div_mod::lemma_fundamental_div_mod_converse;

/// The IEEE-754 double-precision bit pattern of the value one.
pub const UNIT_BITS: u64 = 0x3FF0000000000000;

/// Immutable 64x64 dense matrix of double bit patterns, stored row-major:
/// the entry at row `r`, column `c` is `entries[r * 64 + c]`.
pub struct BasisMatrix {
    pub entries: Vec<u64>,
}

impl BasisMatrix {
    /// Every basis matrix has exactly 64 x 64 entries and a unit column 0:
    /// the entries at the row-major indices divisible by 64.
    pub open spec fn wf(self) -> bool {
        &&& self.entries.len() == 4096
        &&& forall|i: int| 0 <= i < 4096 && i % 64 == 0 ==> self.entries@[i] == UNIT_BITS
    }

    /// Copies out row `r`: the full 64-length coefficient vector.
    pub fn row(&self, r: usize) -> (row: Vec<u64>)
        requires
            self.wf(),
            r < 64,
        ensures
            row@ == self@.subrange(r as int * 64, r as int * 64 + 64),
    {
        let mut row: Vec<u64> = Vec::new();
        let mut j: usize = 0;
        while j < 64
            invariant
                j <= 64,
                r < 64,
                self.entries@.len() == 4096,
                row@.len() == j,
                forall|k: int| 0 <= k < j ==> row@[k] == self.entries@[r * 64 + k],
            decreases 64 - j,
        {
            row.push(self.entries[r * 64 + j]);
            j += 1;
        }
        proof {
            assert(row@ =~= self@.subrange(r as int * 64, r as int * 64 + 64));
        }
        row
    }
}

impl View for BasisMatrix {
    type V = Seq<u64>;

    open spec fn view(&self) -> Seq<u64> {
        self.entries@
    }
}

/// The raw entry table with column 0 of every row replaced by the unit
/// value, the shape every constructed basis has.
pub open spec fn with_unit_column(raw: Seq<u64>) -> Seq<u64> {
    Seq::new(
        4096,
        |i: int|
            if i % 64 == 0 {
                UNIT_BITS
            } else {
                raw[i]
            },
    )
}

/// Builds the basis from the evaluated raw entry table, then overwrites
/// column 0 of every row with the unit value. The overwrite comes after
/// the fill, never interleaved with it.
pub fn from_entries(raw: Vec<u64>) -> (m: BasisMatrix)
    requires
        raw@.len() == 4096,
    ensures
        m.wf(),
        m@ == with_unit_column(raw@),
{
    let mut entries: Vec<u64> = raw;
    let mut r: usize = 0;
    while r < 64
        invariant
            r <= 64,
            entries@.len() == 4096,
            forall|i: int|
                0 <= i < 4096 ==> #[trigger] entries@[i] == (if i % 64 == 0 && i < r * 64 {
                    UNIT_BITS
                } else {
                    raw@[i]
                }),
        decreases 64 - r,
    {
        let idx: usize = r * 64;
        proof {
            lemma_fundamental_div_mod_converse(r as int * 64, 64, r as int, 0);
        }
        entries[idx] = UNIT_BITS;
        proof {
            assert forall|i: int|
                0 <= i < 4096 implies #[trigger] entries@[i] == (if i % 64 == 0 && i < (r + 1)
                    * 64 {
                    UNIT_BITS
                } else {
                    raw@[i]
                }) by {
                if i % 64 == 0 && r * 64 <= i < (r + 1) * 64 {
                    lemma_fundamental_div_mod(i, 64);
                    lemma_fundamental_div_mod_converse(i, 64, r as int, i - r * 64);
                    assert(i == r * 64);
                }
            }
        }
        r += 1;
    }
    let m = BasisMatrix { entries };
    proof {
        assert(m@ =~= with_unit_column(raw@));
    }
    m
}

/// Constructing the basis draws on no randomness: two constructions from
/// the same raw entry table are bit-identical.
pub proof fn lemma_basis_deterministic(a: Seq<u64>, b: Seq<u64>, raw: Seq<u64>)
    requires
        a == with_unit_column(raw),
        b == with_unit_column(raw),
    ensures
        a == b,
{
}

} // verus!
