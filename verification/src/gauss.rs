//! The decisions of Gauss's method of initial orbit determination.
//!
//! Three sightings give, through a chain of vector products, the
//! coefficients of a polynomial `r^8 + a r^6 + b r^3 + c` in the distance `r`
//! of the body at the middle sighting. Each of its real roots above a
//! minimum distance yields one candidate orbit. Decided here: whether the
//! geometry supports the method at all, the companion matrix whose
//! eigenvalues are the roots, which eigenvalues count as roots, and the
//! bookkeeping that turns the roots, one by one, into the list of orbits.

use vstd::prelude::*;
use crate::binary64::Binary64;
use crate::binary64::ONE_BITS;
use crate::binary64::lemma_rounds;
use crate::binary64::lemma_pow2_values;
use crate::keplerorbit::KeplerOrbit;

verus! {

/// The pattern of `1e-12`: three lines of sight whose triple product is
/// smaller than this in absolute value are taken to lie in one plane.
pub const COPLANAR_TOLERANCE_BITS: u64 = 0x3d71_9799_812d_ea11;

/// Rows, and columns, of the companion matrix: the degree of the polynomial.
pub const DEGREE: usize = 8;

/// One eigenvalue of the companion matrix.
#[derive(Clone, Copy, Debug, PartialEq, Eq, Structural)]
pub struct Eigenvalue {
    pub re: Binary64,
    pub im: Binary64,
}

/// Whether the triple product `d0` of the three lines of sight is too small
/// to divide by: below the tolerance in absolute value, or a NaN.
pub open spec fn degenerate(d0: Binary64) -> bool {
    !(Binary64 { bits: COPLANAR_TOLERANCE_BITS }).at_most(d0.magnitude())
}

/// Whether the polynomial `r^8 + a r^6 + b r^3 + c` is worth solving: the
/// lines of sight span a volume and the three coefficients are finite
/// numbers. Coefficients that overflowed or are NaN have no root that could
/// be told from another.
pub open spec fn searchable(d0: Binary64, a: Binary64, b: Binary64, c: Binary64) -> bool {
    &&& !degenerate(d0)
    &&& a.finite()
    &&& b.finite()
    &&& c.finite()
}

/// What a cell of the companion matrix holds.
pub enum Cell {
    Zero,
    One,
    /// The negated coefficient of `r^6`.
    MinusA,
    /// The negated coefficient of `r^3`.
    MinusB,
    /// The negated constant coefficient.
    MinusC,
}

/// The pattern of the companion matrix of `r^8 + a r^6 + b r^3 + c`, rows
/// and columns counted from zero. It does not depend on the coefficients.
///
/// The first seven rows shift: a one right of the diagonal, zeros elsewhere.
/// The last row holds the negated coefficients, each in the column of its
/// degree, and zeros elsewhere.
pub open spec fn cell_at(row: int, col: int) -> Cell {
    if row < DEGREE - 1 {
        if col == row + 1 {
            Cell::One
        } else {
            Cell::Zero
        }
    } else if col == 0 {
        Cell::MinusC
    } else if col == 3 {
        Cell::MinusB
    } else if col == 6 {
        Cell::MinusA
    } else {
        Cell::Zero
    }
}

/// The entry of the companion matrix of `r^8 + a r^6 + b r^3 + c` at a row
/// and a column. Negating a double is exact, so the entries hold the
/// coefficients without rounding.
pub open spec fn companion_entry(
    a: Binary64,
    b: Binary64,
    c: Binary64,
    row: int,
    col: int,
) -> Binary64 {
    match cell_at(row, col) {
        Cell::Zero => Binary64 { bits: 0 },
        Cell::One => Binary64 { bits: ONE_BITS },
        Cell::MinusA => a.negated(),
        Cell::MinusB => b.negated(),
        Cell::MinusC => c.negated(),
    }
}

/// The entry of the same matrix for integer coefficients.
pub open spec fn integer_entry(a: int, b: int, c: int, row: int, col: int) -> int {
    match cell_at(row, col) {
        Cell::Zero => 0,
        Cell::One => 1,
        Cell::MinusA => -a,
        Cell::MinusB => -b,
        Cell::MinusC => -c,
    }
}

/// `r^k`.
pub open spec fn power(r: int, k: nat) -> int
    decreases k,
{
    if k == 0 {
        1
    } else {
        r * power(r, (k - 1) as nat)
    }
}

/// The product of a row of the integer matrix with the first `cols`
/// components of the vector `(1, r, r^2, ...)`.
pub open spec fn row_times_powers(a: int, b: int, c: int, r: int, row: int, cols: nat) -> int
    decreases cols,
{
    if cols == 0 {
        0
    } else {
        row_times_powers(a, b, c, r, row, (cols - 1) as nat) + integer_entry(
            a,
            b,
            c,
            row,
            cols - 1,
        ) * power(r, (cols - 1) as nat)
    }
}

/// Whether an eigenvalue counts as a root: its imaginary part is zero and
/// its real part is above the minimum distance.
pub open spec fn accepts(z: Eigenvalue, min_distance: Binary64) -> bool {
    z.im.zero() && min_distance.less(z.re)
}

/// The real parts of the accepted eigenvalues, in the order of the eigenvalues.
pub open spec fn selected_roots(eigenvalues: Seq<Eigenvalue>, min_distance: Binary64) -> Seq<
    Binary64,
>
    decreases eigenvalues.len(),
{
    if eigenvalues.len() == 0 {
        Seq::empty()
    } else {
        let before = selected_roots(eigenvalues.drop_last(), min_distance);
        if accepts(eigenvalues.last(), min_distance) {
            before.push(eigenvalues.last().re)
        } else {
            before
        }
    }
}

/// An 8 by 8 matrix of doubles, stored row by row.
#[derive(Debug)]
pub struct CompanionMatrix {
    entries: Vec<Binary64>,
}

impl View for CompanionMatrix {
    type V = Seq<Binary64>;

    /// The 64 entries, row by row.
    closed spec fn view(&self) -> Seq<Binary64> {
        self.entries@
    }
}

impl CompanionMatrix {
    #[verifier::type_invariant]
    closed spec fn has_all_entries(&self) -> bool {
        self.entries@.len() == DEGREE * DEGREE
    }

    /// The entry at a row and a column, both counted from zero.
    pub open spec fn at(&self, row: int, col: int) -> Binary64 {
        self@[row * DEGREE + col]
    }

    /// Whether this is the companion matrix of `r^8 + a r^6 + b r^3 + c`.
    pub open spec fn is_companion_of(&self, a: Binary64, b: Binary64, c: Binary64) -> bool {
        &&& self@.len() == DEGREE * DEGREE
        &&& forall|row: int, col: int|
            0 <= row < DEGREE && 0 <= col < DEGREE ==> #[trigger] self.at(row, col)
                == companion_entry(a, b, c, row, col)
    }

    /// The companion matrix of `r^8 + a r^6 + b r^3 + c`.
    pub fn new(a: Binary64, b: Binary64, c: Binary64) -> (m: CompanionMatrix)
        ensures
            m.is_companion_of(a, b, c),
    {
        let zero: Binary64 = Binary64::zero_value();
        let one: Binary64 = Binary64::from_bits(ONE_BITS);
        let mut entries: Vec<Binary64> = Vec::new();
        let mut row: usize = 0;
        while row < DEGREE
            invariant
                row <= DEGREE,
                zero.bits == 0,
                one.bits == ONE_BITS,
                entries@.len() == row * DEGREE,
                forall|r: int, k: int|
                    0 <= r < row && 0 <= k < DEGREE ==> #[trigger] entries@[r * DEGREE + k]
                        == companion_entry(a, b, c, r, k),
            decreases DEGREE - row,
        {
            let mut col: usize = 0;
            while col < DEGREE
                invariant
                    row < DEGREE,
                    col <= DEGREE,
                    zero.bits == 0,
                    one.bits == ONE_BITS,
                    entries@.len() == row * DEGREE + col,
                    forall|r: int, k: int|
                        0 <= r < row && 0 <= k < DEGREE ==> #[trigger] entries@[r * DEGREE + k]
                            == companion_entry(a, b, c, r, k),
                    forall|k: int|
                        0 <= k < col ==> #[trigger] entries@[row * DEGREE + k] == companion_entry(
                            a,
                            b,
                            c,
                            row as int,
                            k,
                        ),
                decreases DEGREE - col,
            {
                let value: Binary64 = if row < DEGREE - 1 {
                    if col == row + 1 {
                        one
                    } else {
                        zero
                    }
                } else if col == 0 {
                    c.neg()
                } else if col == 3 {
                    b.neg()
                } else if col == 6 {
                    a.neg()
                } else {
                    zero
                };
                entries.push(value);
                col = col + 1;
            }
            row = row + 1;
        }
        CompanionMatrix { entries }
    }

    /// Reads one entry.
    pub fn entry(&self, row: usize, col: usize) -> (value: Binary64)
        requires
            row < DEGREE,
            col < DEGREE,
        ensures
            value == self.at(row as int, col as int),
    {
        proof {
            use_type_invariant(self);
        }
        self.entries[row * DEGREE + col]
    }
}

/// Whether the triple product of the lines of sight rules the method out.
pub fn is_degenerate(d0: Binary64) -> (r: bool)
    ensures
        r == degenerate(d0),
{
    let size: Binary64 = d0.abs();
    !Binary64::from_bits(COPLANAR_TOLERANCE_BITS).le(size)
}

/// Opens the search for the distance at the middle sighting: nothing where
/// there is nothing to search, else the matrix whose eigenvalues are to be
/// found.
pub fn plan_root_search(d0: Binary64, a: Binary64, b: Binary64, c: Binary64) -> (plan: Option<
    CompanionMatrix,
>)
    ensures
        plan is Some <==> searchable(d0, a, b, c),
        degenerate(d0) ==> plan is None,
        plan matches Some(m) ==> m.is_companion_of(a, b, c),
{
    if is_degenerate(d0) || !a.is_finite() || !b.is_finite() || !c.is_finite() {
        None
    } else {
        Some(CompanionMatrix::new(a, b, c))
    }
}

/// Whether an eigenvalue counts as a root.
pub fn is_root(z: &Eigenvalue, min_distance: Binary64) -> (r: bool)
    ensures
        r == accepts(*z, min_distance),
{
    z.im.is_zero() && z.re.gt(min_distance)
}

/// The roots among the eigenvalues: real, and above the minimum distance.
pub fn select_roots(eigenvalues: &Vec<Eigenvalue>, min_distance: Binary64) -> (roots: Vec<
    Binary64,
>)
    ensures
        roots@ == selected_roots(eigenvalues@, min_distance),
{
    let mut roots: Vec<Binary64> = Vec::new();
    let mut i: usize = 0;
    while i < eigenvalues.len()
        invariant
            i <= eigenvalues.len(),
            roots@ == selected_roots(eigenvalues@.take(i as int), min_distance),
        decreases eigenvalues.len() - i,
    {
        proof {
            assert(eigenvalues@.take(i + 1).drop_last() == eigenvalues@.take(i as int));
            assert(eigenvalues@.take(i + 1).last() == eigenvalues@[i as int]);
        }
        if is_root(&eigenvalues[i], min_distance) {
            roots.push(eigenvalues[i].re);
        }
        i = i + 1;
    }
    proof {
        assert(eigenvalues@.take(eigenvalues.len() as int) == eigenvalues@);
    }
    roots
}

/// The coplanarity tolerance is the double nearest to `10^-12`.
pub proof fn lemma_tolerance_denotes()
    ensures
        (Binary64 { bits: COPLANAR_TOLERANCE_BITS }).rounds(1, 1_000_000_000_000),
{
    lemma_pow2_values();
    let tol = Binary64 { bits: COPLANAR_TOLERANCE_BITS };
    assert(tol.exponent_field() == 983);
    assert(tol.significand() == 4951760157141521);
    lemma_rounds(tol, 1, 1_000_000_000_000, 92);
}

/// The companion matrix has a fixed pattern, whatever the coefficients: its
/// first seven rows hold a one right of the diagonal and zeros elsewhere, and
/// its last row holds the negated coefficients `c`, `b`, `a` in columns 0, 3
/// and 6 and zeros in every other column.
pub proof fn lemma_companion_pattern(a: Binary64, b: Binary64, c: Binary64)
    ensures
        forall|row: int, col: int|
            0 <= row < 7 && 0 <= col < 8 ==> (#[trigger] companion_entry(a, b, c, row, col)).bits
                == (if col == row + 1 {
                ONE_BITS
            } else {
                0
            }),
        companion_entry(a, b, c, 7, 0) == c.negated(),
        companion_entry(a, b, c, 7, 3) == b.negated(),
        companion_entry(a, b, c, 7, 6) == a.negated(),
        forall|col: int|
            0 <= col < 8 && col != 0 && col != 3 && col != 6 ==> (#[trigger] companion_entry(
                a,
                b,
                c,
                7,
                col,
            )).bits == 0,
{
}

/// The pattern is the right one: over the integers, a root `r` of
/// `r^8 + a r^6 + b r^3 + c` is an eigenvalue of the matrix, with the
/// eigenvector `(1, r, r^2, ..., r^7)`.
pub proof fn lemma_roots_are_eigenvalues(a: int, b: int, c: int, r: int, row: int)
    requires
        power(r, 8) + a * power(r, 6) + b * power(r, 3) + c == 0,
        0 <= row < 8,
    ensures
        row_times_powers(a, b, c, r, row, 8) == r * power(r, row as nat),
{
    reveal_with_fuel(row_times_powers, 9);
    reveal_with_fuel(power, 9);
    if row == 0 {
        assert(row_times_powers(a, b, c, r, 0, 8) == power(r, 1));
    } else if row == 1 {
        assert(row_times_powers(a, b, c, r, 1, 8) == power(r, 2));
    } else if row == 2 {
        assert(row_times_powers(a, b, c, r, 2, 8) == power(r, 3));
    } else if row == 3 {
        assert(row_times_powers(a, b, c, r, 3, 8) == power(r, 4));
    } else if row == 4 {
        assert(row_times_powers(a, b, c, r, 4, 8) == power(r, 5));
    } else if row == 5 {
        assert(row_times_powers(a, b, c, r, 5, 8) == power(r, 6));
    } else if row == 6 {
        assert(row_times_powers(a, b, c, r, 6, 8) == power(r, 7));
    } else {
        assert(row_times_powers(a, b, c, r, 7, 8) == (-c) * power(r, 0) + (-b) * power(r, 3) + (
        -a) * power(r, 6));
        assert((-b) * power(r, 3) == -(b * power(r, 3))) by (nonlinear_arith);
        assert((-a) * power(r, 6) == -(a * power(r, 6))) by (nonlinear_arith);
        assert(r * power(r, 7) == power(r, 8));
    }
}

/// A matrix built for `(a, b, c)` differs from one built for other
/// coefficients in the three coefficient entries at most.
pub proof fn lemma_companion_varies_in_last_row_only(
    a: Binary64,
    b: Binary64,
    c: Binary64,
    a2: Binary64,
    b2: Binary64,
    c2: Binary64,
    row: int,
    col: int,
)
    requires
        0 <= row < 8,
        0 <= col < 8,
        companion_entry(a, b, c, row, col) != companion_entry(a2, b2, c2, row, col),
    ensures
        row == 7,
        col == 0 || col == 3 || col == 6,
{
}

/// Whether `root` is the real part of an accepted eigenvalue.
pub open spec fn is_accepted_real_part(
    eigenvalues: Seq<Eigenvalue>,
    min_distance: Binary64,
    root: Binary64,
) -> bool {
    exists|i: int|
        0 <= i < eigenvalues.len() && accepts(#[trigger] eigenvalues[i], min_distance)
            && eigenvalues[i].re == root
}

/// Every selected root is the real part of an accepted eigenvalue: a number
/// above the minimum distance. There are no more roots than eigenvalues.
pub proof fn lemma_selected_roots_accepted(eigenvalues: Seq<Eigenvalue>, min_distance: Binary64)
    ensures
        selected_roots(eigenvalues, min_distance).len() <= eigenvalues.len(),
        forall|k: int|
            0 <= k < selected_roots(eigenvalues, min_distance).len() ==> min_distance.less(
                #[trigger] selected_roots(eigenvalues, min_distance)[k],
            ),
        forall|k: int|
            0 <= k < selected_roots(eigenvalues, min_distance).len() ==> is_accepted_real_part(
                eigenvalues,
                min_distance,
                #[trigger] selected_roots(eigenvalues, min_distance)[k],
            ),
    decreases eigenvalues.len(),
{
    if eigenvalues.len() > 0 {
        let front = eigenvalues.drop_last();
        lemma_selected_roots_accepted(front, min_distance);
        let before = selected_roots(front, min_distance);
        let all = selected_roots(eigenvalues, min_distance);
        assert forall|k: int| 0 <= k < all.len() implies is_accepted_real_part(
            eigenvalues,
            min_distance,
            #[trigger] all[k],
        ) by {
            if k < before.len() {
                assert(is_accepted_real_part(front, min_distance, before[k]));
                let i = choose|i: int|
                    0 <= i < front.len() && accepts(#[trigger] front[i], min_distance)
                        && front[i].re == before[k];
                assert(eigenvalues[i] == front[i]);
            } else {
                assert(accepts(eigenvalues[eigenvalues.len() - 1], min_distance));
            }
        }
    }
}

/// No accepted eigenvalue is left out: its real part is among the roots.
pub proof fn lemma_selected_roots_complete(
    eigenvalues: Seq<Eigenvalue>,
    min_distance: Binary64,
    i: int,
)
    requires
        0 <= i < eigenvalues.len(),
        accepts(eigenvalues[i], min_distance),
    ensures
        selected_roots(eigenvalues, min_distance).contains(eigenvalues[i].re),
    decreases eigenvalues.len(),
{
    let front = eigenvalues.drop_last();
    let before = selected_roots(front, min_distance);
    let all = selected_roots(eigenvalues, min_distance);
    if i == eigenvalues.len() - 1 {
        assert(all[before.len() as int] == eigenvalues[i].re);
    } else {
        lemma_selected_roots_complete(front, min_distance, i);
        let k = choose|k: int| 0 <= k < before.len() && before[k] == front[i].re;
        assert(all[k] == before[k]);
    }
}

/// The bookkeeping of the roots, as contracts speak of it: the roots to be
/// worked through and the orbits found for the first of them.
pub struct Sweep {
    pub roots: Seq<Binary64>,
    pub orbits: Seq<KeplerOrbit>,
}

impl Sweep {
    /// The root whose orbit is due next, if any is left.
    pub open spec fn pending(self) -> Option<Binary64> {
        if self.orbits.len() < self.roots.len() {
            Some(self.roots[self.orbits.len() as int])
        } else {
            None
        }
    }

    /// The sweep after the orbit of the pending root came in. With no root
    /// pending, the orbit is dropped.
    pub open spec fn recorded(self, orbit: KeplerOrbit) -> Sweep {
        if self.orbits.len() < self.roots.len() {
            Sweep { roots: self.roots, orbits: self.orbits.push(orbit) }
        } else {
            self
        }
    }

    /// The sweep after the orbits `orbits` came in, in order.
    pub open spec fn recorded_all(self, orbits: Seq<KeplerOrbit>) -> Sweep
        decreases orbits.len(),
    {
        if orbits.len() == 0 {
            self
        } else {
            self.recorded_all(orbits.drop_last()).recorded(orbits.last())
        }
    }

    /// What the method returns: no solution where no root qualified, else
    /// the orbits found.
    pub open spec fn outcome(self) -> Option<Seq<KeplerOrbit>> {
        if self.roots.len() == 0 {
            None
        } else {
            Some(self.orbits)
        }
    }
}

/// The roots of one determination and the orbits found for them so far.
/// There are never more orbits than roots.
#[derive(Debug)]
pub struct RootSweep {
    roots: Vec<Binary64>,
    orbits: Vec<KeplerOrbit>,
}

impl View for RootSweep {
    type V = Sweep;

    closed spec fn view(&self) -> Sweep {
        Sweep { roots: self.roots@, orbits: self.orbits@ }
    }
}

impl RootSweep {
    #[verifier::type_invariant]
    closed spec fn orbits_within_roots(&self) -> bool {
        self.orbits@.len() <= self.roots@.len()
    }

    /// Selects the roots among the eigenvalues and opens their sweep.
    pub fn open(eigenvalues: &Vec<Eigenvalue>, min_distance: Binary64) -> (sweep: RootSweep)
        ensures
            sweep@.roots == selected_roots(eigenvalues@, min_distance),
            sweep@.orbits.len() == 0,
    {
        RootSweep { roots: select_roots(eigenvalues, min_distance), orbits: Vec::new() }
    }

    /// The root whose orbit is due next; `None` once every root has its orbit.
    pub fn pending(&self) -> (root: Option<Binary64>)
        ensures
            root == self@.pending(),
            self@.orbits.len() <= self@.roots.len(),
    {
        proof {
            use_type_invariant(self);
        }
        if self.orbits.len() < self.roots.len() {
            Some(self.roots[self.orbits.len()])
        } else {
            None
        }
    }

    /// Takes in the orbit of the pending root.
    pub fn record(self, orbit: KeplerOrbit) -> (next: RootSweep)
        ensures
            next@ == self@.recorded(orbit),
    {
        proof {
            use_type_invariant(&self);
        }
        let roots: Vec<Binary64> = self.roots;
        let mut orbits: Vec<KeplerOrbit> = self.orbits;
        if orbits.len() < roots.len() {
            orbits.push(orbit);
        }
        RootSweep { roots, orbits }
    }

    /// The number of roots selected.
    pub fn root_count(&self) -> (n: usize)
        ensures
            n == self@.roots.len(),
    {
        self.roots.len()
    }

    /// Closes the sweep: no solution where no root qualified, else the
    /// orbits recorded, in the order of their roots.
    pub fn finish(self) -> (result: Option<Vec<KeplerOrbit>>)
        ensures
            result is None <==> self@.roots.len() == 0,
            result matches Some(orbits) ==> orbits@ == self@.orbits,
    {
        if self.roots.len() == 0 {
            None
        } else {
            Some(self.orbits)
        }
    }
}

/// Worked through to its end, a sweep holds one orbit for each root, in the
/// order in which they came in: as many orbits as roots fill it exactly.
pub proof fn lemma_one_orbit_per_root(roots: Seq<Binary64>, orbits: Seq<KeplerOrbit>)
    requires
        orbits.len() <= roots.len(),
    ensures
        (Sweep { roots, orbits: Seq::empty() }).recorded_all(orbits) == (Sweep { roots, orbits }),
        orbits.len() == roots.len() ==> (Sweep { roots, orbits }).pending() is None,
        orbits.len() < roots.len() ==> (Sweep { roots, orbits }).pending() == Some(
            roots[orbits.len() as int],
        ),
    decreases orbits.len(),
{
    if orbits.len() > 0 {
        lemma_one_orbit_per_root(roots, orbits.drop_last());
        assert(orbits.drop_last().push(orbits.last()) == orbits);
    } else {
        assert(orbits == Seq::<KeplerOrbit>::empty());
    }
}

/// No root, no solution: with every eigenvalue rejected the outcome is
/// `None`, whatever is recorded.
pub proof fn lemma_no_root_no_solution(
    eigenvalues: Seq<Eigenvalue>,
    min_distance: Binary64,
    orbits: Seq<KeplerOrbit>,
)
    requires
        forall|i: int| 0 <= i < eigenvalues.len() ==> !accepts(#[trigger] eigenvalues[i], min_distance),
    ensures
        selected_roots(eigenvalues, min_distance).len() == 0,
        (Sweep { roots: selected_roots(eigenvalues, min_distance), orbits: Seq::empty() }).recorded_all(
            orbits,
        ).outcome() is None,
    decreases eigenvalues.len(), orbits.len(),
{
    lemma_nothing_accepted(eigenvalues, min_distance);
    let start = Sweep { roots: selected_roots(eigenvalues, min_distance), orbits: Seq::empty() };
    lemma_recording_keeps_roots(start, orbits);
}

/// With every eigenvalue rejected no root is selected.
proof fn lemma_nothing_accepted(eigenvalues: Seq<Eigenvalue>, min_distance: Binary64)
    requires
        forall|i: int| 0 <= i < eigenvalues.len() ==> !accepts(#[trigger] eigenvalues[i], min_distance),
    ensures
        selected_roots(eigenvalues, min_distance).len() == 0,
    decreases eigenvalues.len(),
{
    if eigenvalues.len() > 0 {
        let front = eigenvalues.drop_last();
        assert forall|i: int| 0 <= i < front.len() implies !accepts(
            #[trigger] front[i],
            min_distance,
        ) by {
            assert(front[i] == eigenvalues[i]);
        }
        lemma_nothing_accepted(front, min_distance);
        assert(!accepts(eigenvalues[eigenvalues.len() - 1], min_distance));
    }
}

/// Recording orbits never changes the roots.
proof fn lemma_recording_keeps_roots(sweep: Sweep, orbits: Seq<KeplerOrbit>)
    ensures
        sweep.recorded_all(orbits).roots == sweep.roots,
    decreases orbits.len(),
{
    if orbits.len() > 0 {
        lemma_recording_keeps_roots(sweep, orbits.drop_last());
    }
}

} // verus!
