//! What a constraint system is made of, besides its transition constraints:
//! the declared degree of each constraint, the boundary assertions, the
//! execution trace, and the parameters of a proof.

use crate::field::Felt;
use vstd::prelude::*;

verus! {

/// `n` is a power of two.
pub open spec fn spec_is_power_of_two(n: nat) -> bool
    decreases n,
{
    if n == 1 {
        true
    } else if n == 0 || n % 2 == 1 {
        false
    } else {
        spec_is_power_of_two(n / 2)
    }
}

/// Whether `n` is a power of two.
pub fn is_power_of_two(n: usize) -> (b: bool)
    ensures
        b == spec_is_power_of_two(n as nat),
{
    let mut m: usize = n;
    while m > 1 && m % 2 == 0
        invariant
            spec_is_power_of_two(m as nat) == spec_is_power_of_two(n as nat),
        decreases m,
    {
        m = m / 2;
    }
    m == 1
}

// DEGREES
// ================================================================================================

/// The declared degree of a transition constraint: the degree in the
/// registers of the trace, and the cycle length of each periodic column that
/// is multiplied in.
#[derive(Clone, Debug, PartialEq, Eq)]
pub struct TransitionConstraintDegree {
    pub base: usize,
    pub cycles: Vec<usize>,
}

/// The mathematical value of a [`TransitionConstraintDegree`].
pub struct DegreeView {
    pub base: usize,
    pub cycles: Seq<usize>,
}

impl View for TransitionConstraintDegree {
    type V = DegreeView;

    open spec fn view(&self) -> DegreeView {
        DegreeView { base: self.base, cycles: self.cycles@ }
    }
}

impl DegreeView {
    /// The degree is positive and every cycle is a power of two above one.
    pub open spec fn wf(self) -> bool {
        &&& self.base > 0
        &&& forall|i: int|
            0 <= i < self.cycles.len() ==> (#[trigger] self.cycles[i]) >= 2 && spec_is_power_of_two(
                self.cycles[i] as nat,
            )
    }
}

impl TransitionConstraintDegree {
    /// A degree without periodic columns.
    pub fn new(base: usize) -> (r: TransitionConstraintDegree)
        requires
            base > 0,
        ensures
            r@ == (DegreeView { base, cycles: Seq::empty() }),
            r@.wf(),
    {
        TransitionConstraintDegree { base, cycles: Vec::new() }
    }

    /// A degree with the cycle lengths of the periodic columns that the
    /// constraint multiplies in.
    pub fn with_cycles(base: usize, cycles: Vec<usize>) -> (r: TransitionConstraintDegree)
        requires
            (DegreeView { base, cycles: cycles@ }).wf(),
        ensures
            r@ == (DegreeView { base, cycles: cycles@ }),
            r@.wf(),
    {
        TransitionConstraintDegree { base, cycles }
    }
}

/// The views of a list of degrees.
pub open spec fn degrees_view(degrees: Seq<TransitionConstraintDegree>) -> Seq<DegreeView> {
    Seq::new(degrees.len(), |i: int| degrees[i]@)
}

// ASSERTIONS
// ================================================================================================

/// A boundary assertion: the value that a register must hold on one row, on
/// every row of a period, or along a sequence of rows.
#[derive(Clone, Debug, PartialEq, Eq)]
pub enum Assertion {
    /// `column` holds `value` on row `step`.
    Single { column: usize, step: usize, value: Felt },
    /// `column` holds `value` on the rows `first_step + k * stride`.
    Periodic { column: usize, first_step: usize, stride: usize, value: Felt },
    /// `column` holds `values[k]` on row `first_step + k * stride`.
    Sequence { column: usize, first_step: usize, stride: usize, values: Vec<Felt> },
}

/// The mathematical value of an [`Assertion`].
pub enum AssertionView {
    Single { column: usize, step: usize, value: Felt },
    Periodic { column: usize, first_step: usize, stride: usize, value: Felt },
    Sequence { column: usize, first_step: usize, stride: usize, values: Seq<Felt> },
}

impl View for Assertion {
    type V = AssertionView;

    open spec fn view(&self) -> AssertionView {
        match *self {
            Assertion::Single { column, step, value } => AssertionView::Single {
                column,
                step,
                value,
            },
            Assertion::Periodic { column, first_step, stride, value } => AssertionView::Periodic {
                column,
                first_step,
                stride,
                value,
            },
            Assertion::Sequence { column, first_step, stride, values } => AssertionView::Sequence {
                column,
                first_step,
                stride,
                values: values@,
            },
        }
    }
}

/// The row of value `k` of an assertion on every `stride` rows from row
/// `first_step` on.
pub open spec fn spec_row_of(first_step: usize, stride: usize, k: int) -> int {
    first_step + k * stride
}

/// Register `column` of row `step` is there and holds `value`.
pub open spec fn spec_holds_at(rows: Seq<Seq<Felt>>, column: usize, step: int, value: Felt) -> bool {
    0 <= step < rows.len() && column < rows[step].len() && rows[step][column as int] == value
}

/// Register `column` holds `value` on every row of the trace that is
/// `first_step` plus a multiple of `stride`.
pub open spec fn spec_holds_periodically(
    rows: Seq<Seq<Felt>>,
    column: usize,
    first_step: usize,
    stride: usize,
    value: Felt,
) -> bool {
    forall|k: int|
        0 <= k && spec_row_of(first_step, stride, k) < rows.len() ==> spec_holds_at(
            rows,
            column,
            #[trigger] spec_row_of(first_step, stride, k),
            value,
        )
}

/// The values span the trace with one value every `stride` rows, and
/// register `column` holds each on its row, the first on row `first_step`.
pub open spec fn spec_holds_in_sequence(
    rows: Seq<Seq<Felt>>,
    column: usize,
    first_step: usize,
    stride: usize,
    values: Seq<Felt>,
) -> bool {
    &&& values.len() * stride == rows.len()
    &&& forall|k: int|
        0 <= k < values.len() ==> spec_holds_at(
            rows,
            column,
            #[trigger] spec_row_of(first_step, stride, k),
            values[k],
        )
}

impl AssertionView {
    /// Whether a trace, given by its rows, meets the assertion: a single
    /// assertion on its row; a periodic one on every row of its period that
    /// the trace has; a sequence, which must span the trace, on the row of
    /// each of its values.
    pub open spec fn holds(self, rows: Seq<Seq<Felt>>) -> bool {
        match self {
            AssertionView::Single { column, step, value } => spec_holds_at(
                rows,
                column,
                step as int,
                value,
            ),
            AssertionView::Periodic {
                column,
                first_step,
                stride,
                value,
            } => spec_holds_periodically(rows, column, first_step, stride, value),
            AssertionView::Sequence {
                column,
                first_step,
                stride,
                values,
            } => spec_holds_in_sequence(rows, column, first_step, stride, values),
        }
    }
}

impl Assertion {
    /// The assertion that `column` holds `value` on row `step`.
    pub fn single(column: usize, step: usize, value: Felt) -> (r: Assertion)
        ensures
            r@ == (AssertionView::Single { column, step, value }),
    {
        Assertion::Single { column, step, value }
    }

    /// The assertion that `column` holds `value` on row `first_step` and on
    /// every `stride` rows from there.
    pub fn periodic(column: usize, first_step: usize, stride: usize, value: Felt) -> (r:
        Assertion)
        requires
            stride >= 2,
            spec_is_power_of_two(stride as nat),
            first_step < stride,
        ensures
            r@ == (AssertionView::Periodic { column, first_step, stride, value }),
    {
        Assertion::Periodic { column, first_step, stride, value }
    }

    /// The assertion that `column` holds `values[k]` on row
    /// `first_step + k * stride`.
    pub fn sequence(column: usize, first_step: usize, stride: usize, values: Vec<Felt>) -> (r:
        Assertion)
        requires
            stride >= 2,
            spec_is_power_of_two(stride as nat),
            first_step < stride,
            spec_is_power_of_two(values.len() as nat),
        ensures
            r@ == (AssertionView::Sequence { column, first_step, stride, values: values@ }),
    {
        Assertion::Sequence { column, first_step, stride, values }
    }
}

/// The views of a list of assertions.
pub open spec fn assertions_view(assertions: Seq<Assertion>) -> Seq<AssertionView> {
    Seq::new(assertions.len(), |i: int| assertions[i]@)
}

// TRACE
// ================================================================================================

/// An execution trace: the rows that a witness computation went through.
#[derive(Clone, Debug, PartialEq, Eq)]
pub struct TraceTable {
    pub rows: Vec<Vec<Felt>>,
}

impl TraceTable {
    /// The rows of the trace.
    pub open spec fn spec_rows(&self) -> Seq<Seq<Felt>> {
        Seq::new(self.rows@.len(), |i: int| self.rows@[i]@)
    }

    /// Every row has `width` registers.
    pub open spec fn has_width(&self, width: nat) -> bool {
        forall|i: int| 0 <= i < self.rows@.len() ==> (#[trigger] self.rows@[i])@.len() == width
    }

    /// Number of rows.
    pub fn length(&self) -> (r: usize)
        ensures
            r == self.rows@.len(),
    {
        self.rows.len()
    }

    /// Number of registers of a row; zero for a trace without rows.
    pub fn width(&self) -> (r: usize)
        ensures
            self.rows@.len() > 0 ==> r == self.rows@[0]@.len(),
            self.rows@.len() == 0 ==> r == 0,
    {
        if self.rows.len() == 0 {
            0
        } else {
            self.rows[0].len()
        }
    }

    /// The value of `column` on row `step`.
    pub fn get(&self, column: usize, step: usize) -> (r: Felt)
        requires
            step < self.rows@.len(),
            column < self.rows@[step as int]@.len(),
        ensures
            r == self.spec_rows()[step as int][column as int],
    {
        self.rows[step][column]
    }

    /// Whether register `column` of row `step` is there and holds `value`.
    pub fn holds_at(&self, column: usize, step: usize, value: Felt) -> (r: bool)
        ensures
            r == spec_holds_at(self.spec_rows(), column, step as int, value),
    {
        step < self.rows.len() && column < self.rows[step].len() && self.rows[step][column].value
            == value.value
    }

    /// Whether register `column` holds `value` on row `first` and on every
    /// `stride` rows from there.
    fn meets_periodic(&self, column: usize, first: usize, stride: usize, value: Felt) -> (r: bool)
        ensures
            r == (AssertionView::Periodic { column, first_step: first, stride, value }).holds(
                self.spec_rows(),
            ),
    {
        let len = self.rows.len();
        let ghost rows = self.spec_rows();
        if first >= len {
            assert forall|k: int| 0 <= k implies #[trigger] spec_row_of(first, stride, k) >= len by {
                assert(k * stride >= 0) by (nonlinear_arith)
                    requires
                        k >= 0,
                        stride >= 0,
                ;
            }
            return true;
        }
        if stride == 0 {
            assert forall|k: int| 0 <= k implies #[trigger] spec_row_of(first, stride, k) == first by {
                assert(k * 0 == 0);
            }
            assert(spec_row_of(first, stride, 0) == first);
            return self.holds_at(column, first, value);
        }
        let mut step: usize = first;
        let ghost mut j: int = 0;
        loop
            invariant
                len == self.rows@.len(),
                rows == self.spec_rows(),
                stride > 0,
                0 <= j,
                step == spec_row_of(first, stride, j),
                step < len,
                forall|k: int|
                    0 <= k < j ==> spec_holds_at(
                        rows,
                        column,
                        #[trigger] spec_row_of(first, stride, k),
                        value,
                    ),
            decreases len - step,
        {
            if !self.holds_at(column, step, value) {
                assert(!spec_holds_at(rows, column, spec_row_of(first, stride, j), value));
                return false;
            }
            if stride >= len - step {
                proof {
                    assert forall|k: int|
                        0 <= k && spec_row_of(first, stride, k) < len implies spec_holds_at(
                        rows,
                        column,
                        #[trigger] spec_row_of(first, stride, k),
                        value,
                    ) by {
                        if k > j {
                            assert(k * stride >= (j + 1) * stride) by (nonlinear_arith)
                                requires
                                    k >= j + 1,
                                    stride > 0,
                            ;
                            assert((j + 1) * stride == j * stride + stride) by (nonlinear_arith);
                        }
                    }
                }
                return true;
            }
            proof {
                assert((j + 1) * stride == j * stride + stride) by (nonlinear_arith);
                j = j + 1;
            }
            step = step + stride;
        }
    }

    /// Whether `values` span the trace with one value every `stride` rows,
    /// and register `column` holds each on its row, the first on row
    /// `first`.
    fn meets_sequence(&self, column: usize, first: usize, stride: usize, values: &Vec<Felt>) -> (r:
        bool)
        ensures
            r == (AssertionView::Sequence {
                column,
                first_step: first,
                stride,
                values: values@,
            }).holds(self.spec_rows()),
    {
        let len = self.rows.len();
        let n = values.len();
        let ghost rows = self.spec_rows();
        if stride == 0 {
            assert(values@.len() * stride == 0);
            if len != 0 {
                return false;
            }
            if n == 0 {
                return true;
            }
            assert(!spec_holds_at(rows, column, spec_row_of(first, stride, 0), values@[0]));
            return false;
        }
        if len % stride != 0 || len / stride != n {
            proof {
                if n * stride == len {
                    vstd::arithmetic::div_mod::lemma_fundamental_div_mod_converse(
                        len as int,
                        stride as int,
                        n as int,
                        0,
                    );
                }
            }
            return false;
        }
        proof {
            vstd::arithmetic::div_mod::lemma_fundamental_div_mod(len as int, stride as int);
            assert(stride * (len / stride) == (len / stride) * stride) by (nonlinear_arith);
        }
        let mut k: usize = 0;
        while k < n
            invariant
                len == self.rows@.len(),
                rows == self.spec_rows(),
                n == values@.len(),
                n * stride == len,
                stride > 0,
                k <= n,
                forall|i: int|
                    0 <= i < k ==> spec_holds_at(
                        rows,
                        column,
                        #[trigger] spec_row_of(first, stride, i),
                        values@[i],
                    ),
            decreases n - k,
        {
            proof {
                assert(k * stride <= (n - 1) * stride) by (nonlinear_arith)
                    requires
                        k <= n - 1,
                        stride > 0,
                ;
                assert((n - 1) * stride == n * stride - stride) by (nonlinear_arith);
            }
            if first >= stride {
                // the last value would stand behind the trace
                assert(!spec_holds_at(rows, column, spec_row_of(first, stride, n - 1), values@[n - 1]));
                return false;
            }
            if !self.holds_at(column, first + k * stride, values[k]) {
                assert(!spec_holds_at(
                    rows,
                    column,
                    spec_row_of(first, stride, k as int),
                    values@[k as int],
                ));
                return false;
            }
            k += 1;
        }
        true
    }

    /// Whether the trace meets a boundary assertion.
    pub fn meets(&self, assertion: &Assertion) -> (r: bool)
        ensures
            r == assertion@.holds(self.spec_rows()),
    {
        match assertion {
            Assertion::Single { column, step, value } => self.holds_at(*column, *step, *value),
            Assertion::Periodic { column, first_step, stride, value } => self.meets_periodic(
                *column,
                *first_step,
                *stride,
                *value,
            ),
            Assertion::Sequence { column, first_step, stride, values } => self.meets_sequence(
                *column,
                *first_step,
                *stride,
                values,
            ),
        }
    }

    /// A copy of row `step`.
    pub fn read_row(&self, step: usize) -> (r: Vec<Felt>)
        requires
            step < self.rows@.len(),
        ensures
            r@ == self.spec_rows()[step as int],
    {
        crate::air::copy_of(self.rows[step].as_slice())
    }
}

/// A copy of a slice.
pub fn copy_of(s: &[Felt]) -> (r: Vec<Felt>)
    ensures
        r@ == s@,
{
    let mut r: Vec<Felt> = Vec::with_capacity(s.len());
    r.extend_from_slice(s);
    assert(r@ =~= s@);
    r
}

/// A copy of `N` elements as an array.
pub fn array_of<const N: usize>(elements: &[Felt]) -> (r: [Felt; N])
    requires
        elements.len() == N,
    ensures
        r@ == elements@,
{
    let mut out = [Felt::zero();N];
    let mut i: usize = 0;
    while i < N
        invariant
            i <= N,
            elements.len() == N,
            forall|j: int| 0 <= j < i ==> out[j] == elements@[j],
        decreases N - i,
    {
        out[i] = elements[i];
        i += 1;
    }
    assert(out@ =~= elements@);
    out
}

// PROOF PARAMETERS
// ================================================================================================

/// The hash function that commits to the trace.
#[derive(Clone, Copy, Debug, PartialEq, Eq, Structural)]
pub enum HashFunction {
    Blake3_256,
    Blake3_192,
    Sha3_256,
}

/// The extension of the base field in which the verifier draws its
/// challenges.
#[derive(Clone, Copy, Debug, PartialEq, Eq, Structural)]
pub enum FieldExtension {
    /// The base field itself.
    Base,
    Quadratic,
    Cubic,
}

impl FieldExtension {
    /// The degree of the extension: one where there is none.
    pub fn degree(self) -> (r: u32)
        ensures
            r == match self {
                FieldExtension::Base => 1u32,
                FieldExtension::Quadratic => 2u32,
                FieldExtension::Cubic => 3u32,
            },
    {
        match self {
            FieldExtension::Base => 1,
            FieldExtension::Quadratic => 2,
            FieldExtension::Cubic => 3,
        }
    }
}

/// The parameters of a proof, as the caller hands them to the proving
/// engine.
#[derive(Clone, Debug, PartialEq, Eq)]
pub struct ProofOptions {
    pub num_queries: usize,
    pub blowup_factor: usize,
    pub grinding_factor: u32,
    pub hash_fn: HashFunction,
    pub field_extension: FieldExtension,
    pub fri_folding_factor: usize,
    pub fri_max_remainder_size: usize,
}

impl ProofOptions {
    /// The parameters are ones that a proving engine accepts.
    pub open spec fn spec_valid(
        num_queries: usize,
        blowup_factor: usize,
        grinding_factor: u32,
        fri_folding_factor: usize,
        fri_max_remainder_size: usize,
    ) -> bool {
        &&& 0 < num_queries <= 128
        &&& spec_is_power_of_two(blowup_factor as nat)
        &&& 2 <= blowup_factor <= 128
        &&& grinding_factor <= 32
        &&& (fri_folding_factor == 4 || fri_folding_factor == 8 || fri_folding_factor == 16)
        &&& spec_is_power_of_two(fri_max_remainder_size as nat)
        &&& 32 <= fri_max_remainder_size <= 1024
    }

    /// The parameters of a proof.
    pub fn new(
        num_queries: usize,
        blowup_factor: usize,
        grinding_factor: u32,
        hash_fn: HashFunction,
        field_extension: FieldExtension,
        fri_folding_factor: usize,
        fri_max_remainder_size: usize,
    ) -> (r: ProofOptions)
        requires
            ProofOptions::spec_valid(
                num_queries,
                blowup_factor,
                grinding_factor,
                fri_folding_factor,
                fri_max_remainder_size,
            ),
        ensures
            r.num_queries == num_queries,
            r.blowup_factor == blowup_factor,
            r.grinding_factor == grinding_factor,
            r.hash_fn == hash_fn,
            r.field_extension == field_extension,
            r.fri_folding_factor == fri_folding_factor,
            r.fri_max_remainder_size == fri_max_remainder_size,
    {
        ProofOptions {
            num_queries,
            blowup_factor,
            grinding_factor,
            hash_fn,
            field_extension,
            fri_folding_factor,
            fri_max_remainder_size,
        }
    }
}

/// The errors of a witness that does not have the shape that a trace needs.
#[derive(Clone, Copy, Debug, PartialEq, Eq, Structural)]
pub enum WitnessError {
    /// Two lists that go item by item differ in length.
    WrongLength,
    /// There are fewer items than the protocol asks for.
    TooFewItems,
    /// The number of items is not a power of two.
    NotPowerOfTwo,
}

// CONTEXT
// ================================================================================================

/// The dimensions of an execution trace.
#[derive(Clone, Copy, Debug, PartialEq, Eq, Structural)]
pub struct TraceInfo {
    pub width: usize,
    pub length: usize,
}

impl TraceInfo {
    /// The dimensions of a trace of `width` registers and `length` rows.
    pub fn new(width: usize, length: usize) -> (r: TraceInfo)
        requires
            width > 0,
            length >= 8,
            spec_is_power_of_two(length as nat),
        ensures
            r.width == width,
            r.length == length,
    {
        TraceInfo { width, length }
    }
}

/// What a constraint system tells a proving engine about itself, besides
/// its constraints.
#[derive(Clone, Debug, PartialEq, Eq)]
pub struct AirContext {
    pub trace_info: TraceInfo,
    pub transition_constraint_degrees: Vec<TransitionConstraintDegree>,
    pub options: ProofOptions,
}

impl AirContext {
    /// The context of a constraint system with one constraint for each of
    /// the `transition_constraint_degrees`.
    pub fn new(
        trace_info: TraceInfo,
        transition_constraint_degrees: Vec<TransitionConstraintDegree>,
        options: ProofOptions,
    ) -> (r: AirContext)
        requires
            transition_constraint_degrees.len() > 0,
        ensures
            r.trace_info == trace_info,
            r.transition_constraint_degrees == transition_constraint_degrees,
            r.options == options,
    {
        AirContext { trace_info, transition_constraint_degrees, options }
    }

    /// Number of rows of the trace.
    pub fn trace_len(&self) -> (r: usize)
        ensures
            r == self.trace_info.length,
    {
        self.trace_info.length
    }
}

/// Twice a power of two is a power of two.
pub proof fn lemma_double_is_power_of_two(n: nat)
    requires
        spec_is_power_of_two(n),
    ensures
        spec_is_power_of_two(2 * n),
{
    reveal_with_fuel(spec_is_power_of_two, 2);
    assert(n > 0);
    assert((2 * n) / 2 == n);
}

/// 512 and 1024 are powers of two.
pub proof fn lemma_cycle_lengths_are_powers_of_two()
    ensures
        spec_is_power_of_two(8),
        spec_is_power_of_two(512),
        spec_is_power_of_two(1024),
{
    reveal_with_fuel(spec_is_power_of_two, 12);
}

/// Row `step` of cycle `i` is row `i * cycle + step` of the trace.
pub proof fn lemma_row_of_cycle(i: int, cycle: int, step: int)
    requires
        0 <= i,
        0 <= step < cycle,
    ensures
        (i * cycle + step) / cycle == i,
        (i * cycle + step) % cycle == step,
        i * cycle + step < (i + 1) * cycle,
        (i + 1) * cycle == i * cycle + cycle,
{
    vstd::arithmetic::div_mod::lemma_fundamental_div_mod_converse(i * cycle + step, cycle, i, step);
    assert((i + 1) * cycle == i * cycle + cycle) by (nonlinear_arith);
}

} // verus!
