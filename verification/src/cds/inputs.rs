//! The wire layout of the public inputs of the proof of well-formed votes:
//! the number of votes, then the voting keys, the encrypted votes, the proof
//! points and the outputs, each as one table.

use crate::air::lemma_row_of_cycle;
use crate::cds::air::PublicInputs;
use crate::cds::constants::{OUTPUT_WIDTH, PROOF_POINTS_WIDTH, PROOF_WIDTH};
use crate::ecc::AFFINE_POINT_WIDTH;
use crate::field::{Felt, ELEMENT_BYTES};
use crate::wire::{
    lemma_count_round_trip, lemma_elements_round_trip, lemma_flatten_injective, read_count,
    read_rows, spec_all_canonical, spec_count_bytes, spec_elements_bytes, spec_flatten,
    spec_read_count, spec_read_elements, write_count, write_elements, write_rows,
    DeserializationError, BYTES_PER_AFFINE, BYTES_PER_PROOF_POINTS, COUNT_BYTES,
};
use vstd::prelude::*;

verus! {

/// The `width` columns from `from` on of a table, row after row.
pub open spec fn spec_columns<const W: usize>(rows: Seq<[Felt; W]>, from: int, width: int) -> Seq<
    Felt,
> {
    Seq::new((rows.len() * width) as nat, |i: int| rows[i / width][from + i % width])
}

/// The `width` columns from `from` on of a table, row after row.
pub fn columns<const W: usize>(rows: &Vec<[Felt; W]>, from: usize, width: usize) -> (r: Vec<Felt>)
    requires
        width > 0,
        from + width <= W,
        rows.len() * width <= usize::MAX,
    ensures
        r@ == spec_columns(rows@, from as int, width as int),
{
    let n = rows.len();
    let mut flat: Vec<Felt> = Vec::new();
    let mut k: usize = 0;
    while k < n
        invariant
            width > 0,
            from + width <= W,
            n == rows.len(),
            n * width <= usize::MAX,
            k <= n,
            flat.len() == k * width,
            forall|i: int|
                0 <= i < flat.len() ==> flat@[i] == rows@[i / (width as int)][from + i % (
                width as int)],
        decreases n - k,
    {
        let row = &rows[k];
        let mut j: usize = 0;
        while j < width
            invariant
                width > 0,
                from + width <= W,
                n == rows.len(),
                n * width <= usize::MAX,
                k < n,
                *row == rows@[k as int],
                j <= width,
                flat.len() == k * width + j,
                forall|i: int|
                    0 <= i < flat.len() ==> flat@[i] == rows@[i / (width as int)][from + i % (
                    width as int)],
            decreases width - j,
        {
            proof {
                lemma_row_of_cycle(k as int, width as int, j as int);
                assert((k + 1) * width <= n * width) by (nonlinear_arith)
                    requires
                        k < n,
                        width > 0,
                ;
            }
            flat.push(row[from + j]);
            j += 1;
        }
        proof {
            assert((k + 1) * width == k * width + width) by (nonlinear_arith);
        }
        k += 1;
    }
    assert(flat@ =~= spec_columns(rows@, from as int, width as int));
    flat
}

/// What bytes hold of public inputs: the number of votes, and the elements
/// of each of the four tables.
pub struct Parsed {
    pub num_votes: u32,
    pub voting_keys: Seq<Felt>,
    pub encrypted_votes: Seq<Felt>,
    pub proof_points: Seq<Felt>,
    pub outputs: Seq<Felt>,
}

/// The public inputs that bytes stand for.
pub open spec fn spec_parse(bytes: Seq<u8>) -> Result<Parsed, DeserializationError> {
    match spec_read_count(bytes, 0) {
        Err(e) => Err(e),
        Ok(num_votes) => {
            let votes_at = COUNT_BYTES + BYTES_PER_AFFINE * num_votes;
            let points_at = votes_at + BYTES_PER_AFFINE * num_votes;
            let outputs_at = points_at + BYTES_PER_PROOF_POINTS * num_votes;
            match spec_read_elements(
                bytes,
                COUNT_BYTES as int,
                (num_votes * AFFINE_POINT_WIDTH) as nat,
            ) {
                Err(e) => Err(e),
                Ok(voting_keys) => match spec_read_elements(
                    bytes,
                    votes_at,
                    (num_votes * AFFINE_POINT_WIDTH) as nat,
                ) {
                    Err(e) => Err(e),
                    Ok(encrypted_votes) => match spec_read_elements(
                        bytes,
                        points_at,
                        (num_votes * PROOF_POINTS_WIDTH) as nat,
                    ) {
                        Err(e) => Err(e),
                        Ok(proof_points) => match spec_read_elements(
                            bytes,
                            outputs_at,
                            (num_votes * OUTPUT_WIDTH) as nat,
                        ) {
                            Err(e) => Err(e),
                            Ok(outputs) => Ok(
                                Parsed {
                                    num_votes,
                                    voting_keys,
                                    encrypted_votes,
                                    proof_points,
                                    outputs,
                                },
                            ),
                        },
                    },
                },
            }
        },
    }
}

impl PublicInputs {
    /// There is one list of outputs for each vote, every element is
    /// canonical, and the number of votes fits its four bytes and the
    /// machine.
    pub open spec fn wf(&self) -> bool {
        &&& self.outputs@.len() == self.proofs@.len()
        &&& spec_all_canonical(spec_flatten(self.proofs@))
        &&& spec_all_canonical(spec_flatten(self.outputs@))
        &&& self.proofs@.len() <= u32::MAX
    }

    /// The bytes of the public inputs.
    pub open spec fn spec_to_bytes(&self) -> Seq<u8> {
        spec_count_bytes(self.proofs@.len() as u32) + spec_elements_bytes(
            spec_columns(self.proofs@, 0, AFFINE_POINT_WIDTH as int),
        ) + spec_elements_bytes(
            spec_columns(self.proofs@, AFFINE_POINT_WIDTH as int, AFFINE_POINT_WIDTH as int),
        ) + spec_elements_bytes(
            spec_columns(self.proofs@, 2 * AFFINE_POINT_WIDTH, PROOF_POINTS_WIDTH as int),
        ) + spec_elements_bytes(spec_flatten(self.outputs@))
    }

    /// The public inputs hold what was parsed.
    pub open spec fn spec_holds(&self, parsed: Parsed) -> bool {
        &&& self.proofs@.len() == parsed.num_votes
        &&& self.outputs@.len() == parsed.num_votes
        &&& spec_columns(self.proofs@, 0, AFFINE_POINT_WIDTH as int) == parsed.voting_keys
        &&& spec_columns(self.proofs@, AFFINE_POINT_WIDTH as int, AFFINE_POINT_WIDTH as int)
            == parsed.encrypted_votes
        &&& spec_columns(self.proofs@, 2 * AFFINE_POINT_WIDTH, PROOF_POINTS_WIDTH as int)
            == parsed.proof_points
        &&& spec_flatten(self.outputs@) == parsed.outputs
    }

    /// What reading `bytes` gives: the public inputs that they stand for,
    /// or the error of the first value that cannot be read.
    pub open spec fn spec_read(bytes: Seq<u8>, r: Result<PublicInputs, DeserializationError>) -> bool {
        match spec_parse(bytes) {
            Ok(parsed) => r is Ok && r->Ok_0.spec_holds(parsed),
            Err(e) => r is Err && r->Err_0 == e,
        }
    }

    /// Appends the bytes of the public inputs to `target`.
    pub fn write_into(&self, target: &mut Vec<u8>)
        requires
            self.proofs@.len() <= u32::MAX,
            self.proofs@.len() * PROOF_WIDTH <= usize::MAX,
            self.outputs@.len() * OUTPUT_WIDTH <= usize::MAX,
        ensures
            final(target)@ == old(target)@ + self.spec_to_bytes(),
    {
        write_count(target, self.proofs.len() as u32);
        let keys = columns(&self.proofs, 0, AFFINE_POINT_WIDTH);
        write_elements(target, keys.as_slice());
        let votes = columns(&self.proofs, AFFINE_POINT_WIDTH, AFFINE_POINT_WIDTH);
        write_elements(target, votes.as_slice());
        let points = columns(&self.proofs, 2 * AFFINE_POINT_WIDTH, PROOF_POINTS_WIDTH);
        write_elements(target, points.as_slice());
        write_rows(target, &self.outputs);
        assert(target@ =~= old(target)@ + self.spec_to_bytes());
    }

    /// The bytes of the public inputs.
    pub fn to_bytes(&self) -> (r: Vec<u8>)
        requires
            self.proofs@.len() <= u32::MAX,
            self.proofs@.len() * PROOF_WIDTH <= usize::MAX,
            self.outputs@.len() * OUTPUT_WIDTH <= usize::MAX,
        ensures
            r@ == self.spec_to_bytes(),
    {
        let mut target: Vec<u8> = Vec::new();
        self.write_into(&mut target);
        assert(target@ =~= self.spec_to_bytes());
        target
    }

    /// Reads public inputs from the start of `source`. What follows them is
    /// not looked at.
    pub fn from_bytes(source: &[u8]) -> (r: Result<PublicInputs, DeserializationError>)
        ensures
            PublicInputs::spec_read(source@, r),
    {
        let n = match read_count(source, 0) {
            Ok(count) => count as usize,
            Err(e) => { return Err(e); },
        };
        let keys = match read_rows::<AFFINE_POINT_WIDTH>(source, COUNT_BYTES, n) {
            Ok(rows) => rows,
            Err(e) => { return Err(e); },
        };
        let at = COUNT_BYTES + BYTES_PER_AFFINE * n;
        let votes = match read_rows::<AFFINE_POINT_WIDTH>(source, at, n) {
            Ok(rows) => rows,
            Err(e) => { return Err(e); },
        };
        let at = at + BYTES_PER_AFFINE * n;
        let points = match read_rows::<PROOF_POINTS_WIDTH>(source, at, n) {
            Ok(rows) => rows,
            Err(e) => { return Err(e); },
        };
        let at = at + BYTES_PER_PROOF_POINTS * n;
        let outputs = match read_rows::<OUTPUT_WIDTH>(source, at, n) {
            Ok(rows) => rows,
            Err(e) => { return Err(e); },
        };
        let mut proofs: Vec<[Felt; PROOF_WIDTH]> = Vec::new();
        let mut k: usize = 0;
        while k < n
            invariant
                keys.len() == n,
                votes.len() == n,
                points.len() == n,
                k <= n,
                proofs.len() == k,
                forall|i: int, j: int|
                    0 <= i < k && 0 <= j < PROOF_WIDTH ==> #[trigger] proofs@[i][j] == if j
                        < AFFINE_POINT_WIDTH {
                        keys@[i][j]
                    } else if j < 2 * AFFINE_POINT_WIDTH {
                        votes@[i][j - AFFINE_POINT_WIDTH]
                    } else {
                        points@[i][j - 2 * AFFINE_POINT_WIDTH]
                    },
            decreases n - k,
        {
            let key = &keys[k];
            let vote = &votes[k];
            let point = &points[k];
            let mut proof = [Felt::zero();PROOF_WIDTH];
            let mut j: usize = 0;
            while j < PROOF_WIDTH
                invariant
                    j <= PROOF_WIDTH,
                    forall|m: int|
                        0 <= m < j ==> proof[m] == if m < AFFINE_POINT_WIDTH {
                            key[m]
                        } else if m < 2 * AFFINE_POINT_WIDTH {
                            vote[m - AFFINE_POINT_WIDTH]
                        } else {
                            point[m - 2 * AFFINE_POINT_WIDTH]
                        },
                decreases PROOF_WIDTH - j,
            {
                if j < AFFINE_POINT_WIDTH {
                    proof[j] = key[j];
                } else if j < 2 * AFFINE_POINT_WIDTH {
                    proof[j] = vote[j - AFFINE_POINT_WIDTH];
                } else {
                    proof[j] = point[j - 2 * AFFINE_POINT_WIDTH];
                }
                j += 1;
            }
            proofs.push(proof);
            k += 1;
        }
        proof {
            lemma_columns_of_parts(proofs@, keys@, 0);
            lemma_columns_of_parts(proofs@, votes@, AFFINE_POINT_WIDTH as int);
            lemma_columns_of_parts(proofs@, points@, 2 * AFFINE_POINT_WIDTH);
        }
        Ok(PublicInputs { proofs, outputs })
    }
}

/// The columns of a table that were copied from another table are that
/// table.
proof fn lemma_columns_of_parts<const W: usize, const P: usize>(
    rows: Seq<[Felt; W]>,
    part: Seq<[Felt; P]>,
    from: int,
)
    requires
        P > 0,
        0 <= from,
        from + P <= W,
        rows.len() == part.len(),
        forall|i: int, j: int|
            0 <= i < rows.len() && 0 <= j < P ==> #[trigger] rows[i][from + j] == part[i][j],
    ensures
        spec_columns(rows, from, P as int) == spec_flatten(part),
{
    let a = spec_columns(rows, from, P as int);
    let b = spec_flatten(part);
    assert forall|i: int| 0 <= i < a.len() implies a[i] == b[i] by {
        assert(P * rows.len() == rows.len() * P) by (nonlinear_arith);
        vstd::arithmetic::div_mod::lemma_multiply_divide_lt(i, P as int, rows.len() as int);
        vstd::arithmetic::div_mod::lemma_fundamental_div_mod(i, P as int);
        let k = i / (P as int);
        let j = i % (P as int);
        assert(rows[k][from + j] == part[k][j]);
    }
    assert(a =~= b);
}

/// The elements of the columns of a table are elements of the table.
proof fn lemma_columns_canonical<const W: usize>(rows: Seq<[Felt; W]>, from: int, width: int)
    requires
        0 <= from,
        width > 0,
        from + width <= W,
        spec_all_canonical(spec_flatten(rows)),
    ensures
        spec_all_canonical(spec_columns(rows, from, width)),
{
    let part = spec_columns(rows, from, width);
    assert forall|i: int| 0 <= i < part.len() implies (#[trigger] part[i]).is_canonical() by {
        assert(width * rows.len() == rows.len() * width) by (nonlinear_arith);
        vstd::arithmetic::div_mod::lemma_multiply_divide_lt(i, width, rows.len() as int);
        vstd::arithmetic::div_mod::lemma_fundamental_div_mod(i, width);
        let k = i / width;
        let j = from + i % width;
        lemma_row_of_cycle(k, W as int, j);
        assert((k + 1) * W <= rows.len() * W) by (nonlinear_arith)
            requires
                k < rows.len(),
        ;
        assert(spec_flatten(rows)[k * W + j] == rows[k][j]);
    }
}

/// A table is given by its columns.
proof fn lemma_columns_injective(a: Seq<[Felt; PROOF_WIDTH]>, b: Seq<[Felt; PROOF_WIDTH]>)
    requires
        a.len() == b.len(),
        spec_columns(a, 0, AFFINE_POINT_WIDTH as int) == spec_columns(
            b,
            0,
            AFFINE_POINT_WIDTH as int,
        ),
        spec_columns(a, AFFINE_POINT_WIDTH as int, AFFINE_POINT_WIDTH as int) == spec_columns(
            b,
            AFFINE_POINT_WIDTH as int,
            AFFINE_POINT_WIDTH as int,
        ),
        spec_columns(a, 2 * AFFINE_POINT_WIDTH, PROOF_POINTS_WIDTH as int) == spec_columns(
            b,
            2 * AFFINE_POINT_WIDTH,
            PROOF_POINTS_WIDTH as int,
        ),
    ensures
        a == b,
{
    assert forall|k: int| 0 <= k < a.len() implies a[k] == b[k] by {
        assert forall|j: int| 0 <= j < PROOF_WIDTH implies a[k][j] == b[k][j] by {
            if j < AFFINE_POINT_WIDTH {
                lemma_column_element(a, b, 0, AFFINE_POINT_WIDTH as int, k, j);
            } else if j < 2 * AFFINE_POINT_WIDTH {
                lemma_column_element(
                    a,
                    b,
                    AFFINE_POINT_WIDTH as int,
                    AFFINE_POINT_WIDTH as int,
                    k,
                    j - AFFINE_POINT_WIDTH,
                );
            } else {
                lemma_column_element(
                    a,
                    b,
                    2 * AFFINE_POINT_WIDTH,
                    PROOF_POINTS_WIDTH as int,
                    k,
                    j - 2 * AFFINE_POINT_WIDTH,
                );
            }
        }
        assert(a[k] =~= b[k]);
    }
    assert(a =~= b);
}

proof fn lemma_column_element(
    a: Seq<[Felt; PROOF_WIDTH]>,
    b: Seq<[Felt; PROOF_WIDTH]>,
    from: int,
    width: int,
    k: int,
    j: int,
)
    requires
        a.len() == b.len(),
        width > 0,
        0 <= k < a.len(),
        0 <= j < width,
        spec_columns(a, from, width) == spec_columns(b, from, width),
    ensures
        a[k][from + j] == b[k][from + j],
{
    lemma_row_of_cycle(k, width, j);
    assert((k + 1) * width <= a.len() * width) by (nonlinear_arith)
        requires
            k < a.len(),
            width > 0,
    ;
    assert(spec_columns(a, from, width)[k * width + j] == a[k][from + j]);
    assert(spec_columns(b, from, width)[k * width + j] == b[k][from + j]);
}

/// The bytes of well-formed public inputs parse as what they hold.
pub proof fn lemma_bytes_parse(inputs: PublicInputs)
    requires
        inputs.wf(),
    ensures
        spec_parse(inputs.spec_to_bytes()) is Ok,
        inputs.spec_holds(spec_parse(inputs.spec_to_bytes())->Ok_0),
{
    let n = inputs.proofs@.len();
    let key_elements = spec_columns(inputs.proofs@, 0, AFFINE_POINT_WIDTH as int);
    let vote_elements = spec_columns(
        inputs.proofs@,
        AFFINE_POINT_WIDTH as int,
        AFFINE_POINT_WIDTH as int,
    );
    let point_elements = spec_columns(
        inputs.proofs@,
        2 * AFFINE_POINT_WIDTH,
        PROOF_POINTS_WIDTH as int,
    );
    let count = spec_count_bytes(n as u32);
    let keys = spec_elements_bytes(key_elements);
    let votes = spec_elements_bytes(vote_elements);
    let points = spec_elements_bytes(point_elements);
    let outputs = spec_elements_bytes(spec_flatten(inputs.outputs@));
    let bytes = inputs.spec_to_bytes();
    assert(ELEMENT_BYTES * (n * AFFINE_POINT_WIDTH) == BYTES_PER_AFFINE * n);
    assert(ELEMENT_BYTES * (n * PROOF_POINTS_WIDTH) == BYTES_PER_PROOF_POINTS * n);
    lemma_columns_canonical(inputs.proofs@, 0, AFFINE_POINT_WIDTH as int);
    lemma_columns_canonical(inputs.proofs@, AFFINE_POINT_WIDTH as int, AFFINE_POINT_WIDTH as int);
    lemma_columns_canonical(inputs.proofs@, 2 * AFFINE_POINT_WIDTH, PROOF_POINTS_WIDTH as int);
    lemma_count_round_trip(Seq::empty(), n as u32, keys + votes + points + outputs);
    assert(Seq::<u8>::empty() + count + (keys + votes + points + outputs) =~= bytes);
    lemma_elements_round_trip(count, key_elements, votes + points + outputs);
    assert(count + keys + (votes + points + outputs) =~= bytes);
    lemma_elements_round_trip(count + keys, vote_elements, points + outputs);
    assert(count + keys + votes + (points + outputs) =~= bytes);
    lemma_elements_round_trip(count + keys + votes, point_elements, outputs);
    lemma_elements_round_trip(
        count + keys + votes + points,
        spec_flatten(inputs.outputs@),
        Seq::empty(),
    );
    assert(count + keys + votes + points + outputs + Seq::<u8>::empty() =~= bytes);
}

/// Public inputs that are written and read again are the same: whatever
/// [`PublicInputs::from_bytes`] gives for the bytes of well-formed public
/// inputs holds the statements and the outputs that were written.
pub proof fn lemma_round_trip(inputs: PublicInputs, read: Result<PublicInputs, DeserializationError>)
    requires
        inputs.wf(),
        PublicInputs::spec_read(inputs.spec_to_bytes(), read),
    ensures
        read is Ok,
        read->Ok_0.proofs@ == inputs.proofs@,
        read->Ok_0.outputs@ == inputs.outputs@,
{
    lemma_bytes_parse(inputs);
    lemma_columns_injective(read->Ok_0.proofs@, inputs.proofs@);
    lemma_flatten_injective(read->Ok_0.outputs@, inputs.outputs@);
}

} // verus!
