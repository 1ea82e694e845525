use vstd::prelude::*;
use crate::errors::ModelError;

verus! {

/// Precomputed pairwise travel distances between the problem's nodes,
/// in thousandths of a nautical mile.
///
/// Great-circle arithmetic over coordinates is the caller's business;
/// the manager stores each unordered pair's distance once and serves
/// O(1) lookups, guaranteeing a square, symmetric, zero-diagonal matrix
/// in every reachable state.
#[derive(Debug, Clone)]
pub struct DistanceManager {
    distances: Vec<Vec<u64>>,
}

impl DistanceManager {
    /// The matrix as a sequence of rows.
    pub closed spec fn matrix(self) -> Seq<Seq<u64>> {
        self.distances@.map_values(|row: Vec<u64>| row@)
    }

    /// Number of nodes the matrix covers.
    pub open spec fn spec_num_nodes(self) -> nat {
        self.matrix().len()
    }

    /// Square, symmetric, zero-diagonal matrix.
    pub open spec fn wf(self) -> bool {
        &&& forall|i: int|
            0 <= i < self.matrix().len() ==> (#[trigger] self.matrix()[i]).len()
                == self.matrix().len()
        &&& forall|i: int, j: int|
            0 <= i < self.matrix().len() && 0 <= j < self.matrix().len()
                ==> #[trigger] self.matrix()[i][j] == self.matrix()[j][i]
        &&& forall|i: int|
            0 <= i < self.matrix().len() ==> #[trigger] self.matrix()[i][i] == 0
    }

    /// Allocates an all-zero matrix for `num_nodes` nodes.
    pub fn new(num_nodes: usize) -> (r: Self)
        ensures
            r.wf(),
            r.spec_num_nodes() == num_nodes,
            forall|i: int, j: int|
                0 <= i < num_nodes && 0 <= j < num_nodes ==> #[trigger] r.matrix()[i][j] == 0,
    {
        let mut distances: Vec<Vec<u64>> = Vec::new();
        let mut i: usize = 0;
        while i < num_nodes
            invariant
                i <= num_nodes,
                distances@.len() == i,
                forall|k: int|
                    0 <= k < i ==> (#[trigger] distances@[k])@.len() == num_nodes,
                forall|k: int, l: int|
                    0 <= k < i && 0 <= l < num_nodes ==> #[trigger] distances@[k]@[l] == 0,
            decreases num_nodes - i,
        {
            let mut row: Vec<u64> = Vec::new();
            let mut j: usize = 0;
            while j < num_nodes
                invariant
                    j <= num_nodes,
                    row@.len() == j,
                    forall|l: int| 0 <= l < j ==> row@[l] == 0,
                decreases num_nodes - j,
            {
                row.push(0);
                j = j + 1;
            }
            distances.push(row);
            i = i + 1;
        }
        let r = DistanceManager { distances };
        proof {
            assert(forall|k: int|
                0 <= k < num_nodes ==> #[trigger] r.matrix()[k] == distances@[k]@);
        }
        r
    }

    /// Returns the number of nodes the matrix covers.
    pub fn num_nodes(&self) -> (r: usize)
        ensures
            r == self.spec_num_nodes(),
    {
        self.distances.len()
    }

    /// Records the travel distance of the unordered pair `{from, to}`,
    /// writing both orientations so the matrix stays symmetric.
    ///
    /// An index outside the node range is rejected, as is a non-zero
    /// distance from a node to itself; a rejected call changes nothing.
    pub fn set_distance(&mut self, from: usize, to: usize, distance: u64) -> (r: Result<
        (),
        ModelError,
    >)
        requires
            old(self).wf(),
        ensures
            final(self).wf(),
            (r is Ok) <==> (from < old(self).spec_num_nodes() && to < old(self).spec_num_nodes()
                && (from == to ==> distance == 0)),
            (from >= old(self).spec_num_nodes() || to >= old(self).spec_num_nodes()) ==> r == Err::<
                (),
                ModelError,
            >(ModelError::IndexOutOfRange),
            (from < old(self).spec_num_nodes() && to < old(self).spec_num_nodes() && from == to
                && distance != 0) ==> r == Err::<(), ModelError>(ModelError::PreconditionViolation),
            r is Err ==> *final(self) == *old(self),
            final(self).spec_num_nodes() == old(self).spec_num_nodes(),
            r is Ok ==> forall|i: int, j: int|
                0 <= i < old(self).spec_num_nodes() && 0 <= j < old(self).spec_num_nodes()
                    ==> #[trigger] final(self).matrix()[i][j] == if (i == from && j == to) || (i
                    == to && j == from) {
                    distance
                } else {
                    old(self).matrix()[i][j]
                },
    {
        let n: usize = self.distances.len();
        if from >= n || to >= n {
            return Err(ModelError::IndexOutOfRange);
        }
        if from == to && distance != 0 {
            return Err(ModelError::PreconditionViolation);
        }
        let ghost before = *self;
        proof {
            assert(before.matrix()[from as int] == before.distances@[from as int]@);
            assert(before.matrix()[to as int] == before.distances@[to as int]@);
        }
        {
            let row = &mut self.distances[from];
            let cell = &mut row[to];
            *cell = distance;
        }
        proof {
            assert(self.matrix() =~= before.matrix().update(
                from as int,
                before.matrix()[from as int].update(to as int, distance),
            ));
        }
        let ghost mid = *self;
        proof {
            assert(mid.matrix()[to as int] == mid.distances@[to as int]@);
        }
        {
            let row = &mut self.distances[to];
            let cell = &mut row[from];
            *cell = distance;
        }
        proof {
            assert(self.matrix() =~= mid.matrix().update(
                to as int,
                mid.matrix()[to as int].update(from as int, distance),
            ));
        }
        Ok(())
    }

    /// Looks up the travel distance between two nodes; indices outside
    /// the node range are a checked, reported failure.
    pub fn distance(&self, from: usize, to: usize) -> (r: Result<u64, ModelError>)
        requires
            self.wf(),
        ensures
            (r is Ok) <==> (from < self.spec_num_nodes() && to < self.spec_num_nodes()),
            r is Err ==> r == Err::<u64, ModelError>(ModelError::IndexOutOfRange),
            r matches Ok(d) ==> d == self.matrix()[from as int][to as int],
    {
        if from >= self.distances.len() || to >= self.distances.len() {
            return Err(ModelError::IndexOutOfRange);
        }
        proof {
            assert(self.matrix()[from as int] == self.distances@[from as int]@);
        }
        Ok(self.distances[from][to])
    }

    /// Symmetry: in every well-formed matrix, the stored distance from
    /// `i` to `j` equals the stored distance from `j` to `i`.
    pub proof fn lemma_distance_symmetry(self, i: int, j: int)
        requires
            self.wf(),
            0 <= i < self.spec_num_nodes(),
            0 <= j < self.spec_num_nodes(),
        ensures
            self.matrix()[i][j] == self.matrix()[j][i],
    {
    }

    /// Identity: in every well-formed matrix, the stored distance from a
    /// node to itself is zero.
    pub proof fn lemma_distance_identity(self, i: int)
        requires
            self.wf(),
            0 <= i < self.spec_num_nodes(),
        ensures
            self.matrix()[i][i] == 0,
    {
    }
}

} // verus!
