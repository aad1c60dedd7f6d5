//! Count-and-sum queries: what they return and what they have to return.

use vstd::prelude::*;

verus! {

/// What a query came back with, as far as an aggregate reads it: the integer
/// in each cell, or nothing where the cell holds something else.
#[derive(Debug, PartialEq, Eq)]
pub enum QueryRows {
    /// The command was no query.
    NotAQuery,
    /// The rows.
    Rows(Vec<Vec<Option<i64>>>),
}

/// Why a result is no aggregate.
#[derive(Clone, Copy, Debug, PartialEq, Eq, Structural)]
pub enum AggregateError {
    /// The command was no query.
    NotAQuery,
    /// There is no row.
    NoRow,
    /// The row has no count.
    CountMissing,
    /// The row has no sum.
    ChecksumMissing,
    /// The row is not made of exactly two integers.
    UnexpectedValues,
    /// The count is negative.
    CountNegative,
}

/// The programs that run aggregates, each with its own wording.
#[derive(Clone, Copy, Debug, PartialEq, Eq, Structural)]
pub enum AggregateProgram {
    /// Memory retention, projection feasibility, leaf reads.
    Retention,
    /// Checkpoint construction.
    Checkpoint,
    /// Pending isolation.
    Isolation,
    /// Storage layout.
    Layout,
    /// Projection routing.
    Routing,
}

impl AggregateError {
    /// The text that a program reports for this error.
    pub open spec fn text(self, program: AggregateProgram) -> Seq<char> {
        match self {
            AggregateError::NotAQuery => match program {
                AggregateProgram::Retention | AggregateProgram::Isolation =>
                    "aggregate returned a non-query result"@,
                AggregateProgram::Checkpoint | AggregateProgram::Layout =>
                    "aggregate returned non-query result"@,
                AggregateProgram::Routing => "expected aggregate query result"@,
            },
            AggregateError::NoRow => match program {
                AggregateProgram::Routing => "aggregate result is empty"@,
                _ => "aggregate returned no row"@,
            },
            AggregateError::CountMissing => match program {
                AggregateProgram::Checkpoint => "count missing"@,
                AggregateProgram::Layout => "missing count"@,
                _ => "aggregate count missing"@,
            },
            AggregateError::ChecksumMissing => match program {
                AggregateProgram::Checkpoint => "sum missing"@,
                AggregateProgram::Layout => "missing sum"@,
                AggregateProgram::Isolation => "aggregate sum missing"@,
                _ => "aggregate checksum missing"@,
            },
            AggregateError::UnexpectedValues => "aggregate result has unexpected values"@,
            AggregateError::CountNegative => "out of range integral type conversion attempted"@,
        }
    }

    /// Render this error for a caller.
    pub fn message(&self, program: AggregateProgram) -> (text: &'static str)
        ensures
            text@ == self.text(program),
    {
        match self {
            AggregateError::NotAQuery => match program {
                AggregateProgram::Retention | AggregateProgram::Isolation =>
                    "aggregate returned a non-query result",
                AggregateProgram::Checkpoint | AggregateProgram::Layout =>
                    "aggregate returned non-query result",
                AggregateProgram::Routing => "expected aggregate query result",
            },
            AggregateError::NoRow => match program {
                AggregateProgram::Routing => "aggregate result is empty",
                _ => "aggregate returned no row",
            },
            AggregateError::CountMissing => match program {
                AggregateProgram::Checkpoint => "count missing",
                AggregateProgram::Layout => "missing count",
                _ => "aggregate count missing",
            },
            AggregateError::ChecksumMissing => match program {
                AggregateProgram::Checkpoint => "sum missing",
                AggregateProgram::Layout => "missing sum",
                AggregateProgram::Isolation => "aggregate sum missing",
                _ => "aggregate checksum missing",
            },
            AggregateError::UnexpectedValues => "aggregate result has unexpected values",
            AggregateError::CountNegative => "out of range integral type conversion attempted",
        }
    }
}

/// The integer in a cell of a row.
pub open spec fn cell(row: Seq<Option<i64>>, i: int) -> Option<i64> {
    if i < row.len() {
        row[i]
    } else {
        None
    }
}

/// The aggregate in a row. Missing values are reported before a bad count,
/// except by the programs that convert the count first.
pub open spec fn row_pair(program: AggregateProgram, row: Seq<Option<i64>>) -> Result<
    (u64, i128),
    AggregateError,
> {
    if program == AggregateProgram::Routing && !(row.len() == 2 && row[0] is Some && row[1] is Some) {
        Err(AggregateError::UnexpectedValues)
    } else {
        match (cell(row, 0), cell(row, 1)) {
            (None, _) => Err(AggregateError::CountMissing),
            (Some(count), None) => if count < 0 && (program == AggregateProgram::Checkpoint
                || program == AggregateProgram::Layout) {
                Err(AggregateError::CountNegative)
            } else {
                Err(AggregateError::ChecksumMissing)
            },
            (Some(count), Some(checksum)) => if count < 0 {
                Err(AggregateError::CountNegative)
            } else {
                Ok((count as u64, checksum as i128))
            },
        }
    }
}

/// The aggregate in a result: in its first row.
pub open spec fn result_pair(program: AggregateProgram, result: QueryRows) -> Result<
    (u64, i128),
    AggregateError,
> {
    match result {
        QueryRows::NotAQuery => Err(AggregateError::NotAQuery),
        QueryRows::Rows(rows) => if rows@.len() == 0 {
            Err(AggregateError::NoRow)
        } else {
            row_pair(program, rows@[0]@)
        },
    }
}

/// Take the aggregate off a result.
pub fn aggregate_pair(program: AggregateProgram, result: &QueryRows) -> (pair: Result<
    (u64, i128),
    AggregateError,
>)
    ensures
        pair == result_pair(program, *result),
{
    let rows = match result {
        QueryRows::NotAQuery => return Err(AggregateError::NotAQuery),
        QueryRows::Rows(rows) => rows,
    };
    if rows.len() == 0 {
        return Err(AggregateError::NoRow);
    }
    let row = &rows[0];
    let exact = match program {
        AggregateProgram::Routing => true,
        _ => false,
    };
    if exact && row.len() != 2 {
        return Err(AggregateError::UnexpectedValues);
    }
    let first: Option<i64> = if row.len() > 0 {
        row[0]
    } else {
        None
    };
    let second: Option<i64> = if row.len() > 1 {
        row[1]
    } else {
        None
    };
    let converts_first = match program {
        AggregateProgram::Checkpoint | AggregateProgram::Layout => true,
        _ => false,
    };
    match (first, second) {
        (Some(count), Some(checksum)) => {
            if count < 0 {
                Err(AggregateError::CountNegative)
            } else {
                Ok((count as u64, checksum as i128))
            }
        },
        _ => {
            if exact {
                return Err(AggregateError::UnexpectedValues);
            }
            match first {
                None => Err(AggregateError::CountMissing),
                Some(count) => {
                    if count < 0 && converts_first {
                        Err(AggregateError::CountNegative)
                    } else {
                        Err(AggregateError::ChecksumMissing)
                    }
                },
            }
        },
    }
}

/// The sum of the numbers below `n`.
pub open spec fn sum_below(n: nat) -> nat
    decreases n,
{
    if n == 0 {
        0
    } else {
        sum_below((n - 1) as nat) + (n - 1) as nat
    }
}

/// Twice the sum of the numbers below `n` is `n` times its predecessor.
pub proof fn law_sum_closed_form(n: nat)
    ensures
        2 * sum_below(n) == n * (n - 1),
    decreases n,
{
    if n > 0 {
        let m = (n - 1) as nat;
        law_sum_closed_form(m);
        assert(m * (m - 1) + 2 * m == n * (n - 1)) by (nonlinear_arith)
            requires
                m == n - 1,
        ;
    } else {
        assert(n * (n - 1) == 0) by (nonlinear_arith)
            requires
                n == 0,
        ;
    }
}

/// The sum of the values of a graph whose facts are numbered from zero.
pub fn expected_checksum(facts: u64) -> (checksum: i128)
    requires
        facts * (facts - 1) <= i128::MAX,
    ensures
        checksum == sum_below(facts as nat),
{
    let below: u64 = facts.saturating_sub(1);
    proof {
        law_sum_closed_form(facts as nat);
        assert(0 <= facts * below) by (nonlinear_arith);
        assert(facts == 0 ==> facts * below == 0) by (nonlinear_arith);
        assert(facts > 0 ==> below == facts - 1);
    }
    (facts as i128) * (below as i128) / 2
}

/// The sum of a graph, or nothing where it cannot be computed in range.
pub fn checked_checksum(facts: u64) -> (checksum: Option<i128>)
    ensures
        match checksum {
            Some(checksum) => facts * (facts - 1) <= i128::MAX && checksum == sum_below(
                facts as nat,
            ),
            None => facts * (facts - 1) > i128::MAX,
        },
{
    let below: u64 = facts.saturating_sub(1);
    proof {
        law_sum_closed_form(facts as nat);
        assert(facts == 0 ==> facts * below == 0) by (nonlinear_arith);
        assert(facts > 0 ==> below == facts - 1);
        assert(facts == 0 ==> facts * (facts - 1) == 0) by (nonlinear_arith);
    }
    match (facts as i128).checked_mul(below as i128) {
        Some(product) => Some(product / 2),
        None => None,
    }
}

} // verus!
