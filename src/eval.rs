//! Evaluation of filter expressions against a table, into a row mask, and the
//! selection of the rows that a filter text keeps.
use crate::double::{double_eq, double_le, double_lt, eq, le, lt, widen, widen_bits, Double};
use crate::expr::{any_column, ComparisonOp, ExprModel, FilterExpr, ParseError};
use crate::table::{Cell, Column, ColumnModel, Table, TableModel};
use crate::text::{chars_of, contains, has_substring, lex_less, lex_lt};
use vstd::prelude::*;

verus! {

/// Why an expression could not be evaluated against a table.
#[derive(Clone, Copy, Debug, PartialEq, Eq, Structural)]
pub enum EvalError {
    /// A comparison names a column that the table lacks.
    ColumnNotFound,
    /// A search of every column met a table without textual columns.
    NoSearchableColumns,
    /// The column's type does not suit the comparison.
    TypeMismatch,
    /// An equality on a non-textual column has a literal that is no number.
    CannotParseValue,
}

/// Why a filter text could not be applied.
#[derive(Clone, Copy, Debug, PartialEq, Eq, Structural)]
pub enum FilterError {
    Parse(ParseError),
    Eval(EvalError),
}

pub open spec fn is_text(c: ColumnModel) -> bool {
    c is Str
}

pub open spec fn is_numeric(c: ColumnModel) -> bool {
    c is Int64 || c is Float64
}

/// A numeric cell widened to a 64-bit float, as bits.
pub open spec fn number_of(c: Cell) -> Option<u64> {
    match c {
        Cell::Int(v) => Some(widen_bits(v as int) as u64),
        Cell::Float(b) => Some(b),
        _ => None,
    }
}

/// Whether `a op b` holds of two 64-bit floats.
pub open spec fn num_holds(op: ComparisonOp, a: u64, b: u64) -> bool {
    match op {
        ComparisonOp::Equal => double_eq(a, b),
        ComparisonOp::NotEqual => !double_eq(a, b),
        ComparisonOp::GreaterThan => double_lt(b, a),
        ComparisonOp::LessThan => double_lt(a, b),
        ComparisonOp::GreaterOrEqual => double_le(b, a),
        ComparisonOp::LessOrEqual => double_le(a, b),
        ComparisonOp::Contains => false,
    }
}

/// Whether `a op b` holds of two texts; `Contains` is substring presence.
pub open spec fn text_holds(op: ComparisonOp, a: Seq<char>, b: Seq<char>) -> bool {
    match op {
        ComparisonOp::Equal => a == b,
        ComparisonOp::NotEqual => a != b,
        ComparisonOp::GreaterThan => lex_lt(b, a),
        ComparisonOp::LessThan => lex_lt(a, b),
        ComparisonOp::GreaterOrEqual => !lex_lt(a, b),
        ComparisonOp::LessOrEqual => !lex_lt(b, a),
        ComparisonOp::Contains => has_substring(a, b),
    }
}

/// Each row of a numeric column against `x`; a null row is false.
pub open spec fn numeric_mask(c: ColumnModel, op: ComparisonOp, x: u64) -> Seq<bool> {
    Seq::new(
        c.len(),
        |i: int|
            match number_of(c.cell(i)) {
                Some(a) => num_holds(op, a, x),
                None => false,
            },
    )
}

/// Each row of a textual column against `value`; a null row is false.
pub open spec fn text_mask(c: ColumnModel, op: ComparisonOp, value: Seq<char>) -> Seq<bool> {
    Seq::new(
        c.len(),
        |i: int|
            match c.cell(i) {
                Cell::Text(s) => text_holds(op, s, value),
                _ => false,
            },
    )
}

/// Whether the cell in row `r` of column `i` is text that contains `value`.
pub open spec fn found_in(t: TableModel, i: int, r: int, value: Seq<char>) -> bool {
    match t.columns[i].cell(r) {
        Cell::Text(s) => has_substring(s, value),
        _ => false,
    }
}

/// Substring search in every textual column, the rows' results or-ed.
pub open spec fn search_spec(t: TableModel, value: Seq<char>) -> Result<Seq<bool>, EvalError> {
    if exists|i: int| 0 <= i < t.columns.len() && is_text(#[trigger] t.columns[i]) {
        Ok(
            Seq::new(
                t.rows,
                |r: int|
                    exists|i: int|
                        0 <= i < t.columns.len() && is_text(t.columns[i]) && #[trigger] found_in(
                            t,
                            i,
                            r,
                            value,
                        ),
            ),
        )
    } else {
        Err(EvalError::NoSearchableColumns)
    }
}

/// One comparison against one column.
pub open spec fn column_spec(c: ColumnModel, op: ComparisonOp, value: Seq<char>, number: Option<
    Double,
>) -> Result<Seq<bool>, EvalError> {
    match op {
        ComparisonOp::Contains => if is_text(c) {
            Ok(text_mask(c, op, value))
        } else {
            Err(EvalError::TypeMismatch)
        },
        ComparisonOp::Equal | ComparisonOp::NotEqual => if is_text(c) {
            Ok(text_mask(c, op, value))
        } else {
            match number {
                Some(x) => if is_numeric(c) {
                    Ok(numeric_mask(c, op, x.bits))
                } else {
                    Err(EvalError::TypeMismatch)
                },
                None => Err(EvalError::CannotParseValue),
            }
        },
        _ => match number {
            Some(x) => if is_numeric(c) {
                Ok(numeric_mask(c, op, x.bits))
            } else {
                Err(EvalError::TypeMismatch)
            },
            None => if is_text(c) {
                Ok(text_mask(c, op, value))
            } else {
                Err(EvalError::TypeMismatch)
            },
        },
    }
}

/// One comparison against a table.
pub open spec fn compare_spec(
    t: TableModel,
    column: Seq<char>,
    op: ComparisonOp,
    value: Seq<char>,
    number: Option<Double>,
) -> Result<Seq<bool>, EvalError> {
    if column == any_column() {
        search_spec(t, value)
    } else {
        match t.index_of(column) {
            None => Err(EvalError::ColumnNotFound),
            Some(i) => column_spec(t.columns[i], op, value, number),
        }
    }
}

pub open spec fn and_mask(a: Seq<bool>, b: Seq<bool>) -> Seq<bool> {
    Seq::new(a.len(), |i: int| a[i] && b[i])
}

pub open spec fn or_mask(a: Seq<bool>, b: Seq<bool>) -> Seq<bool> {
    Seq::new(a.len(), |i: int| a[i] || b[i])
}

pub open spec fn not_mask(a: Seq<bool>) -> Seq<bool> {
    Seq::new(a.len(), |i: int| !a[i])
}

/// The row mask of an expression: comparisons at the leaves, elementwise
/// `&&`, `||` and `!` above them; the first error met, left before right.
pub open spec fn eval_spec(e: ExprModel, t: TableModel) -> Result<Seq<bool>, EvalError>
    decreases e,
{
    match e {
        ExprModel::Comparison { column, op, value, number } => compare_spec(
            t,
            column,
            op,
            value,
            number,
        ),
        ExprModel::And(l, r) => match eval_spec(*l, t) {
            Err(x) => Err(x),
            Ok(a) => match eval_spec(*r, t) {
                Err(x) => Err(x),
                Ok(b) => Ok(and_mask(a, b)),
            },
        },
        ExprModel::Or(l, r) => match eval_spec(*l, t) {
            Err(x) => Err(x),
            Ok(a) => match eval_spec(*r, t) {
                Err(x) => Err(x),
                Ok(b) => Ok(or_mask(a, b)),
            },
        },
        ExprModel::Not(x) => match eval_spec(*x, t) {
            Err(y) => Err(y),
            Ok(a) => Ok(not_mask(a)),
        },
    }
}

pub proof fn lemma_eval_len(e: ExprModel, t: TableModel)
    requires
        t.wf(),
    ensures
        eval_spec(e, t) matches Ok(m) ==> m.len() == t.rows,
    decreases e,
{
    match e {
        ExprModel::Comparison { column, op, value, number } => {
            if column != any_column() {
                if let Some(i) = t.index_of(column) {
                    assert(t.columns[i].len() == t.rows);
                }
            }
        },
        ExprModel::And(l, r) => {
            lemma_eval_len(*l, t);
            lemma_eval_len(*r, t);
        },
        ExprModel::Or(l, r) => {
            lemma_eval_len(*l, t);
            lemma_eval_len(*r, t);
        },
        ExprModel::Not(x) => {
            lemma_eval_len(*x, t);
        },
    }
}

fn num_holds_exec(op: ComparisonOp, a: Double, b: Double) -> (r: bool)
    ensures
        r == num_holds(op, a.bits, b.bits),
{
    match op {
        ComparisonOp::Equal => eq(a, b),
        ComparisonOp::NotEqual => !eq(a, b),
        ComparisonOp::GreaterThan => lt(b, a),
        ComparisonOp::LessThan => lt(a, b),
        ComparisonOp::GreaterOrEqual => le(b, a),
        ComparisonOp::LessOrEqual => le(a, b),
        ComparisonOp::Contains => false,
    }
}

fn text_holds_exec(op: ComparisonOp, a: &Vec<char>, b: &Vec<char>) -> (r: bool)
    ensures
        r == text_holds(op, a@, b@),
{
    match op {
        ComparisonOp::Equal => same_text(a, b),
        ComparisonOp::NotEqual => !same_text(a, b),
        ComparisonOp::GreaterThan => lex_less(b, a),
        ComparisonOp::LessThan => lex_less(a, b),
        ComparisonOp::GreaterOrEqual => !lex_less(a, b),
        ComparisonOp::LessOrEqual => !lex_less(b, a),
        ComparisonOp::Contains => contains(a, b),
    }
}

fn same_text(a: &Vec<char>, b: &Vec<char>) -> (r: bool)
    ensures
        r == (a@ == b@),
{
    if a.len() != b.len() {
        return false;
    }
    let mut i: usize = 0;
    while i < a.len()
        invariant
            a@.len() == b@.len(),
            i <= a@.len(),
            forall|j: int| 0 <= j < i ==> a@[j] == b@[j],
        decreases a@.len() - i,
    {
        if a[i] != b[i] {
            return false;
        }
        i = i + 1;
    }
    assert(a@ =~= b@);
    true
}

/// Each row of a numeric column against `x`, the column widened to 64-bit
/// floats; a null row is false.
pub fn numeric_comparison(c: &Column, op: ComparisonOp, x: Double) -> (r: Vec<bool>)
    requires
        is_numeric(c@),
    ensures
        r@ == numeric_mask(c@, op, x.bits),
{
    let mut out: Vec<bool> = Vec::new();
    match c {
        Column::Int64(v) => {
            let mut i: usize = 0;
            while i < v.len()
                invariant
                    c@ == ColumnModel::Int64(v@),
                    i <= v@.len(),
                    out@ =~= numeric_mask(c@, op, x.bits).subrange(0, i as int),
                decreases v@.len() - i,
            {
                let b = match v[i] {
                    Some(a) => num_holds_exec(op, widen(a), x),
                    None => false,
                };
                out.push(b);
                i = i + 1;
            }
        },
        Column::Float64(v) => {
            let mut i: usize = 0;
            while i < v.len()
                invariant
                    c@ == ColumnModel::Float64(v@.map_values(|o: Option<Double>| crate::table::double_view(o))),
                    i <= v@.len(),
                    out@ =~= numeric_mask(c@, op, x.bits).subrange(0, i as int),
                decreases v@.len() - i,
            {
                let b = match v[i] {
                    Some(a) => num_holds_exec(op, a, x),
                    None => false,
                };
                out.push(b);
                i = i + 1;
            }
        },
        _ => {},
    }
    assert(out@ =~= numeric_mask(c@, op, x.bits));
    out
}

/// Each row of a textual column against `value`; a null row is false.
pub fn string_comparison(c: &Column, op: ComparisonOp, value: &Vec<char>) -> (r: Vec<bool>)
    requires
        is_text(c@),
    ensures
        r@ == text_mask(c@, op, value@),
{
    let mut out: Vec<bool> = Vec::new();
    if let Column::Str(v) = c {
        let mut i: usize = 0;
        while i < v.len()
            invariant
                c@ == ColumnModel::Str(v@.map_values(|o: Option<String>| crate::table::text_view(o))),
                i <= v@.len(),
                out@ =~= text_mask(c@, op, value@).subrange(0, i as int),
            decreases v@.len() - i,
        {
            let b = match &v[i] {
                Some(s) => {
                    let sc = chars_of(s.as_str());
                    text_holds_exec(op, &sc, value)
                },
                None => false,
            };
            out.push(b);
            i = i + 1;
        }
    }
    assert(out@ =~= text_mask(c@, op, value@));
    out
}

/// Substring search for `value` in every textual column of `t`, the rows'
/// results or-ed together.
pub fn evaluate_global_search(t: &Table, value: &Vec<char>) -> (r: Result<Vec<bool>, EvalError>)
    requires
        t@.wf(),
    ensures
        r matches Ok(m) ==> search_spec(t@, value@) == Ok::<Seq<bool>, EvalError>(m@),
        r matches Err(e) ==> search_spec(t@, value@) == Err::<Seq<bool>, EvalError>(e),
{
    let rows = t.num_rows();
    let mut mask: Vec<bool> = Vec::new();
    let mut k: usize = 0;
    while k < rows
        invariant
            k <= rows,
            mask@.len() == k,
            forall|j: int| 0 <= j < k ==> !mask@[j],
        decreases rows - k,
    {
        mask.push(false);
        k = k + 1;
    }
    let mut any = false;
    let mut i: usize = 0;
    let n = t.num_columns();
    while i < n
        invariant
            t@.wf(),
            rows == t@.rows,
            n == t@.columns.len(),
            i <= n,
            mask@.len() == rows,
            any <==> exists|j: int| 0 <= j < i && is_text(#[trigger] t@.columns[j]),
            forall|r: int|
                0 <= r < rows ==> (mask@[r] <==> exists|j: int|
                    0 <= j < i && is_text(t@.columns[j]) && #[trigger] found_in(t@, j, r, value@)),
        decreases n - i,
    {
        let c = t.column(i);
        if let Column::Str(_) = c {
            let found = string_comparison(c, ComparisonOp::Contains, value);
            assert(found@.len() == rows);
            let mut r: usize = 0;
            let ghost before = mask@;
            while r < rows
                invariant
                    t@.wf(),
                    rows == t@.rows,
                    i < n == t@.columns.len(),
                    c@ == t@.columns[i as int],
                    is_text(c@),
                    found@ == text_mask(c@, ComparisonOp::Contains, value@),
                    found@.len() == rows,
                    mask@.len() == rows,
                    r <= rows,
                    before.len() == rows,
                    forall|q: int|
                        0 <= q < rows ==> (before[q] <==> exists|j: int|
                            0 <= j < i && is_text(t@.columns[j]) && #[trigger] found_in(
                                t@,
                                j,
                                q,
                                value@,
                            )),
                    forall|q: int| 0 <= q < r ==> mask@[q] == (before[q] || found@[q]),
                    forall|q: int| r <= q < rows ==> mask@[q] == before[q],
                decreases rows - r,
            {
                let m = mask[r] || found[r];
                mask.set(r, m);
                r = r + 1;
            }
            assert(r == rows);
            assert(forall|q: int| 0 <= q < rows ==> #[trigger] mask@[q] == (before[q] || found@[q]));
            proof {
                assert forall|q: int| 0 <= q < rows implies (mask@[q] <==> exists|j: int|
                    0 <= j < i + 1 && is_text(t@.columns[j]) && #[trigger] found_in(
                        t@,
                        j,
                        q,
                        value@,
                    )) by {
                    assert(found@[q] == found_in(t@, i as int, q, value@));
                    if mask@[q] && !before[q] {
                        assert(found_in(t@, i as int, q, value@));
                    }
                    if !mask@[q] {
                        assert(mask@[q] == (before[q] || found@[q]));
                        assert(!found_in(t@, i as int, q, value@));
                        assert forall|j: int|
                            0 <= j < i + 1 && is_text(t@.columns[j]) implies !found_in(
                            t@,
                            j,
                            q,
                            value@,
                        ) by {
                            if j < i {
                                assert(!before[q]);
                                if found_in(t@, j, q, value@) {
                                    assert(exists|j2: int|
                                        0 <= j2 < i && is_text(t@.columns[j2]) && #[trigger] found_in(
                                            t@,
                                            j2,
                                            q,
                                            value@,
                                        ));
                                }
                            }
                        }
                    }
                }
                assert(is_text(t@.columns[i as int]));
            }
            any = true;
        }
        i = i + 1;
    }
    if !any {
        return Err(EvalError::NoSearchableColumns);
    }
    assert(mask@ =~= search_spec(t@, value@)->Ok_0);
    Ok(mask)
}

/// One comparison of the column called `column` against `value`, or, where
/// the column is `*`, a search of every textual column.
pub fn evaluate_comparison(
    t: &Table,
    column: &String,
    op: ComparisonOp,
    value: &String,
    number: Option<Double>,
) -> (r: Result<Vec<bool>, EvalError>)
    requires
        t@.wf(),
    ensures
        r matches Ok(m) ==> compare_spec(t@, column@, op, value@, number) == Ok::<
            Seq<bool>,
            EvalError,
        >(m@),
        r matches Err(e) ==> compare_spec(t@, column@, op, value@, number) == Err::<
            Seq<bool>,
            EvalError,
        >(e),
{
    let vc = chars_of(value.as_str());
    if column.unicode_len() == 1 && column.get_char(0) == '*' {
        assert(column@ =~= any_column());
        return evaluate_global_search(t, &vc);
    }
    assert(column@ != any_column());
    let i = match t.index_of(column) {
        Some(i) => i,
        None => return Err(EvalError::ColumnNotFound),
    };
    let c = t.column(i);
    let textual = match c {
        Column::Str(_) => true,
        _ => false,
    };
    let numeric = match c {
        Column::Int64(_) | Column::Float64(_) => true,
        _ => false,
    };
    match op {
        ComparisonOp::Contains => {
            if textual {
                Ok(string_comparison(c, op, &vc))
            } else {
                Err(EvalError::TypeMismatch)
            }
        },
        ComparisonOp::Equal | ComparisonOp::NotEqual => {
            if textual {
                Ok(string_comparison(c, op, &vc))
            } else {
                match number {
                    Some(x) => if numeric {
                        Ok(numeric_comparison(c, op, x))
                    } else {
                        Err(EvalError::TypeMismatch)
                    },
                    None => Err(EvalError::CannotParseValue),
                }
            }
        },
        _ => {
            match number {
                Some(x) => if numeric {
                    Ok(numeric_comparison(c, op, x))
                } else {
                    Err(EvalError::TypeMismatch)
                },
                None => if textual {
                    Ok(string_comparison(c, op, &vc))
                } else {
                    Err(EvalError::TypeMismatch)
                },
            }
        },
    }
}

fn combine(a: &Vec<bool>, b: &Vec<bool>, is_or: bool) -> (r: Vec<bool>)
    requires
        a@.len() == b@.len(),
    ensures
        r@ == (if is_or {
            or_mask(a@, b@)
        } else {
            and_mask(a@, b@)
        }),
{
    let mut out: Vec<bool> = Vec::new();
    let mut i: usize = 0;
    while i < a.len()
        invariant
            a@.len() == b@.len(),
            i <= a@.len(),
            out@ =~= (if is_or {
                or_mask(a@, b@)
            } else {
                and_mask(a@, b@)
            }).subrange(0, i as int),
        decreases a@.len() - i,
    {
        out.push(if is_or {
            a[i] || b[i]
        } else {
            a[i] && b[i]
        });
        i = i + 1;
    }
    assert(out@ =~= (if is_or {
        or_mask(a@, b@)
    } else {
        and_mask(a@, b@)
    }));
    out
}

fn negate(a: &Vec<bool>) -> (r: Vec<bool>)
    ensures
        r@ == not_mask(a@),
{
    let mut out: Vec<bool> = Vec::new();
    let mut i: usize = 0;
    while i < a.len()
        invariant
            i <= a@.len(),
            out@ =~= not_mask(a@).subrange(0, i as int),
        decreases a@.len() - i,
    {
        out.push(!a[i]);
        i = i + 1;
    }
    assert(out@ =~= not_mask(a@));
    out
}

impl FilterExpr {
    /// The row mask of this expression against `t`.
    pub fn evaluate(&self, t: &Table) -> (r: Result<Vec<bool>, EvalError>)
        requires
            t@.wf(),
        ensures
            r matches Ok(m) ==> eval_spec(self@, t@) == Ok::<Seq<bool>, EvalError>(m@),
            r matches Err(e) ==> eval_spec(self@, t@) == Err::<Seq<bool>, EvalError>(e),
        decreases self,
    {
        match self {
            FilterExpr::Comparison { column, op, value, number } => evaluate_comparison(
                t,
                column,
                *op,
                value,
                *number,
            ),
            FilterExpr::And(l, r) => {
                let a = l.evaluate(t)?;
                let b = r.evaluate(t)?;
                proof {
                    lemma_eval_len((**l)@, t@);
                    lemma_eval_len((**r)@, t@);
                }
                Ok(combine(&a, &b, false))
            },
            FilterExpr::Or(l, r) => {
                let a = l.evaluate(t)?;
                let b = r.evaluate(t)?;
                proof {
                    lemma_eval_len((**l)@, t@);
                    lemma_eval_len((**r)@, t@);
                }
                Ok(combine(&a, &b, true))
            },
            FilterExpr::Not(x) => {
                let a = x.evaluate(t)?;
                Ok(negate(&a))
            },
        }
    }

    /// A new table with the rows of `t` that this expression selects.
    pub fn apply(&self, t: &Table) -> (r: Result<Table, EvalError>)
        requires
            t@.wf(),
        ensures
            r matches Ok(out) ==> eval_spec(self@, t@) matches Ok(m) && out@ == t@.select(m)
                && out@.wf(),
            r matches Err(e) ==> eval_spec(self@, t@) == Err::<Seq<bool>, EvalError>(e),
    {
        let mask = self.evaluate(t)?;
        proof {
            lemma_eval_len(self@, t@);
        }
        Ok(t.select_rows(&mask))
    }
}

} // verus!
