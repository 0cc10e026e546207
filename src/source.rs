//! A loaded table together with the kind of file it came from, and the
//! filter operations offered on it.
use crate::double::Double;
use crate::eval::{
    and_mask, eval_spec, is_text, lemma_eval_len, not_mask, or_mask, search_spec, text_mask,
    evaluate_global_search, string_comparison, EvalError, FilterError,
};
use crate::expr::{parse_spec, ComparisonOp, ExprModel, FilterExpr};
use crate::table::{kept, Cell, Column, ColumnModel, Table, TableModel, lemma_select_upto};
use crate::text::{chars_of, trim_range, trim_ws, upper};
use crate::double::{double_eq, widen_bits};
use vstd::prelude::*;

verus! {

/// The kinds of file a table can be loaded from.
#[derive(Debug, Clone, Copy, PartialEq, Eq, Structural)]
pub enum DataSourceType {
    Parquet,
    Csv,
    Sqlite,
}

/// Whether `s` is `word` (given in lower case) up to ASCII case.
pub open spec fn same_word(s: Seq<char>, word: Seq<char>) -> bool {
    s.len() == word.len() && forall|i: int| 0 <= i < s.len() ==> upper(#[trigger] s[i]) == upper(word[i])
}

/// The kind of file that a file-name extension names.
pub open spec fn type_of_extension(ext: Seq<char>) -> Option<DataSourceType> {
    if same_word(ext, seq!['p', 'a', 'r', 'q', 'u', 'e', 't']) {
        Some(DataSourceType::Parquet)
    } else if same_word(ext, seq!['c', 's', 'v']) {
        Some(DataSourceType::Csv)
    } else if same_word(ext, seq!['d', 'b']) || same_word(ext, seq!['s', 'q', 'l', 'i', 't', 'e'])
        || same_word(ext, seq!['s', 'q', 'l', 'i', 't', 'e', '3']) {
        Some(DataSourceType::Sqlite)
    } else {
        None
    }
}

fn is_word(s: &Vec<char>, word: &Vec<char>) -> (r: bool)
    ensures
        r == same_word(s@, word@),
{
    if s.len() != word.len() {
        return false;
    }
    let mut i: usize = 0;
    while i < s.len()
        invariant
            s@.len() == word@.len(),
            i <= s@.len(),
            forall|j: int| 0 <= j < i ==> upper(#[trigger] s@[j]) == upper(word@[j]),
        decreases s@.len() - i,
    {
        if crate::text::to_upper(s[i]) != crate::text::to_upper(word[i]) {
            return false;
        }
        i = i + 1;
    }
    true
}

impl DataSourceType {
    /// The kind of file named by a file-name extension, in any letter case.
    pub fn from_extension(ext: &str) -> (r: Option<DataSourceType>)
        ensures
            r == type_of_extension(ext@),
    {
        let e = chars_of(ext);
        let parquet = vec!['p', 'a', 'r', 'q', 'u', 'e', 't'];
        let csv = vec!['c', 's', 'v'];
        let db = vec!['d', 'b'];
        let sqlite = vec!['s', 'q', 'l', 'i', 't', 'e'];
        let sqlite3 = vec!['s', 'q', 'l', 'i', 't', 'e', '3'];
        assert(parquet@ =~= seq!['p', 'a', 'r', 'q', 'u', 'e', 't']);
        assert(csv@ =~= seq!['c', 's', 'v']);
        assert(db@ =~= seq!['d', 'b']);
        assert(sqlite@ =~= seq!['s', 'q', 'l', 'i', 't', 'e']);
        assert(sqlite3@ =~= seq!['s', 'q', 'l', 'i', 't', 'e', '3']);
        if is_word(&e, &parquet) {
            Some(DataSourceType::Parquet)
        } else if is_word(&e, &csv) {
            Some(DataSourceType::Csv)
        } else if is_word(&e, &db) || is_word(&e, &sqlite) || is_word(&e, &sqlite3) {
            Some(DataSourceType::Sqlite)
        } else {
            None
        }
    }
}

/// What a filter over a non-blank text gives, for the expression `e` that
/// the text parsed to.
pub open spec fn outcome(e: ExprModel, t: TableModel, r: Result<Table, FilterError>) -> bool {
    match eval_spec(e, t) {
        Ok(m) => r matches Ok(out) && out@ == t.select(m),
        Err(x) => r == Err::<Table, FilterError>(FilterError::Eval(x)),
    }
}

/// Whether a text holds nothing but white space.
pub open spec fn is_blank(text: Seq<char>) -> bool {
    trim_ws(text).len() == 0
}

fn blank(text: &str) -> (r: bool)
    ensures
        r == is_blank(text@),
{
    let cs = chars_of(text);
    let (a, b) = trim_range(&cs, 0, cs.len(), None);
    assert(cs@.subrange(0, cs@.len() as int) =~= cs@);
    a == b
}

/// Applies a filter text to a table: a blank text keeps the table as it is;
/// otherwise the text is parsed, evaluated to a row mask, and the rows that
/// the mask keeps make a new table, in their order. `read_number` reads each
/// comparison's literal as a number.
pub fn apply_filter<F: Fn(&str) -> Option<Double>>(text: &str, t: &Table, read_number: &F) -> (r:
    Result<Table, FilterError>)
    requires
        t@.wf(),
        forall|s: &str| read_number.requires((s,)),
    ensures
        is_blank(text@) ==> (r matches Ok(out) && out@ == t@),
        !is_blank(text@) && parse_spec(text@) is Err ==> r == Err::<Table, FilterError>(
            FilterError::Parse(parse_spec(text@)->Err_0),
        ),
        !is_blank(text@) && parse_spec(text@) is Ok ==> exists|e: ExprModel|
            e.syntax() == parse_spec(text@)->Ok_0 && e.read_by(*read_number) && #[trigger] outcome(
                e,
                t@,
                r,
            ),
        r matches Ok(out) ==> out@.wf(),
{
    if blank(text) {
        return Ok(t.duplicate());
    }
    let expr = match FilterExpr::parse(text, read_number) {
        Ok(e) => e,
        Err(e) => return Err(FilterError::Parse(e)),
    };
    let r = match expr.apply(t) {
        Ok(out) => Ok(out),
        Err(x) => Err(FilterError::Eval(x)),
    };
    assert(outcome(expr@, t@, r));
    r
}

/// The row mask of a filter text, for callers that mark rows in place
/// instead of building a new table: all rows for a blank text, else the
/// mask of the expression the text parses to.
pub fn filter_mask<F: Fn(&str) -> Option<Double>>(text: &str, t: &Table, read_number: &F) -> (r:
    Result<Vec<bool>, FilterError>)
    requires
        t@.wf(),
        forall|s: &str| read_number.requires((s,)),
    ensures
        is_blank(text@) ==> (r matches Ok(m) && m@ == Seq::new(t@.rows, |i: int| true)),
        !is_blank(text@) && parse_spec(text@) is Err ==> r == Err::<Vec<bool>, FilterError>(
            FilterError::Parse(parse_spec(text@)->Err_0),
        ),
        !is_blank(text@) && parse_spec(text@) is Ok ==> exists|e: ExprModel|
            e.syntax() == parse_spec(text@)->Ok_0 && e.read_by(*read_number) && #[trigger] mask_outcome(
                e,
                t@,
                r,
            ),
{
    if blank(text) {
        let mut m: Vec<bool> = Vec::new();
        let n = t.num_rows();
        while m.len() < n
            invariant
                m@.len() <= n,
                n == t@.rows,
                forall|i: int| 0 <= i < m@.len() ==> m@[i],
            decreases n - m@.len(),
        {
            m.push(true);
        }
        assert(m@ =~= Seq::new(t@.rows, |i: int| true));
        return Ok(m);
    }
    let expr = match FilterExpr::parse(text, read_number) {
        Ok(e) => e,
        Err(e) => return Err(FilterError::Parse(e)),
    };
    let r = match expr.evaluate(t) {
        Ok(m) => Ok(m),
        Err(x) => Err(FilterError::Eval(x)),
    };
    assert(mask_outcome(expr@, t@, r));
    r
}

/// What the mask of a non-blank filter text is, for the expression `e`
/// that the text parsed to.
pub open spec fn mask_outcome(e: ExprModel, t: TableModel, r: Result<Vec<bool>, FilterError>) -> bool {
    match eval_spec(e, t) {
        Ok(m) => r matches Ok(v) && v@ == m,
        Err(x) => r == Err::<Vec<bool>, FilterError>(FilterError::Eval(x)),
    }
}

/// A loaded table and the kind of file it came from.
pub struct DataSource {
    table: Table,
    source_type: DataSourceType,
}

impl DataSource {
    pub closed spec fn table_view(&self) -> TableModel {
        self.table@
    }

    pub closed spec fn kind(&self) -> DataSourceType {
        self.source_type
    }

    /// Wraps a loaded table.
    pub fn new(table: Table, source_type: DataSourceType) -> (r: DataSource)
        requires
            table@.wf(),
        ensures
            r.table_view() == table@,
            r.kind() == source_type,
            r.table_view().wf(),
    {
        DataSource { table, source_type }
    }

    /// The table.
    pub fn dataframe(&self) -> (r: &Table)
        ensures
            r@ == self.table_view(),
    {
        &self.table
    }

    /// The kind of file the table came from.
    pub fn source_type(&self) -> (r: DataSourceType)
        ensures
            r == self.kind(),
    {
        self.source_type
    }

    /// The column names, in order.
    pub fn columns(&self) -> (r: Vec<String>)
        ensures
            r@.map_values(|s: String| s@) == self.table_view().names,
    {
        self.table.column_names()
    }

    /// The number of rows.
    pub fn len(&self) -> (r: usize)
        ensures
            r == self.table_view().rows,
    {
        self.table.num_rows()
    }

    /// Whether the table has no rows.
    pub fn is_empty(&self) -> (r: bool)
        ensures
            r == (self.table_view().rows == 0),
    {
        self.table.num_rows() == 0
    }

    /// Applies a filter text to the table (see `apply_filter`).
    pub fn filter<F: Fn(&str) -> Option<Double>>(&self, pattern: &str, read_number: &F) -> (r:
        Result<Table, FilterError>)
        requires
            self.table_view().wf(),
            forall|s: &str| read_number.requires((s,)),
        ensures
            is_blank(pattern@) ==> (r matches Ok(out) && out@ == self.table_view()),
            !is_blank(pattern@) && parse_spec(pattern@) is Err ==> r == Err::<Table, FilterError>(
                FilterError::Parse(parse_spec(pattern@)->Err_0),
            ),
            !is_blank(pattern@) && parse_spec(pattern@) is Ok ==> exists|e: ExprModel|
                e.syntax() == parse_spec(pattern@)->Ok_0 && e.read_by(*read_number)
                    && #[trigger] outcome(e, self.table_view(), r),
            r matches Ok(out) ==> out@.wf(),
    {
        apply_filter(pattern, &self.table, read_number)
    }

    /// Substring search without the expression language: in the named column
    /// where it exists, else in every textual column; with no textual column
    /// the table is kept whole.
    pub fn filter_simple(&self, pattern: &str, column: Option<&str>) -> (r: Result<Table, EvalError>)
        requires
            self.table_view().wf(),
        ensures
            simple_outcome(self.table_view(), pattern@, column, r),
            r matches Ok(out) ==> out@.wf(),
    {
        let t = &self.table;
        if pattern.unicode_len() == 0 {
            return Ok(t.duplicate());
        }
        let pc = chars_of(pattern);
        if let Some(name) = column {
            let owned = name.to_owned();
            if let Some(i) = t.index_of(&owned) {
                let c = t.column(i);
                if let Column::Str(_) = c {
                    let m = string_comparison(c, ComparisonOp::Contains, &pc);
                    return Ok(t.select_rows(&m));
                } else {
                    return Err(EvalError::TypeMismatch);
                }
            }
        }
        match evaluate_global_search(t, &pc) {
            Ok(m) => Ok(t.select_rows(&m)),
            Err(_) => Ok(t.duplicate()),
        }
    }
}

/// What the plain substring filter gives.
pub open spec fn simple_outcome(
    t: TableModel,
    pattern: Seq<char>,
    column: Option<&str>,
    r: Result<Table, EvalError>,
) -> bool {
    if pattern.len() == 0 {
        r matches Ok(out) && out@ == t
    } else if column matches Some(c) && t.index_of(c@) is Some {
        let col = t.columns[t.index_of(column->0@)->0];
        if is_text(col) {
            r matches Ok(out) && out@ == t.select(text_mask(col, ComparisonOp::Contains, pattern))
        } else {
            r == Err::<Table, EvalError>(EvalError::TypeMismatch)
        }
    } else {
        match search_spec(t, pattern) {
            Ok(m) => r matches Ok(out) && out@ == t.select(m),
            Err(_) => r matches Ok(out) && out@ == t,
        }
    }
}

/// A filter keeps rows of the table and no others, each at most once and in
/// the order they had: row `k` of the result is row `kept(m)[k]` of the
/// table, and those indices rise strictly.
pub proof fn law_selection_keeps_order(t: TableModel, m: Seq<bool>)
    requires
        t.wf(),
        m.len() == t.rows,
    ensures
        t.select(m).names == t.names,
        t.select(m).rows == kept(m).len(),
        forall|k: int| 0 <= k < kept(m).len() ==> 0 <= #[trigger] kept(m)[k] < t.rows,
        forall|k: int, l: int| 0 <= k < l < kept(m).len() ==> #[trigger] kept(m)[k] < #[trigger] kept(m)[l],
        forall|c: int, k: int|
            0 <= c < t.columns.len() && 0 <= k < kept(m).len() ==> (#[trigger] t.select(m).columns[c]).cell(k)
                == t.columns[c].cell(#[trigger] kept(m)[k]) && t.select(m).columns[c].same_kind(t.columns[c]),
{
    lemma_select_upto(m, m, m.len() as int);
    assert forall|c: int, k: int|
        0 <= c < t.columns.len() && 0 <= k < kept(m).len() implies (
        #[trigger] t.select(m).columns[c]).cell(k) == t.columns[c].cell(#[trigger] kept(m)[k])
            && t.select(m).columns[c].same_kind(t.columns[c]) by {
        assert(t.columns[c].len() == t.rows);
        match t.columns[c] {
            ColumnModel::Int64(s) => lemma_select_upto(s, m, s.len() as int),
            ColumnModel::Float64(s) => lemma_select_upto(s, m, s.len() as int),
            ColumnModel::Str(s) => lemma_select_upto(s, m, s.len() as int),
            ColumnModel::Bool(s) => lemma_select_upto(s, m, s.len() as int),
        }
    }
}

/// Negating a mask twice gives the mask back.
pub proof fn law_double_negation(e: ExprModel, t: TableModel)
    ensures
        eval_spec(ExprModel::Not(Box::new(ExprModel::Not(Box::new(e)))), t) == eval_spec(e, t),
{
    let once = ExprModel::Not(Box::new(e));
    if let Ok(a) = eval_spec(e, t) {
        assert(eval_spec(once, t) == Ok::<Seq<bool>, EvalError>(not_mask(a)));
        assert(not_mask(not_mask(a)) =~= a);
    } else {
        assert(eval_spec(once, t) == eval_spec(e, t));
    }
}

/// An expression combined with itself by `AND` or by `OR` selects what the
/// expression alone selects.
pub proof fn law_idempotence(e: ExprModel, t: TableModel)
    ensures
        eval_spec(ExprModel::And(Box::new(e), Box::new(e)), t) == eval_spec(e, t),
        eval_spec(ExprModel::Or(Box::new(e), Box::new(e)), t) == eval_spec(e, t),
{
    if let Ok(a) = eval_spec(e, t) {
        assert(and_mask(a, a) =~= a);
        assert(or_mask(a, a) =~= a);
    }
}

/// `AND` and `OR` do not depend on the order of their operands: both orders
/// succeed or neither does, and where they succeed the masks are equal.
pub proof fn law_commutativity(e1: ExprModel, e2: ExprModel, t: TableModel)
    requires
        t.wf(),
    ensures
        eval_spec(ExprModel::And(Box::new(e1), Box::new(e2)), t) is Ok <==> eval_spec(
            ExprModel::And(Box::new(e2), Box::new(e1)),
            t,
        ) is Ok,
        eval_spec(ExprModel::Or(Box::new(e1), Box::new(e2)), t) is Ok <==> eval_spec(
            ExprModel::Or(Box::new(e2), Box::new(e1)),
            t,
        ) is Ok,
        eval_spec(ExprModel::And(Box::new(e1), Box::new(e2)), t) is Ok ==> eval_spec(
            ExprModel::And(Box::new(e1), Box::new(e2)),
            t,
        ) == eval_spec(ExprModel::And(Box::new(e2), Box::new(e1)), t),
        eval_spec(ExprModel::Or(Box::new(e1), Box::new(e2)), t) is Ok ==> eval_spec(
            ExprModel::Or(Box::new(e1), Box::new(e2)),
            t,
        ) == eval_spec(ExprModel::Or(Box::new(e2), Box::new(e1)), t),
{
    lemma_eval_len(e1, t);
    lemma_eval_len(e2, t);
    if let (Ok(a), Ok(b)) = (eval_spec(e1, t), eval_spec(e2, t)) {
        assert(and_mask(a, b) =~= and_mask(b, a));
        assert(or_mask(a, b) =~= or_mask(b, a));
    }
}

/// On an integer column, an equality with a number holds of a row exactly
/// when the row's value, widened to a 64-bit float, equals the number.
pub proof fn law_integer_equality_widens(
    t: TableModel,
    column: Seq<char>,
    value: Seq<char>,
    x: Double,
    row: int,
    v: i64,
)
    requires
        t.wf(),
        column != crate::expr::any_column(),
        t.index_of(column) matches Some(i) && t.columns[i] is Int64,
        0 <= row < t.rows,
        t.columns[t.index_of(column)->0].cell(row) == Cell::Int(v),
    ensures
        eval_spec(ExprModel::Comparison { column, op: ComparisonOp::Equal, value, number: Some(x) }, t)
            matches Ok(m) && (m[row] <==> double_eq(widen_bits(v as int) as u64, x.bits)),
{
    let i = t.index_of(column)->0;
    assert(0 <= i < t.columns.len() && t.names[i] == column);
    assert(t.columns[i].len() == t.rows);
}

} // verus!
