//! Filter expressions and their parser.
//!
//! The grammar is flat: the first ` OR ` splits the text, else the first
//! ` AND `, else a leading `NOT `, else one comparison found by a scan for
//! the operators `>=`, `<=`, `!=`, `=`, `>`, `<`, `:` in that order. Text
//! with no operator is a search for that text in every textual column.
use crate::double::Double;
use crate::text::{chars_of, find, find_first, lemma_find_from, occurs_at, trim_by, trim_range, trim_ws};
use vstd::prelude::*;

verus! {

/// The operator of a comparison.
#[derive(Clone, Copy, Debug, PartialEq, Eq, Structural)]
pub enum ComparisonOp {
    Equal,
    NotEqual,
    GreaterThan,
    LessThan,
    GreaterOrEqual,
    LessOrEqual,
    Contains,
}

/// A parsed filter. A comparison keeps its literal as text, and beside it
/// the literal read as a number (`None` where it is not one).
#[derive(Debug)]
pub enum FilterExpr {
    Comparison { column: String, op: ComparisonOp, value: String, number: Option<Double> },
    And(Box<FilterExpr>, Box<FilterExpr>),
    Or(Box<FilterExpr>, Box<FilterExpr>),
    Not(Box<FilterExpr>),
}

/// What a filter expression is, with text as characters.
pub enum ExprModel {
    Comparison { column: Seq<char>, op: ComparisonOp, value: Seq<char>, number: Option<Double> },
    And(Box<ExprModel>, Box<ExprModel>),
    Or(Box<ExprModel>, Box<ExprModel>),
    Not(Box<ExprModel>),
}

/// Why a filter text could not be parsed.
#[derive(Clone, Copy, Debug, PartialEq, Eq, Structural)]
pub enum ParseError {
    /// The text, or a part of it that must hold an expression, is blank.
    EmptyExpression,
    /// A comparison lacks its column or its value.
    InvalidComparison,
}

/// The column name that stands for every textual column.
pub open spec fn any_column() -> Seq<char> {
    seq!['*']
}

impl View for FilterExpr {
    type V = ExprModel;

    open spec fn view(&self) -> ExprModel
        decreases self,
    {
        match self {
            FilterExpr::Comparison { column, op, value, number } => ExprModel::Comparison {
                column: column@,
                op: *op,
                value: value@,
                number: *number,
            },
            FilterExpr::And(l, r) => ExprModel::And(Box::new((**l)@), Box::new((**r)@)),
            FilterExpr::Or(l, r) => ExprModel::Or(Box::new((**l)@), Box::new((**r)@)),
            FilterExpr::Not(e) => ExprModel::Not(Box::new((**e)@)),
        }
    }
}

impl ExprModel {
    /// The same tree with every number reading left out.
    pub open spec fn syntax(self) -> ExprModel
        decreases self,
    {
        match self {
            ExprModel::Comparison { column, op, value, number } => ExprModel::Comparison {
                column,
                op,
                value,
                number: None,
            },
            ExprModel::And(l, r) => ExprModel::And(Box::new(l.syntax()), Box::new(r.syntax())),
            ExprModel::Or(l, r) => ExprModel::Or(Box::new(l.syntax()), Box::new(r.syntax())),
            ExprModel::Not(e) => ExprModel::Not(Box::new(e.syntax())),
        }
    }

    /// Every comparison's number is what `read` gave for its value.
    pub open spec fn read_by<F: Fn(&str) -> Option<Double>>(self, read: F) -> bool
        decreases self,
    {
        match self {
            ExprModel::Comparison { column, op, value, number } => exists|s: &str|
                s@ == value && #[trigger] read.ensures((s,), number),
            ExprModel::And(l, r) => l.read_by(read) && r.read_by(read),
            ExprModel::Or(l, r) => l.read_by(read) && r.read_by(read),
            ExprModel::Not(e) => e.read_by(read),
        }
    }
}

pub open spec fn or_sep() -> Seq<char> {
    seq![' ', 'O', 'R', ' ']
}

pub open spec fn and_sep() -> Seq<char> {
    seq![' ', 'A', 'N', 'D', ' ']
}

pub open spec fn not_prefix() -> Seq<char> {
    seq!['N', 'O', 'T', ' ']
}

/// The operators in the order of the scan.
pub open spec fn op_text(k: int) -> Seq<char> {
    if k == 0 {
        seq!['>', '=']
    } else if k == 1 {
        seq!['<', '=']
    } else if k == 2 {
        seq!['!', '=']
    } else if k == 3 {
        seq!['=']
    } else if k == 4 {
        seq!['>']
    } else if k == 5 {
        seq!['<']
    } else {
        seq![':']
    }
}

pub open spec fn op_of(k: int) -> ComparisonOp {
    if k == 0 {
        ComparisonOp::GreaterOrEqual
    } else if k == 1 {
        ComparisonOp::LessOrEqual
    } else if k == 2 {
        ComparisonOp::NotEqual
    } else if k == 3 {
        ComparisonOp::Equal
    } else if k == 4 {
        ComparisonOp::GreaterThan
    } else if k == 5 {
        ComparisonOp::LessThan
    } else {
        ComparisonOp::Contains
    }
}

/// A literal as a comparison keeps it: trimmed, then without surrounding
/// double quotes, then without surrounding single quotes.
pub open spec fn literal(s: Seq<char>) -> Seq<char> {
    trim_by(trim_by(trim_ws(s), Some('"')), Some('\''))
}

/// The comparison made of `t` split around operator `k` found at `p`.
pub open spec fn split_comparison(t: Seq<char>, k: int, p: int) -> Result<ExprModel, ParseError> {
    let column = trim_ws(t.subrange(0, p));
    let value = literal(t.subrange(p + op_text(k).len(), t.len() as int));
    if column.len() == 0 || value.len() == 0 {
        Err(ParseError::InvalidComparison)
    } else {
        Ok(ExprModel::Comparison { column, op: op_of(k), value, number: None })
    }
}

/// The comparison in `t` by the operators from `k` on in scan order; with
/// none of them in `t`, a search for `t` in every textual column.
pub open spec fn comparison_from(t: Seq<char>, k: int) -> Result<ExprModel, ParseError>
    decreases 7 - k,
{
    if k >= 7 || k < 0 {
        Ok(ExprModel::Comparison { column: any_column(), op: ComparisonOp::Contains, value: t, number: None })
    } else {
        match find_first(t, op_text(k), false) {
            Some(p) => split_comparison(t, k, p),
            None => comparison_from(t, k + 1),
        }
    }
}

pub open spec fn both(
    l: Result<ExprModel, ParseError>,
    r: Result<ExprModel, ParseError>,
    is_or: bool,
) -> Result<ExprModel, ParseError> {
    match l {
        Err(e) => Err(e),
        Ok(a) => match r {
            Err(e) => Err(e),
            Ok(b) => if is_or {
                Ok(ExprModel::Or(Box::new(a), Box::new(b)))
            } else {
                Ok(ExprModel::And(Box::new(a), Box::new(b)))
            },
        },
    }
}

/// What a filter text parses to, without number readings.
pub open spec fn parse_spec(s: Seq<char>) -> Result<ExprModel, ParseError>
    decreases s.len(),
    via parse_spec_decreases
{
    let t = trim_ws(s);
    if t.len() == 0 {
        Err(ParseError::EmptyExpression)
    } else if let Some(p) = find_first(t, or_sep(), true) {
        both(parse_spec(t.subrange(0, p)), parse_spec(t.subrange(p + 4, t.len() as int)), true)
    } else if let Some(p) = find_first(t, and_sep(), true) {
        both(parse_spec(t.subrange(0, p)), parse_spec(t.subrange(p + 5, t.len() as int)), false)
    } else if occurs_at(t, not_prefix(), true, 0) {
        match parse_spec(t.subrange(4, t.len() as int)) {
            Ok(e) => Ok(ExprModel::Not(Box::new(e))),
            Err(e) => Err(e),
        }
    } else {
        comparison_from(t, 0)
    }
}

proof fn lemma_trim_len(s: Seq<char>, k: Option<char>)
    ensures
        trim_by(s, k).len() <= s.len(),
    decreases s.len(),
{
    if s.len() > 0 && crate::text::strips(k, s[0]) {
        lemma_trim_len(s.drop_first(), k);
    } else if s.len() > 0 && crate::text::strips(k, s.last()) {
        lemma_trim_len(s.drop_last(), k);
    }
}

proof fn lemma_find_bounds(s: Seq<char>, pat: Seq<char>, ci: bool, i: int)
    requires
        0 <= i,
    ensures
        find_from_bounded(s, pat, ci, i),
    decreases s.len() - i,
{
    if i + pat.len() > s.len() {
    } else if occurs_at(s, pat, ci, i) {
    } else {
        lemma_find_bounds(s, pat, ci, i + 1);
    }
}

spec fn find_from_bounded(s: Seq<char>, pat: Seq<char>, ci: bool, i: int) -> bool {
    match crate::text::find_from(s, pat, ci, i) {
        Some(p) => i <= p && p + pat.len() <= s.len(),
        None => true,
    }
}

#[via_fn]
proof fn parse_spec_decreases(s: Seq<char>) {
    let t = trim_ws(s);
    lemma_trim_len(s, None);
    lemma_find_bounds(t, or_sep(), true, 0);
    lemma_find_bounds(t, and_sep(), true, 0);
}

fn op_chars(k: usize) -> (r: Vec<char>)
    requires
        k < 7,
    ensures
        r@ == op_text(k as int),
{
    let r = if k == 0 {
        vec!['>', '=']
    } else if k == 1 {
        vec!['<', '=']
    } else if k == 2 {
        vec!['!', '=']
    } else if k == 3 {
        vec!['=']
    } else if k == 4 {
        vec!['>']
    } else if k == 5 {
        vec!['<']
    } else {
        vec![':']
    };
    assert(r@ =~= op_text(k as int));
    r
}

fn op_at(k: usize) -> (r: ComparisonOp)
    ensures
        r == op_of(k as int),
{
    if k == 0 {
        ComparisonOp::GreaterOrEqual
    } else if k == 1 {
        ComparisonOp::LessOrEqual
    } else if k == 2 {
        ComparisonOp::NotEqual
    } else if k == 3 {
        ComparisonOp::Equal
    } else if k == 4 {
        ComparisonOp::GreaterThan
    } else if k == 5 {
        ComparisonOp::LessThan
    } else {
        ComparisonOp::Contains
    }
}

impl FilterExpr {
    /// Parses a filter text. Each comparison's literal is handed to
    /// `read_number`, and what it gives is kept as the literal's reading as
    /// a number.
    pub fn parse<F: Fn(&str) -> Option<Double>>(input: &str, read_number: &F) -> (r: Result<
        FilterExpr,
        ParseError,
    >)
        requires
            forall|s: &str| read_number.requires((s,)),
        ensures
            r is Ok <==> parse_spec(input@) is Ok,
            r matches Ok(e) ==> e@.syntax() == parse_spec(input@)->Ok_0 && e@.read_by(*read_number),
            r matches Err(e) ==> parse_spec(input@) == Err::<ExprModel, ParseError>(e),
        decreases input@.len(),
    {
        let cs = chars_of(input);
        let (a, b) = trim_range(&cs, 0, cs.len(), None);
        proof {
            assert(cs@.subrange(0, cs@.len() as int) =~= cs@);
            lemma_trim_len(input@, None);
        }
        if a == b {
            return Err(ParseError::EmptyExpression);
        }
        let t = input.substring_char(a, b);
        let tc = chars_of(t);
        let n = tc.len();
        let ghost ts = trim_ws(input@);
        assert(tc@ == ts);
        let or_pat = vec![' ', 'O', 'R', ' '];
        assert(or_pat@ =~= or_sep());
        let f_or = find(&tc, &or_pat, true, 0);
        proof {
            lemma_find_from(ts, or_sep(), true, 0);
        }
        if let Some(p) = f_or {
            let left = FilterExpr::parse(t.substring_char(0, p), read_number);
            let l = match left {
                Ok(l) => l,
                Err(e) => return Err(e),
            };
            let right = FilterExpr::parse(t.substring_char(p + 4, n), read_number);
            let r = match right {
                Ok(r) => r,
                Err(e) => return Err(e),
            };
            return Ok(FilterExpr::Or(Box::new(l), Box::new(r)));
        }
        let and_pat = vec![' ', 'A', 'N', 'D', ' '];
        assert(and_pat@ =~= and_sep());
        let f_and = find(&tc, &and_pat, true, 0);
        proof {
            lemma_find_from(ts, and_sep(), true, 0);
        }
        if let Some(p) = f_and {
            let left = FilterExpr::parse(t.substring_char(0, p), read_number);
            let l = match left {
                Ok(l) => l,
                Err(e) => return Err(e),
            };
            let right = FilterExpr::parse(t.substring_char(p + 5, n), read_number);
            let r = match right {
                Ok(r) => r,
                Err(e) => return Err(e),
            };
            return Ok(FilterExpr::And(Box::new(l), Box::new(r)));
        }
        let not_pat = vec!['N', 'O', 'T', ' '];
        assert(not_pat@ =~= not_prefix());
        let f_not = find(&tc, &not_pat, true, 0);
        proof {
            lemma_find_from(ts, not_prefix(), true, 0);
        }
        if f_not == Some(0usize) {
            let inner = FilterExpr::parse(t.substring_char(4, n), read_number);
            return match inner {
                Ok(e) => Ok(FilterExpr::Not(Box::new(e))),
                Err(e) => Err(e),
            };
        }
        assert(!occurs_at(ts, not_prefix(), true, 0));
        FilterExpr::parse_comparison(t, &tc, read_number)
    }

    /// One comparison, from trimmed text that holds no logical operator.
    fn parse_comparison<F: Fn(&str) -> Option<Double>>(t: &str, tc: &Vec<char>, read_number: &F) -> (r:
        Result<FilterExpr, ParseError>)
        requires
            forall|s: &str| read_number.requires((s,)),
            tc@ == t@,
        ensures
            r is Ok <==> comparison_from(t@, 0) is Ok,
            r matches Ok(e) ==> e@.syntax() == comparison_from(t@, 0)->Ok_0 && e@.read_by(
                *read_number,
            ),
            r matches Err(e) ==> comparison_from(t@, 0) == Err::<ExprModel, ParseError>(e),
    {
        let n = tc.len();
        let mut k: usize = 0;
        while k < 7
            invariant
                k <= 7,
                forall|s: &str| read_number.requires((s,)),
                n == tc@.len(),
                tc@ == t@,
                comparison_from(t@, k as int) == comparison_from(t@, 0),
            decreases 7 - k,
        {
            let pat = op_chars(k);
            let found = find(tc, &pat, false, 0);
            proof {
                lemma_find_from(t@, pat@, false, 0);
            }
            if let Some(p) = found {
                let (c0, c1) = trim_range(tc, 0, p, None);
                let (v0, v1) = trim_range(tc, p + pat.len(), n, None);
                let (w0, w1) = trim_range(tc, v0, v1, Some('"'));
                let (x0, x1) = trim_range(tc, w0, w1, Some('\''));
                if c0 == c1 || x0 == x1 {
                    return Err(ParseError::InvalidComparison);
                }
                let column = t.substring_char(c0, c1).to_owned();
                let value = t.substring_char(x0, x1).to_owned();
                let vs: &str = value.as_str();
                let number = read_number(vs);
                assert(vs@ == value@ && read_number.ensures((vs,), number));
                return Ok(FilterExpr::Comparison { column, op: op_at(k), value, number });
            }
            k = k + 1;
        }
        let star = "*";
        proof {
            reveal_strlit("*");
        }
        let column = star.to_owned();
        let value = t.to_owned();
        let vs: &str = value.as_str();
        let number = read_number(vs);
        assert(vs@ == value@ && read_number.ensures((vs,), number));
        assert(column@ =~= any_column());
        Ok(FilterExpr::Comparison { column, op: ComparisonOp::Contains, value, number })
    }
}

} // verus!
