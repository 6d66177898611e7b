//! Multi-dimensional search over the combined catalog view.
//!
//! A [`SearchRequest`] holds one free-text dimension (a list of
//! [`SearchText`] entries, each naming the columns it applies to) and six
//! optional literal-set dimensions.  Every entry and every present
//! dimension becomes an OR of equality predicates; the per-entry and
//! per-dimension predicates are then ANDed together.  An absent dimension
//! contributes no term, and a fully empty request matches every row.

use vstd::prelude::*;
use vstd::string::StringExecFns;

use crate::columns::Column;
use crate::pattern::{pattern_matches, regex_compiles, regex_is_match};
use crate::records::CombinedCatalogRow;

verus! {

/// A boolean predicate over one row of the combined view.
#[derive(Debug)]
pub enum Expr {
    /// The column's value equals the literal exactly.
    Eq(Column, String),
    /// The column's value contains a match of the pattern.
    Contains(Column, String),
    /// Both operands hold.
    And(Box<Expr>, Box<Expr>),
    /// At least one operand holds.
    Or(Box<Expr>, Box<Expr>),
}

/// What an expression says of a row.
pub open spec fn spec_eval(e: Expr, row: CombinedCatalogRow) -> bool
    decreases e,
{
    match e {
        Expr::Eq(c, v) => row.spec_column_value(c)@ == v@,
        Expr::Contains(c, p) => pattern_matches(p@, row.spec_column_value(c)@),
        Expr::And(a, b) => spec_eval(*a, row) && spec_eval(*b, row),
        Expr::Or(a, b) => spec_eval(*a, row) || spec_eval(*b, row),
    }
}

/// Whether every containment pattern in the expression compiles, so that
/// evaluation succeeds.
pub open spec fn spec_expr_valid(e: Expr) -> bool
    decreases e,
{
    match e {
        Expr::Eq(_, _) => true,
        Expr::Contains(_, p) => regex_compiles(p@),
        Expr::And(a, b) => spec_expr_valid(*a) && spec_expr_valid(*b),
        Expr::Or(a, b) => spec_expr_valid(*a) && spec_expr_valid(*b),
    }
}

/// Whether the expression is built from equality predicates alone.
pub open spec fn spec_expr_eq_only(e: Expr) -> bool
    decreases e,
{
    match e {
        Expr::Eq(_, _) => true,
        Expr::Contains(_, _) => false,
        Expr::And(a, b) => spec_expr_eq_only(*a) && spec_expr_eq_only(*b),
        Expr::Or(a, b) => spec_expr_eq_only(*a) && spec_expr_eq_only(*b),
    }
}

/// An expression of equality predicates alone always evaluates.
pub proof fn lemma_eq_only_valid(e: Expr)
    requires
        spec_expr_eq_only(e),
    ensures
        spec_expr_valid(e),
    decreases e,
{
    match e {
        Expr::Eq(_, _) => {}
        Expr::Contains(_, _) => {}
        Expr::And(a, b) => {
            lemma_eq_only_valid(*a);
            lemma_eq_only_valid(*b);
        }
        Expr::Or(a, b) => {
            lemma_eq_only_valid(*a);
            lemma_eq_only_valid(*b);
        }
    }
}

impl Expr {
    /// Evaluates the expression on one row.  Returns `None` exactly when
    /// some containment pattern in the expression does not compile.
    pub fn eval(&self, row: &CombinedCatalogRow) -> (r: Option<bool>)
        ensures
            r is Some <==> spec_expr_valid(*self),
            r is Some ==> r->0 == spec_eval(*self, *row),
        decreases *self,
    {
        match self {
            Expr::Eq(c, v) => Some(*row.column_value(*c) == *v),
            Expr::Contains(c, p) => regex_is_match(p.as_str(), row.column_value(*c).as_str()),
            Expr::And(a, b) => {
                match (a.eval(row), b.eval(row)) {
                    (Some(x), Some(y)) => Some(x && y),
                    _ => None,
                }
            }
            Expr::Or(a, b) => {
                match (a.eval(row), b.eval(row)) {
                    (Some(x), Some(y)) => Some(x || y),
                    _ => None,
                }
            }
        }
    }
}

/// The left fold of a list of expressions under OR; `None` for an empty
/// list.
pub open spec fn spec_or_all(es: Seq<Expr>) -> Option<Expr>
    decreases es.len(),
{
    if es.len() == 0 {
        None
    } else {
        match spec_or_all(es.drop_last()) {
            None => Some(es.last()),
            Some(q) => Some(Expr::Or(Box::new(q), Box::new(es.last()))),
        }
    }
}

/// The left fold of a list of expressions under AND; `None` for an empty
/// list.
pub open spec fn spec_and_all(es: Seq<Expr>) -> Option<Expr>
    decreases es.len(),
{
    if es.len() == 0 {
        None
    } else {
        match spec_and_all(es.drop_last()) {
            None => Some(es.last()),
            Some(q) => Some(Expr::And(Box::new(q), Box::new(es.last()))),
        }
    }
}

/// Combine multiple queries with OR. If there are no queries in the input
/// list, returns None.
pub fn combine_exprs_with_or(exprs: Vec<Expr>) -> (r: Option<Expr>)
    ensures
        r == spec_or_all(exprs@),
    decreases exprs@.len(),
{
    let mut exprs = exprs;
    if exprs.len() == 0 {
        None
    } else {
        let last = exprs.pop().unwrap();
        match combine_exprs_with_or(exprs) {
            None => Some(last),
            Some(q) => Some(Expr::Or(Box::new(q), Box::new(last))),
        }
    }
}

/// Combine multiple queries with AND. If there are no queries in the input
/// list, returns None.
pub fn combine_exprs_with_and(exprs: Vec<Expr>) -> (r: Option<Expr>)
    ensures
        r == spec_and_all(exprs@),
    decreases exprs@.len(),
{
    let mut exprs = exprs;
    if exprs.len() == 0 {
        None
    } else {
        let last = exprs.pop().unwrap();
        match combine_exprs_with_and(exprs) {
            None => Some(last),
            Some(q) => Some(Expr::And(Box::new(q), Box::new(last))),
        }
    }
}

/// The OR-fold of a non-empty list holds of a row exactly when some member
/// holds of it, and it evaluates exactly when every member does.
pub proof fn lemma_or_all_eval(es: Seq<Expr>, row: CombinedCatalogRow)
    ensures
        spec_or_all(es) is None <==> es.len() == 0,
        es.len() > 0 ==> (spec_eval(spec_or_all(es)->0, row) <==> exists|i: int|
            0 <= i < es.len() && #[trigger] spec_eval(es[i], row)),
        es.len() > 0 ==> (spec_expr_valid(spec_or_all(es)->0) <==> forall|i: int|
            0 <= i < es.len() ==> #[trigger] spec_expr_valid(es[i])),
        es.len() > 0 ==> (spec_expr_eq_only(spec_or_all(es)->0) <==> forall|i: int|
            0 <= i < es.len() ==> #[trigger] spec_expr_eq_only(es[i])),
    decreases es.len(),
{
    if es.len() == 1 {
        assert(spec_or_all(es.drop_last()) is None);
        let e = spec_or_all(es)->0;
        assert(e == es[0]);
        if spec_eval(e, row) {
            assert(spec_eval(es[0], row));
        }
        if spec_expr_valid(e) {
            assert forall|i: int| 0 <= i < es.len() implies #[trigger] spec_expr_valid(es[i]) by {
                assert(es[i] == e);
            }
        }
        if spec_expr_eq_only(e) {
            assert forall|i: int| 0 <= i < es.len() implies #[trigger] spec_expr_eq_only(
                es[i],
            ) by {
                assert(es[i] == e);
            }
        }
    } else if es.len() > 1 {
        let rest = es.drop_last();
        let e = spec_or_all(es)->0;
        lemma_or_all_eval(rest, row);
        let q = spec_or_all(rest)->0;
        assert(e == Expr::Or(Box::new(q), Box::new(es.last())));
        assert(forall|i: int| 0 <= i < es.len() - 1 ==> #[trigger] rest[i] == es[i]);
        // Evaluation, forward: a member of the fold that holds is found.
        if spec_eval(q, row) {
            let j = choose|i: int| 0 <= i < rest.len() && #[trigger] spec_eval(rest[i], row);
            assert(spec_eval(es[j], row));
        }
        if spec_eval(es.last(), row) {
            assert(spec_eval(es[es.len() - 1], row));
        }
        // Evaluation, backward: a member that holds makes the fold hold.
        if exists|i: int| 0 <= i < es.len() && #[trigger] spec_eval(es[i], row) {
            let j = choose|i: int| 0 <= i < es.len() && #[trigger] spec_eval(es[i], row);
            if j < es.len() - 1 {
                assert(spec_eval(rest[j], row));
            }
        }
        // Validity and shape distribute over both operands.
        if spec_expr_valid(e) {
            assert forall|i: int| 0 <= i < es.len() implies #[trigger] spec_expr_valid(es[i]) by {
                if i < es.len() - 1 {
                    assert(spec_expr_valid(rest[i]));
                } else {
                    assert(es[i] == es.last());
                }
            }
        }
        if forall|i: int| 0 <= i < es.len() ==> #[trigger] spec_expr_valid(es[i]) {
            assert forall|i: int| 0 <= i < rest.len() implies #[trigger] spec_expr_valid(
                rest[i],
            ) by {
                assert(spec_expr_valid(es[i]));
            }
            assert(spec_expr_valid(es[es.len() - 1]));
        }
        if spec_expr_eq_only(e) {
            assert forall|i: int| 0 <= i < es.len() implies #[trigger] spec_expr_eq_only(
                es[i],
            ) by {
                if i < es.len() - 1 {
                    assert(spec_expr_eq_only(rest[i]));
                } else {
                    assert(es[i] == es.last());
                }
            }
        }
        if forall|i: int| 0 <= i < es.len() ==> #[trigger] spec_expr_eq_only(es[i]) {
            assert forall|i: int| 0 <= i < rest.len() implies #[trigger] spec_expr_eq_only(
                rest[i],
            ) by {
                assert(spec_expr_eq_only(es[i]));
            }
            assert(spec_expr_eq_only(es[es.len() - 1]));
        }
    }
}

/// The AND-fold of a non-empty list holds of a row exactly when every
/// member holds of it, and it evaluates exactly when every member does.
pub proof fn lemma_and_all_eval(es: Seq<Expr>, row: CombinedCatalogRow)
    ensures
        spec_and_all(es) is None <==> es.len() == 0,
        es.len() > 0 ==> (spec_eval(spec_and_all(es)->0, row) <==> forall|i: int|
            0 <= i < es.len() ==> #[trigger] spec_eval(es[i], row)),
        es.len() > 0 ==> (spec_expr_valid(spec_and_all(es)->0) <==> forall|i: int|
            0 <= i < es.len() ==> #[trigger] spec_expr_valid(es[i])),
        es.len() > 0 ==> (spec_expr_eq_only(spec_and_all(es)->0) <==> forall|i: int|
            0 <= i < es.len() ==> #[trigger] spec_expr_eq_only(es[i])),
    decreases es.len(),
{
    if es.len() == 1 {
        assert(spec_and_all(es.drop_last()) is None);
        let e = spec_and_all(es)->0;
        assert(e == es[0]);
        if spec_eval(e, row) {
            assert forall|i: int| 0 <= i < es.len() implies #[trigger] spec_eval(es[i], row) by {
                assert(es[i] == e);
            }
        }
        if forall|i: int| 0 <= i < es.len() ==> #[trigger] spec_eval(es[i], row) {
            assert(spec_eval(es[0], row));
        }
        if spec_expr_valid(e) {
            assert forall|i: int| 0 <= i < es.len() implies #[trigger] spec_expr_valid(es[i]) by {
                assert(es[i] == e);
            }
        }
        if spec_expr_eq_only(e) {
            assert forall|i: int| 0 <= i < es.len() implies #[trigger] spec_expr_eq_only(
                es[i],
            ) by {
                assert(es[i] == e);
            }
        }
    } else if es.len() > 1 {
        let rest = es.drop_last();
        let e = spec_and_all(es)->0;
        lemma_and_all_eval(rest, row);
        let q = spec_and_all(rest)->0;
        assert(e == Expr::And(Box::new(q), Box::new(es.last())));
        assert(forall|i: int| 0 <= i < es.len() - 1 ==> #[trigger] rest[i] == es[i]);
        // Evaluation, forward: the fold holding makes every member hold.
        if spec_eval(e, row) {
            assert forall|i: int| 0 <= i < es.len() implies #[trigger] spec_eval(es[i], row) by {
                if i < es.len() - 1 {
                    assert(spec_eval(rest[i], row));
                } else {
                    assert(es[i] == es.last());
                }
            }
        }
        // Evaluation, backward: all members holding makes the fold hold.
        if forall|i: int| 0 <= i < es.len() ==> #[trigger] spec_eval(es[i], row) {
            assert forall|i: int| 0 <= i < rest.len() implies #[trigger] spec_eval(
                rest[i],
                row,
            ) by {
                assert(spec_eval(es[i], row));
            }
            assert(spec_eval(es[es.len() - 1], row));
        }
        // Validity and shape distribute over both operands.
        if spec_expr_valid(e) {
            assert forall|i: int| 0 <= i < es.len() implies #[trigger] spec_expr_valid(es[i]) by {
                if i < es.len() - 1 {
                    assert(spec_expr_valid(rest[i]));
                } else {
                    assert(es[i] == es.last());
                }
            }
        }
        if forall|i: int| 0 <= i < es.len() ==> #[trigger] spec_expr_valid(es[i]) {
            assert forall|i: int| 0 <= i < rest.len() implies #[trigger] spec_expr_valid(
                rest[i],
            ) by {
                assert(spec_expr_valid(es[i]));
            }
            assert(spec_expr_valid(es[es.len() - 1]));
        }
        if spec_expr_eq_only(e) {
            assert forall|i: int| 0 <= i < es.len() implies #[trigger] spec_expr_eq_only(
                es[i],
            ) by {
                if i < es.len() - 1 {
                    assert(spec_expr_eq_only(rest[i]));
                } else {
                    assert(es[i] == es.last());
                }
            }
        }
        if forall|i: int| 0 <= i < es.len() ==> #[trigger] spec_expr_eq_only(es[i]) {
            assert forall|i: int| 0 <= i < rest.len() implies #[trigger] spec_expr_eq_only(
                rest[i],
            ) by {
                assert(spec_expr_eq_only(es[i]));
            }
            assert(spec_expr_eq_only(es[es.len() - 1]));
        }
    }
}

/// One of the columns a free-text entry may apply to.
#[derive(Clone, Copy, Debug, PartialEq, Eq, Structural)]
pub enum SearchContext {
    Hxl,
    HumanReadableName,
    Description,
}

impl SearchContext {
    /// Every context column, in a fixed order.
    pub fn all() -> (r: Vec<Self>)
        ensures
            r@ == seq![
                SearchContext::Hxl,
                SearchContext::HumanReadableName,
                SearchContext::Description,
            ],
    {
        let mut v: Vec<Self> = Vec::new();
        v.push(SearchContext::Hxl);
        v.push(SearchContext::HumanReadableName);
        v.push(SearchContext::Description);
        proof {
            assert(v@ =~= seq![
                SearchContext::Hxl,
                SearchContext::HumanReadableName,
                SearchContext::Description,
            ]);
        }
        v
    }

    /// The combined-view column the context stands for.
    pub open spec fn spec_column(self) -> Column {
        match self {
            SearchContext::Hxl => Column::HxlTag,
            SearchContext::HumanReadableName => Column::HumanReadableName,
            SearchContext::Description => Column::Description,
        }
    }

    /// Picks the combined-view column the context stands for.
    pub fn column(self) -> (c: Column)
        ensures
            c == self.spec_column(),
    {
        match self {
            SearchContext::Hxl => Column::HxlTag,
            SearchContext::HumanReadableName => Column::HumanReadableName,
            SearchContext::Description => Column::Description,
        }
    }
}

/// One free-text entry: a text and the context columns it applies to.
#[derive(Debug)]
pub struct SearchText {
    pub text: String,
    pub context: Vec<SearchContext>,
}

impl Default for SearchText {
    /// An empty text applying to every context column.
    fn default() -> (r: Self)
        ensures
            r.text@ == Seq::<char>::empty(),
            r.context@ == seq![
                SearchContext::Hxl,
                SearchContext::HumanReadableName,
                SearchContext::Description,
            ],
    {
        SearchText { text: String::new(), context: SearchContext::all() }
    }
}

/// Years to search over.
#[derive(Debug)]
pub struct Year(pub Vec<String>);

/// Geometry levels to search over.
#[derive(Debug)]
pub struct GeometryLevel(pub Vec<String>);

/// Source data release names to search over.
#[derive(Debug)]
pub struct SourceDataRelease(pub Vec<String>);

/// Data publisher names to search over.
#[derive(Debug)]
pub struct DataPublisher(pub Vec<String>);

/// Countries to be included in the search.
#[derive(Debug)]
pub struct Country(pub Vec<String>);

/// Census tables (source metric identifiers) to be included in the search.
#[derive(Debug)]
pub struct SourceMetricId(pub Vec<String>);

/// The OR of equality predicates binding one column to each literal of a
/// set; `None` for an empty set.
pub open spec fn spec_dimension_expr(c: Column, vals: Seq<String>) -> Option<Expr> {
    spec_or_all(vals.map_values(|v: String| Expr::Eq(c, v)))
}

/// Builds the OR of equality predicates over one column for every literal
/// in the set.
fn dimension_to_expr(c: Column, vals: &Vec<String>) -> (r: Option<Expr>)
    ensures
        r == spec_dimension_expr(c, vals@),
{
    let ghost f = |v: String| Expr::Eq(c, v);
    let mut exprs: Vec<Expr> = Vec::new();
    let mut i: usize = 0;
    proof {
        assert(exprs@ =~= vals@.take(0).map_values(f));
    }
    while i < vals.len()
        invariant
            0 <= i <= vals.len(),
            f == (|v: String| Expr::Eq(c, v)),
            exprs@ == vals@.take(i as int).map_values(f),
        decreases vals.len() - i,
    {
        let v = vals[i].clone();
        proof {
            assert(v == vals@[i as int]);
        }
        exprs.push(Expr::Eq(c, v));
        proof {
            assert(Expr::Eq(c, v) == f(vals@[i as int]));
            assert(vals@.take(i as int + 1).map_values(f) =~= vals@.take(i as int).map_values(
                f,
            ).push(f(vals@[i as int])));
            assert(exprs@ == vals@.take(i as int + 1).map_values(f));
        }
        i += 1;
    }
    proof {
        assert(vals@.take(vals@.len() as int) =~= vals@);
    }
    combine_exprs_with_or(exprs)
}

/// The OR of equality predicates a free-text entry stands for: the entry's
/// text, equated against each of its context columns; `None` for an entry
/// with no context columns.
pub open spec fn spec_text_expr(t: SearchText) -> Option<Expr> {
    spec_or_all(t.context@.map_values(|sc: SearchContext| Expr::Eq(sc.spec_column(), t.text)))
}

impl SearchText {
    /// Builds the predicate this entry stands for.
    pub fn to_expr(&self) -> (r: Option<Expr>)
        ensures
            r == spec_text_expr(*self),
    {
        let ghost f = |sc: SearchContext| Expr::Eq(sc.spec_column(), self.text);
        let mut exprs: Vec<Expr> = Vec::new();
        let mut i: usize = 0;
        proof {
            assert(exprs@ =~= self.context@.take(0).map_values(f));
        }
        while i < self.context.len()
            invariant
                0 <= i <= self.context.len(),
                f == (|sc: SearchContext| Expr::Eq(sc.spec_column(), self.text)),
                exprs@ == self.context@.take(i as int).map_values(f),
            decreases self.context.len() - i,
        {
            let sc = self.context[i];
            let t = self.text.clone();
            proof {
                assert(t == self.text);
            }
            exprs.push(Expr::Eq(sc.column(), t));
            proof {
                assert(Expr::Eq(sc.spec_column(), t) == f(self.context@[i as int]));
                assert(self.context@.take(i as int + 1).map_values(f) =~= self.context@.take(
                    i as int,
                ).map_values(f).push(f(self.context@[i as int])));
                assert(exprs@ == self.context@.take(i as int + 1).map_values(f));
            }
            i += 1;
        }
        proof {
            assert(self.context@.take(self.context@.len() as int) =~= self.context@);
        }
        combine_exprs_with_or(exprs)
    }
}

/// The predicates an optional expression contributes to a conjunction:
/// one for `Some`, none for `None`.
pub open spec fn spec_opt_expr_seq(o: Option<Expr>) -> Seq<Expr> {
    match o {
        Some(e) => seq![e],
        None => Seq::empty(),
    }
}

/// The predicates the free-text entries contribute, in entry order.  An
/// entry with no context columns contributes none.
pub open spec fn spec_texts_exprs(ts: Seq<SearchText>) -> Seq<Expr>
    decreases ts.len(),
{
    if ts.len() == 0 {
        Seq::empty()
    } else {
        spec_texts_exprs(ts.drop_last()) + spec_opt_expr_seq(spec_text_expr(ts.last()))
    }
}

/// A search request: one free-text dimension and six optional literal-set
/// dimensions.
#[derive(Debug)]
pub struct SearchRequest {
    pub text: Vec<SearchText>,
    pub year: Option<Year>,
    pub geometry_level: Option<GeometryLevel>,
    pub source_data_release: Option<SourceDataRelease>,
    pub data_publisher: Option<DataPublisher>,
    pub country: Option<Country>,
    pub census_table: Option<SourceMetricId>,
}

/// The combined free-text predicate: the OR of every entry's predicate,
/// so that a row matches any of the texts in their respective contexts;
/// `None` when no entry contributes a predicate.
pub open spec fn spec_texts_combined(ts: Seq<SearchText>) -> Option<Expr> {
    spec_or_all(spec_texts_exprs(ts))
}

/// Every predicate a request contributes, in a fixed order: the combined
/// free-text predicate, then one OR of equality predicates for each
/// present literal-set dimension.  An absent dimension, an empty literal
/// set and an entry without context columns contribute nothing.
pub open spec fn spec_request_exprs(req: SearchRequest) -> Seq<Expr> {
    spec_opt_expr_seq(spec_texts_combined(req.text@)) + spec_opt_expr_seq(
        match req.year {
            Some(y) => spec_dimension_expr(Column::ReleaseReferencePeriodStart, y.0@),
            None => None,
        },
    ) + spec_opt_expr_seq(
        match req.geometry_level {
            Some(g) => spec_dimension_expr(Column::GeometryLevel, g.0@),
            None => None,
        },
    ) + spec_opt_expr_seq(
        match req.source_data_release {
            Some(s) => spec_dimension_expr(Column::ReleaseName, s.0@),
            None => None,
        },
    ) + spec_opt_expr_seq(
        match req.data_publisher {
            Some(d) => spec_dimension_expr(Column::DataPublisherName, d.0@),
            None => None,
        },
    ) + spec_opt_expr_seq(
        match req.country {
            Some(c) => spec_dimension_expr(Column::Country, c.0@),
            None => None,
        },
    ) + spec_opt_expr_seq(
        match req.census_table {
            Some(s) => spec_dimension_expr(Column::SourceMetricId, s.0@),
            None => None,
        },
    )
}

/// The single predicate a request stands for: the AND of every predicate
/// it contributes, or `None` for a request that contributes none.
pub open spec fn spec_request_expr(req: SearchRequest) -> Option<Expr> {
    spec_and_all(spec_request_exprs(req))
}

/// Whether a row satisfies a request: every contributed predicate holds of
/// it; a request that contributes no predicate matches every row.
pub open spec fn spec_row_matches(req: SearchRequest, row: CombinedCatalogRow) -> bool {
    match spec_request_expr(req) {
        None => true,
        Some(e) => spec_eval(e, row),
    }
}

/// The rows of a view an expression keeps, in the view's row order.
pub open spec fn spec_filtered(rows: Seq<CombinedCatalogRow>, e: Expr) -> Seq<CombinedCatalogRow> {
    rows.filter(|r: CombinedCatalogRow| spec_eval(e, r))
}

/// What a search returns: the rows of the combined view that satisfy the
/// request, in the view's row order.
pub open spec fn spec_search(req: SearchRequest, rows: Seq<CombinedCatalogRow>) -> Seq<
    CombinedCatalogRow,
> {
    match spec_request_expr(req) {
        None => rows,
        Some(e) => spec_filtered(rows, e),
    }
}

impl SearchRequest {
    /// An empty request: no text entries, every dimension absent.
    pub fn new() -> (r: Self)
        ensures
            r.text@ == Seq::<SearchText>::empty(),
            r.year is None,
            r.geometry_level is None,
            r.source_data_release is None,
            r.data_publisher is None,
            r.country is None,
            r.census_table is None,
    {
        Self {
            text: Vec::new(),
            year: None,
            geometry_level: None,
            source_data_release: None,
            data_publisher: None,
            country: None,
            census_table: None,
        }
    }

    /// Restricts the request to one country.
    pub fn with_country(self, country: &str) -> (r: Self)
        ensures
            r.country matches Some(c) && c.0@.len() == 1 && c.0@[0]@ == country@,
            r.text == self.text,
            r.year == self.year,
            r.geometry_level == self.geometry_level,
            r.source_data_release == self.source_data_release,
            r.data_publisher == self.data_publisher,
            r.census_table == self.census_table,
    {
        let mut vals: Vec<String> = Vec::new();
        vals.push(String::from_str(country));
        Self { country: Some(Country(vals)), ..self }
    }

    /// Restricts the request to one data publisher.
    pub fn with_data_publisher(self, data_publisher: &str) -> (r: Self)
        ensures
            r.data_publisher matches Some(d) && d.0@.len() == 1 && d.0@[0]@ == data_publisher@,
            r.text == self.text,
            r.year == self.year,
            r.geometry_level == self.geometry_level,
            r.source_data_release == self.source_data_release,
            r.country == self.country,
            r.census_table == self.census_table,
    {
        let mut vals: Vec<String> = Vec::new();
        vals.push(String::from_str(data_publisher));
        Self { data_publisher: Some(DataPublisher(vals)), ..self }
    }

    /// Restricts the request to one source data release.
    pub fn with_source_data_release(self, source_data_release: &str) -> (r: Self)
        ensures
            r.source_data_release matches Some(s) && s.0@.len() == 1 && s.0@[0]@
                == source_data_release@,
            r.text == self.text,
            r.year == self.year,
            r.geometry_level == self.geometry_level,
            r.data_publisher == self.data_publisher,
            r.country == self.country,
            r.census_table == self.census_table,
    {
        let mut vals: Vec<String> = Vec::new();
        vals.push(String::from_str(source_data_release));
        Self { source_data_release: Some(SourceDataRelease(vals)), ..self }
    }

    /// Restricts the request to one year.
    pub fn with_year(self, year: &str) -> (r: Self)
        ensures
            r.year matches Some(y) && y.0@.len() == 1 && y.0@[0]@ == year@,
            r.text == self.text,
            r.geometry_level == self.geometry_level,
            r.source_data_release == self.source_data_release,
            r.data_publisher == self.data_publisher,
            r.country == self.country,
            r.census_table == self.census_table,
    {
        let mut vals: Vec<String> = Vec::new();
        vals.push(String::from_str(year));
        Self { year: Some(Year(vals)), ..self }
    }

    /// Restricts the request to one geometry level.
    pub fn with_geometry_level(self, geometry_level: &str) -> (r: Self)
        ensures
            r.geometry_level matches Some(g) && g.0@.len() == 1 && g.0@[0]@ == geometry_level@,
            r.text == self.text,
            r.year == self.year,
            r.source_data_release == self.source_data_release,
            r.data_publisher == self.data_publisher,
            r.country == self.country,
            r.census_table == self.census_table,
    {
        let mut vals: Vec<String> = Vec::new();
        vals.push(String::from_str(geometry_level));
        Self { geometry_level: Some(GeometryLevel(vals)), ..self }
    }

    /// Restricts the request to one census table.
    pub fn with_census_table(self, census_table: &str) -> (r: Self)
        ensures
            r.census_table matches Some(s) && s.0@.len() == 1 && s.0@[0]@ == census_table@,
            r.text == self.text,
            r.year == self.year,
            r.geometry_level == self.geometry_level,
            r.source_data_release == self.source_data_release,
            r.data_publisher == self.data_publisher,
            r.country == self.country,
    {
        let mut vals: Vec<String> = Vec::new();
        vals.push(String::from_str(census_table));
        Self { census_table: Some(SourceMetricId(vals)), ..self }
    }

    /// Builds the predicate this request stands for: `None` when the
    /// request contributes no predicate and so matches every row.
    #[verifier::rlimit(60)]
    pub fn to_expr(&self) -> (r: Option<Expr>)
        ensures
            r == spec_request_expr(*self),
    {
        let mut exprs: Vec<Expr> = Vec::new();
        let mut i: usize = 0;
        proof {
            assert(exprs@ =~= spec_texts_exprs(self.text@.take(0)));
        }
        while i < self.text.len()
            invariant
                0 <= i <= self.text.len(),
                exprs@ == spec_texts_exprs(self.text@.take(i as int)),
            decreases self.text.len() - i,
        {
            let o = self.text[i].to_expr();
            proof {
                assert(self.text@.take(i as int + 1).drop_last() =~= self.text@.take(i as int));
                assert(self.text@.take(i as int + 1).last() == self.text@[i as int]);
            }
            match o {
                Some(e) => {
                    exprs.push(e);
                    proof {
                        assert(exprs@ =~= spec_texts_exprs(self.text@.take(i as int + 1)));
                    }
                }
                None => {
                    proof {
                        assert(exprs@ =~= spec_texts_exprs(self.text@.take(i as int + 1)));
                    }
                }
            }
            i += 1;
        }
        proof {
            assert(self.text@.take(self.text@.len() as int) =~= self.text@);
        }
        let o_text = combine_exprs_with_or(exprs);
        let mut exprs: Vec<Expr> = Vec::new();
        if let Some(e) = o_text {
            exprs.push(e);
        }
        proof {
            assert(exprs@ =~= spec_opt_expr_seq(spec_texts_combined(self.text@)));
        }
        let o_year = match &self.year {
            Some(y) => dimension_to_expr(Column::ReleaseReferencePeriodStart, &y.0),
            None => None,
        };
        let o_geom = match &self.geometry_level {
            Some(g) => dimension_to_expr(Column::GeometryLevel, &g.0),
            None => None,
        };
        let o_release = match &self.source_data_release {
            Some(s) => dimension_to_expr(Column::ReleaseName, &s.0),
            None => None,
        };
        let o_publisher = match &self.data_publisher {
            Some(d) => dimension_to_expr(Column::DataPublisherName, &d.0),
            None => None,
        };
        let o_country = match &self.country {
            Some(c) => dimension_to_expr(Column::Country, &c.0),
            None => None,
        };
        let o_census = match &self.census_table {
            Some(s) => dimension_to_expr(Column::SourceMetricId, &s.0),
            None => None,
        };
        let ghost exprs0 = exprs@;
        if let Some(e) = o_year {
            exprs.push(e);
        }
        let ghost exprs1 = exprs@;
        if let Some(e) = o_geom {
            exprs.push(e);
        }
        let ghost exprs2 = exprs@;
        if let Some(e) = o_release {
            exprs.push(e);
        }
        let ghost exprs3 = exprs@;
        if let Some(e) = o_publisher {
            exprs.push(e);
        }
        let ghost exprs4 = exprs@;
        if let Some(e) = o_country {
            exprs.push(e);
        }
        let ghost exprs5 = exprs@;
        if let Some(e) = o_census {
            exprs.push(e);
        }
        proof {
            assert(exprs1 =~= exprs0 + spec_opt_expr_seq(
                match self.year {
                    Some(y) => spec_dimension_expr(Column::ReleaseReferencePeriodStart, y.0@),
                    None => None,
                },
            ));
            assert(exprs2 =~= exprs1 + spec_opt_expr_seq(
                match self.geometry_level {
                    Some(g) => spec_dimension_expr(Column::GeometryLevel, g.0@),
                    None => None,
                },
            ));
            assert(exprs3 =~= exprs2 + spec_opt_expr_seq(
                match self.source_data_release {
                    Some(s) => spec_dimension_expr(Column::ReleaseName, s.0@),
                    None => None,
                },
            ));
            assert(exprs4 =~= exprs3 + spec_opt_expr_seq(
                match self.data_publisher {
                    Some(d) => spec_dimension_expr(Column::DataPublisherName, d.0@),
                    None => None,
                },
            ));
            assert(exprs5 =~= exprs4 + spec_opt_expr_seq(
                match self.country {
                    Some(c) => spec_dimension_expr(Column::Country, c.0@),
                    None => None,
                },
            ));
            assert(exprs@ =~= exprs5 + spec_opt_expr_seq(
                match self.census_table {
                    Some(s) => spec_dimension_expr(Column::SourceMetricId, s.0@),
                    None => None,
                },
            ));
            assert(exprs@ =~= spec_request_exprs(*self));
        }
        combine_exprs_with_and(exprs)
    }
}

impl Default for SearchRequest {
    /// The empty request.
    fn default() -> (r: Self)
        ensures
            r.text@ == Seq::<SearchText>::empty(),
            r.year is None,
            r.geometry_level is None,
            r.source_data_release is None,
            r.data_publisher is None,
            r.country is None,
            r.census_table is None,
    {
        Self::new()
    }
}

/// Whether every member of a list of predicates is built from equality
/// predicates alone.
pub open spec fn spec_all_eq_only(es: Seq<Expr>) -> bool {
    forall|i: int| 0 <= i < es.len() ==> spec_expr_eq_only(#[trigger] es[i])
}

/// Equality-only membership is preserved by concatenation.
proof fn lemma_all_eq_only_add(a: Seq<Expr>, b: Seq<Expr>)
    requires
        spec_all_eq_only(a),
        spec_all_eq_only(b),
    ensures
        spec_all_eq_only(a + b),
{
    assert forall|i: int| 0 <= i < (a + b).len() implies spec_expr_eq_only(
        #[trigger] (a + b)[i],
    ) by {
        if i < a.len() {
            assert((a + b)[i] == a[i]);
        } else {
            assert((a + b)[i] == b[i - a.len()]);
        }
    }
}

/// The predicate of one literal-set dimension is built from equality
/// predicates alone.
proof fn lemma_dimension_expr_eq_only(c: Column, vals: Seq<String>)
    ensures
        spec_dimension_expr(c, vals) matches Some(e) ==> spec_expr_eq_only(e),
{
    let es = vals.map_values(|v: String| Expr::Eq(c, v));
    let row = vstd::pervasive::arbitrary::<CombinedCatalogRow>();
    lemma_or_all_eval(es, row);
    if es.len() > 0 {
        assert forall|i: int| 0 <= i < es.len() implies #[trigger] spec_expr_eq_only(es[i]) by {
            assert(es[i] == Expr::Eq(c, vals[i]));
        }
    }
}

/// The predicate of one free-text entry is built from equality predicates
/// alone.
proof fn lemma_text_expr_eq_only(t: SearchText)
    ensures
        spec_text_expr(t) matches Some(e) ==> spec_expr_eq_only(e),
{
    let es = t.context@.map_values(|sc: SearchContext| Expr::Eq(sc.spec_column(), t.text));
    let row = vstd::pervasive::arbitrary::<CombinedCatalogRow>();
    lemma_or_all_eval(es, row);
    if es.len() > 0 {
        assert forall|i: int| 0 <= i < es.len() implies #[trigger] spec_expr_eq_only(es[i]) by {
            assert(es[i] == Expr::Eq(t.context@[i].spec_column(), t.text));
        }
    }
}

/// The predicates the free-text entries contribute are built from
/// equality predicates alone.
proof fn lemma_texts_exprs_eq_only(ts: Seq<SearchText>)
    ensures
        spec_all_eq_only(spec_texts_exprs(ts)),
    decreases ts.len(),
{
    if ts.len() > 0 {
        lemma_texts_exprs_eq_only(ts.drop_last());
        lemma_text_expr_eq_only(ts.last());
        lemma_all_eq_only_add(
            spec_texts_exprs(ts.drop_last()),
            spec_opt_expr_seq(spec_text_expr(ts.last())),
        );
    }
}

/// A request's predicate is built from equality predicates alone, and so
/// always evaluates.
pub proof fn lemma_request_expr_valid(req: SearchRequest)
    ensures
        spec_request_expr(req) matches Some(e) ==> spec_expr_eq_only(e) && spec_expr_valid(e),
{
    lemma_texts_exprs_eq_only(req.text@);
    let o_year = match req.year {
        Some(y) => spec_dimension_expr(Column::ReleaseReferencePeriodStart, y.0@),
        None => None,
    };
    let o_geom = match req.geometry_level {
        Some(g) => spec_dimension_expr(Column::GeometryLevel, g.0@),
        None => None,
    };
    let o_release = match req.source_data_release {
        Some(x) => spec_dimension_expr(Column::ReleaseName, x.0@),
        None => None,
    };
    let o_publisher = match req.data_publisher {
        Some(d) => spec_dimension_expr(Column::DataPublisherName, d.0@),
        None => None,
    };
    let o_country = match req.country {
        Some(x) => spec_dimension_expr(Column::Country, x.0@),
        None => None,
    };
    let o_census = match req.census_table {
        Some(x) => spec_dimension_expr(Column::SourceMetricId, x.0@),
        None => None,
    };
    if req.year is Some {
        lemma_dimension_expr_eq_only(Column::ReleaseReferencePeriodStart, (req.year->0).0@);
    }
    if req.geometry_level is Some {
        lemma_dimension_expr_eq_only(Column::GeometryLevel, (req.geometry_level->0).0@);
    }
    if req.source_data_release is Some {
        lemma_dimension_expr_eq_only(Column::ReleaseName, (req.source_data_release->0).0@);
    }
    if req.data_publisher is Some {
        lemma_dimension_expr_eq_only(Column::DataPublisherName, (req.data_publisher->0).0@);
    }
    if req.country is Some {
        lemma_dimension_expr_eq_only(Column::Country, (req.country->0).0@);
    }
    if req.census_table is Some {
        lemma_dimension_expr_eq_only(Column::SourceMetricId, (req.census_table->0).0@);
    }
    let s0 = spec_opt_expr_seq(spec_texts_combined(req.text@));
    let arow = vstd::pervasive::arbitrary::<CombinedCatalogRow>();
    lemma_or_all_eval(spec_texts_exprs(req.text@), arow);
    assert(spec_all_eq_only(s0)) by {
        match spec_texts_combined(req.text@) {
            None => {}
            Some(te) => {
                assert(spec_expr_eq_only(te));
                assert(s0 =~= seq![te]);
                assert(s0[0] == te);
            }
        }
    }
    let s1 = s0 + spec_opt_expr_seq(o_year);
    let s2 = s1 + spec_opt_expr_seq(o_geom);
    let s3 = s2 + spec_opt_expr_seq(o_release);
    let s4 = s3 + spec_opt_expr_seq(o_publisher);
    let s5 = s4 + spec_opt_expr_seq(o_country);
    let s6 = s5 + spec_opt_expr_seq(o_census);
    lemma_all_eq_only_add(s0, spec_opt_expr_seq(o_year));
    lemma_all_eq_only_add(s1, spec_opt_expr_seq(o_geom));
    lemma_all_eq_only_add(s2, spec_opt_expr_seq(o_release));
    lemma_all_eq_only_add(s3, spec_opt_expr_seq(o_publisher));
    lemma_all_eq_only_add(s4, spec_opt_expr_seq(o_country));
    lemma_all_eq_only_add(s5, spec_opt_expr_seq(o_census));
    assert(spec_request_exprs(req) == s6);
    let row = vstd::pervasive::arbitrary::<CombinedCatalogRow>();
    lemma_and_all_eval(s6, row);
    match spec_request_expr(req) {
        Some(e) => lemma_eq_only_valid(e),
        None => (),
    }
}

/// What a search returns: the matching rows of the combined view, in the
/// view's row order.
#[derive(Debug)]
pub struct SearchResults(pub Vec<CombinedCatalogRow>);

impl View for SearchResults {
    type V = Seq<CombinedCatalogRow>;

    open spec fn view(&self) -> Seq<CombinedCatalogRow> {
        self.0@
    }
}

impl SearchRequest {
    /// Runs the request against the combined view of the given catalog.
    pub fn search_results(&self, metadata: &crate::metadata::Metadata) -> (r: SearchResults)
        ensures
            r@ == spec_search(*self, metadata.spec_combined()),
    {
        let table = metadata.combined_metric_source_geometry();
        match self.to_expr() {
            None => SearchResults(table.0),
            Some(e) => {
                proof {
                    lemma_request_expr_valid(*self);
                }
                let ghost p = |row: CombinedCatalogRow| spec_eval(e, row);
                let mut rows: Vec<CombinedCatalogRow> = Vec::new();
                let mut i: usize = 0;
                proof {
                    reveal(Seq::filter);
                    assert(rows@ =~= table.0@.take(0).filter(p));
                }
                while i < table.0.len()
                    invariant
                        0 <= i <= table.0@.len(),
                        spec_expr_valid(e),
                        p == (|row: CombinedCatalogRow| spec_eval(e, row)),
                        rows@ == table.0@.take(i as int).filter(p),
                    decreases table.0@.len() - i,
                {
                    let row = &table.0[i];
                    if e.eval(row).unwrap() {
                        rows.push(row.clone());
                    }
                    proof {
                        broadcast use Seq::lemma_filter_push;

                        assert(table.0@.take(i as int + 1) =~= table.0@.take(i as int).push(
                            table.0@[i as int],
                        ));
                    }
                    i += 1;
                }
                proof {
                    assert(table.0@.take(table.0@.len() as int) =~= table.0@);
                }
                SearchResults(rows)
            },
        }
    }
}

/// A row passes a filter exactly when the view holds it and the predicate
/// accepts it.
pub proof fn lemma_filtered_membership(
    rows: Seq<CombinedCatalogRow>,
    e: Expr,
    row: CombinedCatalogRow,
)
    ensures
        spec_filtered(rows, e).contains(row) <==> (rows.contains(row) && spec_eval(e, row)),
{
    broadcast use Seq::lemma_filter_contains;
    broadcast use Seq::lemma_filter_contains_rev;
    broadcast use Seq::lemma_filter_pred;

    let p = |r: CombinedCatalogRow| spec_eval(e, r);
    if spec_filtered(rows, e).contains(row) {
        let j = choose|j: int| 0 <= j < rows.filter(p).len() && rows.filter(p)[j] == row;
        assert(p(rows.filter(p)[j]));
    }
    if rows.contains(row) && spec_eval(e, row) {
        let j = choose|j: int| 0 <= j < rows.len() && rows[j] == row;
        assert(p(rows[j]));
        assert(rows.filter(p).contains(rows[j]));
    }
}

/// LAW (empty-filter identity): a request with no text entries and every
/// dimension absent contributes no predicate, so the search returns every
/// row of the view, in the same count and order.
pub proof fn lemma_empty_request_identity(req: SearchRequest, rows: Seq<CombinedCatalogRow>)
    requires
        req.text@.len() == 0,
        req.year is None,
        req.geometry_level is None,
        req.source_data_release is None,
        req.data_publisher is None,
        req.country is None,
        req.census_table is None,
    ensures
        spec_search(req, rows) == rows,
{
    assert(spec_texts_exprs(req.text@) =~= Seq::<Expr>::empty());
    assert(spec_request_exprs(req) =~= Seq::<Expr>::empty());
}

/// LAW (OR within a dimension): a literal-set dimension holding two
/// literals keeps exactly the union of the rows either literal keeps on
/// its own.
pub proof fn lemma_dimension_or_union(
    rows: Seq<CombinedCatalogRow>,
    c: Column,
    a: String,
    b: String,
    row: CombinedCatalogRow,
)
    ensures
        spec_dimension_expr(c, seq![a, b]) is Some,
        spec_dimension_expr(c, seq![a]) is Some,
        spec_dimension_expr(c, seq![b]) is Some,
        spec_filtered(rows, spec_dimension_expr(c, seq![a, b])->0).contains(row) <==> (
        spec_filtered(rows, spec_dimension_expr(c, seq![a])->0).contains(row) || spec_filtered(
            rows,
            spec_dimension_expr(c, seq![b])->0,
        ).contains(row)),
{
    let ea = Expr::Eq(c, a);
    let eb = Expr::Eq(c, b);
    assert(seq![a, b].map_values(|v: String| Expr::Eq(c, v)) =~= seq![ea, eb]);
    assert(seq![a].map_values(|v: String| Expr::Eq(c, v)) =~= seq![ea]);
    assert(seq![b].map_values(|v: String| Expr::Eq(c, v)) =~= seq![eb]);
    assert(seq![ea, eb].drop_last() =~= seq![ea]);
    assert(seq![ea].drop_last() =~= Seq::<Expr>::empty());
    assert(seq![eb].drop_last() =~= Seq::<Expr>::empty());
    assert(seq![ea, eb].last() == eb && seq![ea].last() == ea && seq![eb].last() == eb);
    assert(spec_or_all(seq![ea, eb]) == Some(Expr::Or(Box::new(ea), Box::new(eb)))) by {
        reveal_with_fuel(spec_or_all, 3);
    }
    assert(spec_or_all(seq![ea]) == Some(ea));
    assert(spec_or_all(seq![eb]) == Some(eb));
    let e_ab = spec_dimension_expr(c, seq![a, b])->0;
    lemma_filtered_membership(rows, e_ab, row);
    lemma_filtered_membership(rows, ea, row);
    lemma_filtered_membership(rows, eb, row);
}

/// LAW (AND across dimensions): a request that sets exactly the year and
/// country dimensions keeps a row exactly when the year-only request and
/// the country-only request both keep it.
pub proof fn lemma_and_across_dimensions(
    rows: Seq<CombinedCatalogRow>,
    req: SearchRequest,
    req_year: SearchRequest,
    req_country: SearchRequest,
    row: CombinedCatalogRow,
)
    requires
        req.text@.len() == 0,
        req.geometry_level is None,
        req.source_data_release is None,
        req.data_publisher is None,
        req.census_table is None,
        req.year matches Some(y) && y.0@.len() > 0,
        req.country matches Some(ct) && ct.0@.len() > 0,
        req_year.text@.len() == 0,
        req_year.geometry_level is None,
        req_year.source_data_release is None,
        req_year.data_publisher is None,
        req_year.census_table is None,
        req_year.country is None,
        req_year.year == req.year,
        req_country.text@.len() == 0,
        req_country.geometry_level is None,
        req_country.source_data_release is None,
        req_country.data_publisher is None,
        req_country.census_table is None,
        req_country.year is None,
        req_country.country == req.country,
    ensures
        spec_search(req, rows).contains(row) <==> (spec_search(req_year, rows).contains(row)
            && spec_search(req_country, rows).contains(row)),
{
    let arb = vstd::pervasive::arbitrary::<CombinedCatalogRow>();
    let o_year = spec_dimension_expr(Column::ReleaseReferencePeriodStart, (req.year->0).0@);
    let o_country = spec_dimension_expr(Column::Country, (req.country->0).0@);
    lemma_or_all_eval(
        (req.year->0).0@.map_values(|v: String| Expr::Eq(Column::ReleaseReferencePeriodStart, v)),
        arb,
    );
    lemma_or_all_eval((req.country->0).0@.map_values(|v: String| Expr::Eq(Column::Country, v)), arb);
    let e_y = o_year->0;
    let e_c = o_country->0;
    assert(spec_texts_exprs(req.text@) =~= Seq::<Expr>::empty());
    assert(spec_texts_exprs(req_year.text@) =~= Seq::<Expr>::empty());
    assert(spec_texts_exprs(req_country.text@) =~= Seq::<Expr>::empty());
    assert(spec_request_exprs(req) =~= seq![e_y, e_c]);
    assert(spec_request_exprs(req_year) =~= seq![e_y]);
    assert(spec_request_exprs(req_country) =~= seq![e_c]);
    assert(seq![e_y, e_c].drop_last() =~= seq![e_y]);
    assert(seq![e_y].drop_last() =~= Seq::<Expr>::empty());
    assert(seq![e_c].drop_last() =~= Seq::<Expr>::empty());
    assert(seq![e_y, e_c].last() == e_c && seq![e_y].last() == e_y && seq![e_c].last() == e_c);
    assert(spec_and_all(seq![e_y, e_c]) == Some(Expr::And(Box::new(e_y), Box::new(e_c)))) by {
        reveal_with_fuel(spec_and_all, 3);
    }
    assert(spec_and_all(seq![e_y]) == Some(e_y));
    assert(spec_and_all(seq![e_c]) == Some(e_c));
    let e_yc = spec_request_expr(req)->0;
    lemma_filtered_membership(rows, e_yc, row);
    lemma_filtered_membership(rows, e_y, row);
    lemma_filtered_membership(rows, e_c, row);
}

} // verus!
