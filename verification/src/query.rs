//! The syntax-tree layer: parsing a page into a concrete tree and running
//! the fixed set of structural row queries against it.
//!
//! The tree and the compiled queries are opaque values of the tree-sitter
//! library.  Their contents are named by uninterpreted spec functions:
//! `tree_text` ties a tree to the document it was parsed from,
//! `pattern_text` ties a compiled query to its pattern, and
//! `query_captures` names the capture texts that executing a pattern against
//! a document yields.  Everything downstream of the captures is verified.

use vstd::prelude::*;
use vstd::string::*;

use crate::errors::{ErrorView, KojiError};

verus! {

#[verifier::external_type_specification]
#[verifier::external_body]
pub struct ExTree(tree_sitter::Tree);

#[verifier::external_type_specification]
#[verifier::external_body]
pub struct ExQuery(tree_sitter::Query);

/// The document text that a syntax tree stands for.
pub uninterp spec fn tree_text(t: tree_sitter::Tree) -> Seq<char>;

/// The pattern text that a compiled query was built from.
pub uninterp spec fn pattern_text(q: tree_sitter::Query) -> Seq<char>;

/// The captures yielded by executing the query compiled from `pattern`
/// against the tree parsed from `body`: one row per match, in document
/// order; within a row, the source text of each captured node, in capture
/// order.  A function of the pattern and the document text alone.
pub uninterp spec fn query_captures(pattern: Seq<char>, body: Seq<char>) -> Seq<Seq<Seq<char>>>;

/// Whether the HTML grammar can produce a tree for this text: the
/// deterministic success of `Parser::parse` on it.
pub uninterp spec fn html_parses(body: Seq<char>) -> bool;

/// Whether a pattern compiles against the HTML grammar: the deterministic
/// success of `Query::new` on it.
pub uninterp spec fn compiles(pattern: Seq<char>) -> bool;

/// Relies on `tree_sitter::Parser` (`new`, then `set_language` with the
/// grammar of `tree_sitter_html::language`, then `parse` with no old tree):
/// parsing is deterministic and the produced tree represents exactly the
/// given text; `parse` returns `None` only when no tree can be produced,
/// and whether it does is itself a function of the text.
#[verifier::external_body]
fn ts_parse_html(body: &str) -> (r: Option<tree_sitter::Tree>)
    ensures
        r is Some <==> html_parses(body@),
        r matches Some(t) ==> tree_text(t) == body@,
{
    let mut parser = tree_sitter::Parser::new();
    if parser.set_language(&tree_sitter_html::language()).is_err() {
        return None;
    }
    parser.parse(body, None)
}

/// Relies on `tree_sitter::Query::new` with the grammar of
/// `tree_sitter_html::language`: compilation is deterministic and the
/// compiled query stands for exactly the given pattern; a malformed pattern
/// is reported through the error's message, and whether compilation
/// succeeds is itself a function of the pattern.
#[verifier::external_body]
fn ts_compile_query(pattern: &str) -> (r: Result<tree_sitter::Query, String>)
    ensures
        r is Ok <==> compiles(pattern@),
        r matches Ok(q) ==> pattern_text(q) == pattern@,
{
    tree_sitter::Query::new(&tree_sitter_html::language(), pattern).map_err(|e| format!("{e}"))
}

/// Relies on `tree_sitter::QueryCursor::matches` over the tree's root node,
/// with the document bytes as text provider (so `#eq?` predicates are
/// applied), and on `QueryMatch::captures` and `Node::utf8_text`: matches
/// come in document order, each carrying its captured nodes' source texts
/// in capture order, and the outcome is a function of the pattern and the
/// document text alone.  Querying reads the tree through a shared borrow
/// and cannot change it.
#[verifier::external_body]
fn ts_run_query(q: &tree_sitter::Query, t: &tree_sitter::Tree, body: &str) -> (r: Vec<Vec<String>>)
    requires
        tree_text(*t) == body@,
    ensures
        r.deep_view() == query_captures(pattern_text(*q), body@),
{
    let mut cursor = tree_sitter::QueryCursor::new();
    cursor.matches(q, t.root_node(), body.as_bytes()).map(
        |m|
            m.captures.iter().map(
                |c| c.node.utf8_text(body.as_bytes()).unwrap_or("").to_string(),
            ).collect(),
    ).collect()
}

/// A parsed document: the original page text together with the syntax tree
/// derived from it.  Created once per fetched page, consumed by the
/// extractors, and discarded.
pub struct Html {
    body: String,
    tree: tree_sitter::Tree,
}

impl Html {
    /// The tree was parsed from the owned text.
    pub closed spec fn wf(self) -> bool {
        tree_text(self.tree) == self.body@
    }

    /// The owned page text.
    pub closed spec fn text(self) -> Seq<char> {
        self.body@
    }
}

/// Parses raw page text with the HTML grammar.  The grammar recovers from
/// malformed markup with error nodes, so this fails only when no tree at
/// all can be produced.
pub fn parse_html(body: String) -> (r: Result<Html, KojiError>)
    ensures
        r is Ok <==> html_parses(body@),
        r matches Ok(h) ==> h.wf() && h.text() == body@,
        r matches Err(e) ==> e@ == ErrorView::HtmlParse,
{
    match ts_parse_html(body.as_str()) {
        Some(tree) => Ok(Html { body, tree }),
        None => Err(KojiError::HtmlParseError),
    }
}

/// Pattern for the two-cell `Method` row: a header cell holding exactly
/// "Method", followed by a data cell whose text is the method name.
pub const METHOD_QUERY: &'static str = "(element (start_tag (tag_name)) (element (start_tag (tag_name)) (text) @key (#eq? @key \"Method\") (end_tag (tag_name))) (element (start_tag (tag_name)) (text) @value (end_tag (tag_name))) (end_tag (tag_name)))";

/// Pattern for the two-cell `State` row.
pub const STATE_QUERY: &'static str = "(element (start_tag (tag_name)) (element (start_tag (tag_name)) (text) @key (#eq? @key \"State\") (end_tag (tag_name))) (element (start_tag (tag_name)) (text) @value (end_tag (tag_name))) (end_tag (tag_name)))";

/// Pattern for the `Parameters` row: the data cell's child nodes are all
/// captured, one capture per node; an empty cell still matches.
pub const PARAMS_QUERY: &'static str = "(element (start_tag (tag_name)) (element (start_tag (tag_name)) (text) @key (#eq? @key \"Parameters\") (end_tag (tag_name))) (element (start_tag (tag_name)) (_)* @values (end_tag (tag_name))) (end_tag (tag_name)))";

/// Pattern for the `Output` row, shaped like the `Parameters` one.
pub const OUTPUT_QUERY: &'static str = "(element (start_tag (tag_name)) (element (start_tag (tag_name)) (text) @key (#eq? @key \"Output\") (end_tag (tag_name))) (element (start_tag (tag_name)) (_)* @values (end_tag (tag_name))) (end_tag (tag_name)))";

/// The fixed set of compiled row queries, compiled once and reusable
/// across documents.
pub struct RowQueries {
    method: tree_sitter::Query,
    state: tree_sitter::Query,
    params: tree_sitter::Query,
    output: tree_sitter::Query,
}

impl RowQueries {
    /// Each compiled query stands for its fixed pattern.
    pub closed spec fn wf(self) -> bool {
        &&& pattern_text(self.method) == METHOD_QUERY@
        &&& pattern_text(self.state) == STATE_QUERY@
        &&& pattern_text(self.params) == PARAMS_QUERY@
        &&& pattern_text(self.output) == OUTPUT_QUERY@
    }
}

/// All four fixed row patterns compile against the HTML grammar.
pub open spec fn queries_compile() -> bool {
    &&& compiles(METHOD_QUERY@)
    &&& compiles(STATE_QUERY@)
    &&& compiles(PARAMS_QUERY@)
    &&& compiles(OUTPUT_QUERY@)
}

/// Compiles the fixed query set; it succeeds exactly when the four
/// constant patterns compile.  A failure is a programmer error (the
/// patterns are constants), surfaced as `QueryCompileError`.
pub fn compile_queries() -> (r: Result<RowQueries, KojiError>)
    ensures
        r is Ok <==> queries_compile(),
        r matches Ok(qs) ==> qs.wf(),
        r matches Err(e) ==> e@ matches ErrorView::QueryCompile(_),
{
    let method = match ts_compile_query(METHOD_QUERY) {
        Ok(q) => q,
        Err(m) => return Err(KojiError::QueryCompileError(m)),
    };
    let state = match ts_compile_query(STATE_QUERY) {
        Ok(q) => q,
        Err(m) => return Err(KojiError::QueryCompileError(m)),
    };
    let params = match ts_compile_query(PARAMS_QUERY) {
        Ok(q) => q,
        Err(m) => return Err(KojiError::QueryCompileError(m)),
    };
    let output = match ts_compile_query(OUTPUT_QUERY) {
        Ok(q) => q,
        Err(m) => return Err(KojiError::QueryCompileError(m)),
    };
    Ok(RowQueries { method, state, params, output })
}

/// First-match policy over a simple labeled row: the text of the data cell
/// beside the header cell `label`; no match at all means the labeled row is
/// missing, and a match with other than two captures does not fit the
/// expected schema.
pub open spec fn simple_row_lookup(pattern: Seq<char>, body: Seq<char>, label: Seq<char>) -> Result<
    Seq<char>,
    ErrorView,
> {
    let ms = query_captures(pattern, body);
    if ms.len() == 0 {
        Err(ErrorView::MissingField(label))
    } else if ms[0].len() != 2 {
        Err(ErrorView::BadCaptureShape)
    } else {
        Ok(ms[0][1])
    }
}

/// First-match policy over a subtree row: the captured child nodes of the
/// data cell beside `label`, with the leading label capture dropped; a
/// present row with an empty cell yields the empty sequence.
pub open spec fn subtree_row_lookup(
    pattern: Seq<char>,
    body: Seq<char>,
    label: Seq<char>,
) -> Result<Seq<Seq<char>>, ErrorView> {
    let ms = query_captures(pattern, body);
    if ms.len() == 0 {
        Err(ErrorView::MissingField(label))
    } else if ms[0].len() < 1 {
        Err(ErrorView::BadCaptureShape)
    } else {
        Ok(ms[0].skip(1))
    }
}

fn run_simple_row(h: &Html, q: &tree_sitter::Query, label: &str) -> (r: Result<String, KojiError>)
    requires
        h.wf(),
    ensures
        r matches Ok(s) ==> simple_row_lookup(pattern_text(*q), h.text(), label@) == Ok::<
            Seq<char>,
            ErrorView,
        >(s@),
        r matches Err(e) ==> simple_row_lookup(pattern_text(*q), h.text(), label@) == Err::<
            Seq<char>,
            ErrorView,
        >(e@),
{
    let rows = ts_run_query(q, &h.tree, h.body.as_str());
    if rows.len() == 0 {
        assert(query_captures(pattern_text(*q), h.text()).len() == 0);
        Err(KojiError::MissingField(String::from_str(label)))
    } else {
        let row: &Vec<String> = &rows[0];
        assert(row.deep_view() == query_captures(pattern_text(*q), h.text())[0]);
        if row.len() != 2 {
            Err(KojiError::BadCaptureShape)
        } else {
            let v: String = row[1].clone();
            assert(v@ == row.deep_view()[1]);
            Ok(v)
        }
    }
}

fn run_subtree_row(h: &Html, q: &tree_sitter::Query, label: &str) -> (r: Result<
    Vec<String>,
    KojiError,
>)
    requires
        h.wf(),
    ensures
        r matches Ok(vs) ==> subtree_row_lookup(pattern_text(*q), h.text(), label@) == Ok::<
            Seq<Seq<char>>,
            ErrorView,
        >(vs.deep_view()),
        r matches Err(e) ==> subtree_row_lookup(pattern_text(*q), h.text(), label@) == Err::<
            Seq<Seq<char>>,
            ErrorView,
        >(e@),
{
    let rows = ts_run_query(q, &h.tree, h.body.as_str());
    if rows.len() == 0 {
        assert(query_captures(pattern_text(*q), h.text()).len() == 0);
        return Err(KojiError::MissingField(String::from_str(label)));
    }
    let row: &Vec<String> = &rows[0];
    assert(row.deep_view() == query_captures(pattern_text(*q), h.text())[0]);
    if row.len() < 1 {
        return Err(KojiError::BadCaptureShape);
    }
    let mut vs: Vec<String> = Vec::new();
    let mut i: usize = 1;
    while i < row.len()
        invariant
            1 <= i <= row.len(),
            vs@.len() == i - 1,
            forall|k: int| 0 <= k < i - 1 ==> vs.deep_view()[k] == row.deep_view()[k + 1],
        decreases row.len() - i,
    {
        let s = row[i].clone();
        assert(s@ == row.deep_view()[i as int]);
        let ghost pre = vs;
        vs.push(s);
        proof {
            assert forall|k: int| 0 <= k < i as int implies vs.deep_view()[k] == row.deep_view()[k
                + 1] by {
                assert(vs@[k] == pre@.push(s)[k]);
                if k < i as int - 1 {
                    assert(vs@[k] == pre@[k]);
                    assert(pre.deep_view()[k] == row.deep_view()[k + 1]);
                } else {
                    assert(vs@[k] == s);
                }
            }
        }
        i = i + 1;
    }
    assert(vs.deep_view() =~= row.deep_view().skip(1));
    Ok(vs)
}

/// Method lookup: the text of the data cell of the labeled `Method` row.
pub fn get_method_name(h: &Html, qs: &RowQueries) -> (r: Result<String, KojiError>)
    requires
        h.wf(),
        qs.wf(),
    ensures
        r matches Ok(s) ==> simple_row_lookup(METHOD_QUERY@, h.text(), "Method"@) == Ok::<
            Seq<char>,
            ErrorView,
        >(s@),
        r matches Err(e) ==> simple_row_lookup(METHOD_QUERY@, h.text(), "Method"@) == Err::<
            Seq<char>,
            ErrorView,
        >(e@),
{
    run_simple_row(h, &qs.method, "Method")
}

/// State lookup: the text of the data cell of the labeled `State` row.
pub fn get_state(h: &Html, qs: &RowQueries) -> (r: Result<String, KojiError>)
    requires
        h.wf(),
        qs.wf(),
    ensures
        r matches Ok(s) ==> simple_row_lookup(STATE_QUERY@, h.text(), "State"@) == Ok::<
            Seq<char>,
            ErrorView,
        >(s@),
        r matches Err(e) ==> simple_row_lookup(STATE_QUERY@, h.text(), "State"@) == Err::<
            Seq<char>,
            ErrorView,
        >(e@),
{
    run_simple_row(h, &qs.state, "State")
}

/// Runs the `Parameters` row query on a parsed page.
pub fn params_row(h: &Html, qs: &RowQueries) -> (r: Result<Vec<String>, KojiError>)
    requires
        h.wf(),
        qs.wf(),
    ensures
        r matches Ok(vs) ==> subtree_row_lookup(PARAMS_QUERY@, h.text(), "Parameters"@) == Ok::<
            Seq<Seq<char>>,
            ErrorView,
        >(vs.deep_view()),
        r matches Err(e) ==> subtree_row_lookup(PARAMS_QUERY@, h.text(), "Parameters"@) == Err::<
            Seq<Seq<char>>,
            ErrorView,
        >(e@),
{
    run_subtree_row(h, &qs.params, "Parameters")
}

/// Runs the `Output` row query on a parsed page.
pub fn output_row(h: &Html, qs: &RowQueries) -> (r: Result<Vec<String>, KojiError>)
    requires
        h.wf(),
        qs.wf(),
    ensures
        r matches Ok(vs) ==> subtree_row_lookup(OUTPUT_QUERY@, h.text(), "Output"@) == Ok::<
            Seq<Seq<char>>,
            ErrorView,
        >(vs.deep_view()),
        r matches Err(e) ==> subtree_row_lookup(OUTPUT_QUERY@, h.text(), "Output"@) == Err::<
            Seq<Seq<char>>,
            ErrorView,
        >(e@),
{
    run_subtree_row(h, &qs.output, "Output")
}

/// Two runs of one compiled query against one parsed document yield the
/// same captures: the captures are a function of the pattern and the
/// document text alone, and the tree is only ever read through a shared
/// borrow, so querying cannot mutate it.
pub proof fn lemma_query_idempotent(
    r1: Seq<Seq<Seq<char>>>,
    r2: Seq<Seq<Seq<char>>>,
    pattern: Seq<char>,
    body: Seq<char>,
)
    requires
        r1 == query_captures(pattern, body),
        r2 == query_captures(pattern, body),
    ensures
        r1 == r2,
{
}

} // verus!
