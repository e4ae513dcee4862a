//! Field extractors and the record classifier: from a parsed task-info page
//! to a typed build record.

use vstd::prelude::*;
use vstd::string::*;

use crate::errors::{ErrorView, KojiError};
use crate::nvr::{Arch, NvrView, NVR, nvr_lookup, parse_nvr};
use crate::query::{
    get_method_name, get_state, html_parses, output_row, params_row, queries_compile,
    simple_row_lookup, subtree_row_lookup, Html, RowQueries, METHOD_QUERY, OUTPUT_QUERY,
    PARAMS_QUERY, STATE_QUERY,
};
use crate::strutil::{
    clone_strings, concat_strings, contains_failed, find_sub, find_substr, lemma_find_sub,
    lemma_push_deep_view, state_is_failed, str_eq, token_of, value_token,
};

verus! {

/// Spec-level value of a [`TaskInfo`].
pub struct TaskInfoView {
    pub package: NvrView,
    pub arch: Seq<char>,
    pub failed: bool,
    pub logs: Seq<Seq<char>>,
}

/// What one task-info page declares about its task: the package identity,
/// the architecture, whether the declared state is a failed one, and the
/// harvested log targets in document order.
#[derive(Clone, Debug, PartialEq)]
pub struct TaskInfo {
    pub package: NVR,
    pub arch: Arch,
    pub failed: bool,
    pub logs: Vec<String>,
}

impl View for TaskInfo {
    type V = TaskInfoView;

    open spec fn view(&self) -> TaskInfoView {
        TaskInfoView {
            package: self.package@,
            arch: self.arch@,
            failed: self.failed,
            logs: self.logs.deep_view(),
        }
    }
}

impl DeepView for TaskInfo {
    type V = TaskInfoView;

    open spec fn deep_view(&self) -> TaskInfoView {
        self.view()
    }
}

/// Spec-level value of a [`KojiFailedBuild`].
pub struct FailedBuildView {
    pub package: NvrView,
    pub arch: Seq<char>,
    pub logs: Seq<Seq<char>>,
}

/// A terminal, unambiguous failure of a single architecture's build.
#[derive(Clone, Debug, PartialEq)]
pub struct KojiFailedBuild {
    pub package: NVR,
    pub arch: Arch,
    pub logs: Vec<String>,
}

impl View for KojiFailedBuild {
    type V = FailedBuildView;

    open spec fn view(&self) -> FailedBuildView {
        FailedBuildView { package: self.package@, arch: self.arch@, logs: self.logs.deep_view() }
    }
}

/// Spec-level value of a [`KojiBuild`].
pub struct BuildView {
    pub package: NvrView,
    pub logs: Seq<(Seq<char>, Seq<Seq<char>>)>,
}

/// An aggregate build whose sub-tasks, one per architecture, each
/// contributed a log set; the mapping holds one entry per architecture.
#[derive(Clone, Debug, PartialEq)]
pub struct KojiBuild {
    pub package: NVR,
    pub logs: Vec<(Arch, Vec<String>)>,
}

impl View for KojiBuild {
    type V = BuildView;

    open spec fn view(&self) -> BuildView {
        BuildView { package: self.package@, logs: self.logs.deep_view() }
    }
}

/// Spec-level value of a [`KojiPage`].
pub enum PageView {
    Failed(FailedBuildView),
    Success(BuildView),
}

/// The outcome of classifying one task-info page: exactly one of the two
/// record shapes.
#[derive(Clone, Debug, PartialEq)]
pub enum KojiPage {
    Failed(KojiFailedBuild),
    Success(KojiBuild),
}

impl View for KojiPage {
    type V = PageView;

    open spec fn view(&self) -> PageView {
        match self {
            KojiPage::Failed(f) => PageView::Failed(f@),
            KojiPage::Success(b) => PageView::Success(b@),
        }
    }
}

/// Method lookup: the text of the `Method` row's data cell.
pub open spec fn method_lookup(body: Seq<char>) -> Result<Seq<char>, ErrorView> {
    simple_row_lookup(METHOD_QUERY@, body, "Method"@)
}

/// State lookup: the text of the `State` row's data cell.
pub open spec fn state_lookup(body: Seq<char>) -> Result<Seq<char>, ErrorView> {
    simple_row_lookup(STATE_QUERY@, body, "State"@)
}

/// Parameters lookup: the captured child nodes of the `Parameters` cell.
pub open spec fn params_lookup(body: Seq<char>) -> Result<Seq<Seq<char>>, ErrorView> {
    subtree_row_lookup(PARAMS_QUERY@, body, "Parameters"@)
}

/// Output lookup: the captured child nodes of the `Output` cell.
pub open spec fn output_lookup(body: Seq<char>) -> Result<Seq<Seq<char>>, ErrorView> {
    subtree_row_lookup(OUTPUT_QUERY@, body, "Output"@)
}

/// Index of the first capture that equals `key`, if any.
pub open spec fn find_key(vs: Seq<Seq<char>>, key: Seq<char>) -> Option<int>
    decreases vs.len(),
{
    if vs.len() == 0 {
        None
    } else if vs[0] == key {
        Some(0)
    } else {
        match find_key(vs.skip(1), key) {
            None => None,
            Some(i) => Some(i + 1),
        }
    }
}

proof fn lemma_find_key(vs: Seq<Seq<char>>, key: Seq<char>)
    ensures
        match find_key(vs, key) {
            Some(i) => 0 <= i < vs.len() && vs[i] == key && (forall|j: int|
                0 <= j < i ==> vs[j] != key),
            None => forall|j: int| 0 <= j < vs.len() ==> vs[j] != key,
        },
    decreases vs.len(),
{
    if vs.len() == 0 {
    } else if vs[0] == key {
    } else {
        let t = vs.skip(1);
        lemma_find_key(t, key);
        match find_key(vs, key) {
            Some(i) => {
                assert(t[i - 1] == key);
                assert(vs[i] == key);
                assert forall|j: int| 0 <= j < i implies vs[j] != key by {
                    if j > 0 {
                        assert(t[j - 1] != key);
                        assert(t[j - 1] == vs[j]);
                    }
                }
            },
            None => {
                assert forall|j: int| 0 <= j < vs.len() implies vs[j] != key by {
                    if j > 0 {
                        assert(t[j - 1] != key);
                        assert(t[j - 1] == vs[j]);
                    }
                }
            },
        }
    }
}

proof fn lemma_find_key_is(vs: Seq<Seq<char>>, key: Seq<char>, i: int)
    requires
        0 <= i < vs.len(),
        vs[i] == key,
        forall|j: int| 0 <= j < i ==> vs[j] != key,
    ensures
        find_key(vs, key) == Some(i),
{
    lemma_find_key(vs, key);
    match find_key(vs, key) {
        None => {
            assert(vs[i] != key);
        },
        Some(i2) => {
            if i2 < i {
                assert(vs[i2] != key);
            } else if i2 > i {
                assert(vs[i] != key);
            }
        },
    }
}

fn find_key_vec(vs: &Vec<String>, key: &str) -> (r: Option<usize>)
    ensures
        r matches Some(i) ==> find_key(vs.deep_view(), key@) == Some(i as int) && i < vs.len(),
        r is None ==> find_key(vs.deep_view(), key@) is None,
{
    let mut i: usize = 0;
    while i < vs.len()
        invariant
            i <= vs.len(),
            forall|j: int| 0 <= j < i ==> vs.deep_view()[j] != key@,
        decreases vs.len() - i,
    {
        if str_eq(vs[i].as_str(), key) {
            proof {
                assert(vs.deep_view()[i as int] == key@);
                lemma_find_key_is(vs.deep_view(), key@, i as int);
            }
            return Some(i);
        }
        assert(vs.deep_view()[i as int] != key@);
        i = i + 1;
    }
    proof {
        lemma_find_key(vs.deep_view(), key@);
        if let Some(k) = find_key(vs.deep_view(), key@) {
            assert(vs.deep_view()[k] != key@);
        }
    }
    None
}

/// A `key: value` entry of the parameters blob: the key is rendered as a
/// bold span; the value is the single token following the colon-and-space
/// in the next captured node.  An absent key, a key without a following
/// node, or an empty token all mean the entry is missing.
pub open spec fn param_token_lookup(
    vs: Seq<Seq<char>>,
    key_html: Seq<char>,
    label: Seq<char>,
) -> Result<Seq<char>, ErrorView> {
    match find_key(vs, key_html) {
        None => Err(ErrorView::MissingField(label)),
        Some(i) => if i + 1 < vs.len() {
            let t = token_of(vs[i + 1]);
            if t.len() == 0 {
                Err(ErrorView::MissingField(label))
            } else {
                Ok(t)
            }
        } else {
            Err(ErrorView::MissingField(label))
        },
    }
}

fn get_param_token(vs: &Vec<String>, key_html: &str, label: &str) -> (r: Result<String, KojiError>)
    ensures
        r matches Ok(s) ==> param_token_lookup(vs.deep_view(), key_html@, label@) == Ok::<
            Seq<char>,
            ErrorView,
        >(s@),
        r matches Err(e) ==> param_token_lookup(vs.deep_view(), key_html@, label@) == Err::<
            Seq<char>,
            ErrorView,
        >(e@),
{
    match find_key_vec(vs, key_html) {
        None => Err(KojiError::MissingField(String::from_str(label))),
        Some(i) => {
            if i + 1 < vs.len() {
                let t = value_token(vs[i + 1].as_str());
                assert(vs[i + 1]@ == vs.deep_view()[i + 1]);
                if t.as_str().is_empty() {
                    Err(KojiError::MissingField(String::from_str(label)))
                } else {
                    Ok(t)
                }
            } else {
                Err(KojiError::MissingField(String::from_str(label)))
            }
        },
    }
}

/// Architecture and package-path entries of the parameters blob, in the
/// order `Arch` then `Pkg`.
pub open spec fn arch_pkg_lookup(body: Seq<char>) -> Result<(Seq<char>, Seq<char>), ErrorView> {
    match params_lookup(body) {
        Err(e) => Err(e),
        Ok(vs) => match param_token_lookup(vs, "<strong>Arch</strong>"@, "Arch"@) {
            Err(e) => Err(e),
            Ok(a) => match param_token_lookup(vs, "<strong>Pkg</strong>"@, "Pkg"@) {
                Err(e) => Err(e),
                Ok(p) => Ok((a, p)),
            },
        },
    }
}

/// Looks up the task's architecture and source-package path in the
/// parameters blob.  Unknown entries are ignored; a missing `Arch` or
/// `Pkg` entry fails with exactly that label.
pub fn get_arch_pkg(h: &Html, qs: &RowQueries) -> (r: Result<(Arch, String), KojiError>)
    requires
        h.wf(),
        qs.wf(),
    ensures
        r matches Ok(ap) ==> arch_pkg_lookup(h.text()) == Ok::<(Seq<char>, Seq<char>), ErrorView>(
            (ap.0@, ap.1@),
        ),
        r matches Err(e) ==> arch_pkg_lookup(h.text()) == Err::<(Seq<char>, Seq<char>), ErrorView>(
            e@,
        ),
{
    let vs = match params_row(h, qs) {
        Ok(vs) => vs,
        Err(e) => return Err(e),
    };
    let arch = match get_param_token(&vs, "<strong>Arch</strong>", "Arch") {
        Ok(a) => a,
        Err(e) => return Err(e),
    };
    let pkg = match get_param_token(&vs, "<strong>Pkg</strong>", "Pkg") {
        Ok(p) => p,
        Err(e) => return Err(e),
    };
    Ok((Arch(arch), pkg))
}

/// The captured node spells an anchor element.
pub open spec fn is_anchor(s: Seq<char>) -> bool {
    s.len() >= 3 && s[0] == '<' && s[1] == 'a' && (s[2] == ' ' || s[2] == '>')
}

/// The anchor's target: what stands between `href="` and the next quote.
pub open spec fn href_of(s: Seq<char>) -> Option<Seq<char>> {
    match find_sub(s, "href=\""@, 0) {
        None => None,
        Some(i) => match find_sub(s, "\""@, i + 6) {
            None => None,
            Some(j) => Some(s.subrange(i + 6, j)),
        },
    }
}

/// The anchor's link text: what stands between the first `>` and the next
/// `<` after it.
pub open spec fn anchor_text(s: Seq<char>) -> Option<Seq<char>> {
    match find_sub(s, ">"@, 0) {
        None => None,
        Some(g) => match find_sub(s, "<"@, g + 1) {
            None => None,
            Some(e) => Some(s.subrange(g + 1, e)),
        },
    }
}

/// A captured node contributes a log target when it is an anchor with a
/// resolvable target and link text, and the text is not the "tail" link of
/// a truncated view.
pub open spec fn keep_anchor(s: Seq<char>) -> bool {
    &&& is_anchor(s)
    &&& href_of(s) is Some
    &&& match anchor_text(s) {
        Some(t) => t != "tail"@,
        None => false,
    }
}

/// The kept anchor's target.
pub open spec fn href_val(s: Seq<char>) -> Seq<char> {
    match href_of(s) {
        Some(h) => h,
        None => Seq::empty(),
    }
}

/// Every kept anchor's target, in document order.
pub open spec fn harvest(vs: Seq<Seq<char>>) -> Seq<Seq<char>>
    decreases vs.len(),
{
    if vs.len() == 0 {
        Seq::empty()
    } else {
        let init = harvest(vs.drop_last());
        if keep_anchor(vs.last()) {
            init.push(href_val(vs.last()))
        } else {
            init
        }
    }
}

/// Parses one captured node as a log anchor, skipping "tail" links and
/// anything that is not an anchor with a target.
pub fn anchor_href(s: &str) -> (r: Option<String>)
    ensures
        r matches Some(x) ==> keep_anchor(s@) && href_val(s@) == x@,
        r is None ==> !keep_anchor(s@),
{
    proof {
        reveal_strlit("href=\"");
        reveal_strlit("\"");
        reveal_strlit(">");
        reveal_strlit("<");
        reveal_strlit("tail");
    }
    let n = s.unicode_len();
    if n < 3 {
        return None;
    }
    let c0 = s.get_char(0);
    let c1 = s.get_char(1);
    let c2 = s.get_char(2);
    if !(c0 == '<' && c1 == 'a' && (c2 == ' ' || c2 == '>')) {
        return None;
    }
    let hpos = match find_substr(s, "href=\"", 0) {
        None => return None,
        Some(i) => i,
    };
    proof {
        lemma_find_sub(s@, "href=\""@, 0);
    }
    let hend = match find_substr(s, "\"", hpos + 6) {
        None => return None,
        Some(j) => j,
    };
    proof {
        lemma_find_sub(s@, "\""@, hpos + 6);
    }
    let href = String::from_str(s.substring_char(hpos + 6, hend));
    let g = match find_substr(s, ">", 0) {
        None => return None,
        Some(g) => g,
    };
    proof {
        lemma_find_sub(s@, ">"@, 0);
    }
    let e = match find_substr(s, "<", g + 1) {
        None => return None,
        Some(e) => e,
    };
    proof {
        lemma_find_sub(s@, "<"@, g + 1);
    }
    let text = s.substring_char(g + 1, e);
    if str_eq(text, "tail") {
        return None;
    }
    Some(href)
}

/// Harvests the log anchors of the `Output` row: every anchor target whose
/// link text is not a "tail" link, in document order.  A missing row is
/// `MissingField("Output")`; a present row without anchors yields an empty
/// sequence, left to the caller to judge.
pub fn harvest_logs(h: &Html, qs: &RowQueries) -> (r: Result<Vec<String>, KojiError>)
    requires
        h.wf(),
        qs.wf(),
    ensures
        r matches Ok(v) ==> (output_lookup(h.text()) matches Ok(vs) && v.deep_view() == harvest(
            vs,
        )),
        r matches Err(e) ==> output_lookup(h.text()) == Err::<Seq<Seq<char>>, ErrorView>(e@),
{
    let row = match output_row(h, qs) {
        Ok(v) => v,
        Err(e) => return Err(e),
    };
    let mut out: Vec<String> = Vec::new();
    assert(out.deep_view() =~= harvest(row.deep_view().subrange(0, 0)));
    let mut i: usize = 0;
    while i < row.len()
        invariant
            i <= row.len(),
            out.deep_view() == harvest(row.deep_view().subrange(0, i as int)),
        decreases row.len() - i,
    {
        let ghost prefix = row.deep_view().subrange(0, i as int + 1);
        proof {
            assert(prefix.drop_last() =~= row.deep_view().subrange(0, i as int));
            assert(prefix.last() == row.deep_view()[i as int]);
        }
        assert(row[i as int]@ == row.deep_view()[i as int]);
        match anchor_href(row[i].as_str()) {
            Some(href) => {
                let ghost pre = out;
                out.push(href);
                proof {
                    lemma_push_deep_view(pre, out, href);
                }
            },
            None => {},
        }
        i = i + 1;
    }
    assert(row.deep_view().subrange(0, row@.len() as int) =~= row.deep_view());
    Ok(out)
}

/// Steps one to four of the classifier over a single page: method gate,
/// parameter extraction, identity decomposition, state normalization and
/// log harvesting.
pub open spec fn task_lookup(body: Seq<char>) -> Result<TaskInfoView, ErrorView> {
    match method_lookup(body) {
        Err(e) => Err(e),
        Ok(m) => if m != "buildArch"@ {
            Err(ErrorView::UnsupportedMethod(m))
        } else {
            match arch_pkg_lookup(body) {
                Err(e) => Err(e),
                Ok(ap) => match nvr_lookup(ap.1) {
                    Err(e) => Err(e),
                    Ok(nvr) => match state_lookup(body) {
                        Err(e) => Err(e),
                        Ok(st) => match output_lookup(body) {
                            Err(e) => Err(e),
                            Ok(out) => Ok(
                                TaskInfoView {
                                    package: nvr,
                                    arch: ap.0,
                                    failed: contains_failed(st),
                                    logs: harvest(out),
                                },
                            ),
                        },
                    },
                },
            }
        },
    }
}

/// Extracts what one task-info page declares: the `buildArch` gate, the
/// parameters, the package identity, the normalized state and the logs.
pub fn parse_task_info(h: &Html, qs: &RowQueries) -> (r: Result<TaskInfo, KojiError>)
    requires
        h.wf(),
        qs.wf(),
    ensures
        r matches Ok(t) ==> task_lookup(h.text()) == Ok::<TaskInfoView, ErrorView>(t@),
        r matches Err(e) ==> task_lookup(h.text()) == Err::<TaskInfoView, ErrorView>(e@),
{
    let method = match get_method_name(h, qs) {
        Ok(m) => m,
        Err(e) => return Err(e),
    };
    if !str_eq(method.as_str(), "buildArch") {
        return Err(KojiError::UnsupportedMethod(method));
    }
    let (arch, pkg) = match get_arch_pkg(h, qs) {
        Ok(ap) => ap,
        Err(e) => return Err(e),
    };
    let package = match parse_nvr(pkg.as_str()) {
        Ok(n) => n,
        Err(e) => return Err(e),
    };
    let state = match get_state(h, qs) {
        Ok(s) => s,
        Err(e) => return Err(e),
    };
    let failed = state_is_failed(state.as_str());
    let logs = match harvest_logs(h, qs) {
        Ok(l) => l,
        Err(e) => return Err(e),
    };
    Ok(TaskInfo { package, arch, failed, logs })
}

/// Index of the first mapping entry whose key is `key`, if any.
pub open spec fn find_entry(m: Seq<(Seq<char>, Seq<Seq<char>>)>, key: Seq<char>) -> Option<int>
    decreases m.len(),
{
    if m.len() == 0 {
        None
    } else if m[0].0 == key {
        Some(0)
    } else {
        match find_entry(m.skip(1), key) {
            None => None,
            Some(i) => Some(i + 1),
        }
    }
}

proof fn lemma_find_entry(m: Seq<(Seq<char>, Seq<Seq<char>>)>, key: Seq<char>)
    ensures
        match find_entry(m, key) {
            Some(i) => 0 <= i < m.len() && m[i].0 == key && (forall|j: int|
                0 <= j < i ==> m[j].0 != key),
            None => forall|j: int| 0 <= j < m.len() ==> m[j].0 != key,
        },
    decreases m.len(),
{
    if m.len() == 0 {
    } else if m[0].0 == key {
    } else {
        let t = m.skip(1);
        lemma_find_entry(t, key);
        match find_entry(m, key) {
            Some(i) => {
                assert(t[i - 1].0 == key);
                assert(m[i].0 == key);
                assert forall|j: int| 0 <= j < i implies m[j].0 != key by {
                    if j > 0 {
                        assert(t[j - 1].0 != key);
                        assert(t[j - 1] == m[j]);
                    }
                }
            },
            None => {
                assert forall|j: int| 0 <= j < m.len() implies m[j].0 != key by {
                    if j > 0 {
                        assert(t[j - 1].0 != key);
                        assert(t[j - 1] == m[j]);
                    }
                }
            },
        }
    }
}

proof fn lemma_find_entry_is(m: Seq<(Seq<char>, Seq<Seq<char>>)>, key: Seq<char>, i: int)
    requires
        0 <= i < m.len(),
        m[i].0 == key,
        forall|j: int| 0 <= j < i ==> m[j].0 != key,
    ensures
        find_entry(m, key) == Some(i),
{
    lemma_find_entry(m, key);
    match find_entry(m, key) {
        None => {
            assert(m[i].0 != key);
        },
        Some(i2) => {
            if i2 < i {
                assert(m[i2].0 != key);
            } else if i2 > i {
                assert(m[i].0 != key);
            }
        },
    }
}

fn find_arch(logs: &Vec<(Arch, Vec<String>)>, key: &Arch) -> (r: Option<usize>)
    ensures
        r matches Some(i) ==> find_entry(logs.deep_view(), key@) == Some(i as int) && i
            < logs.len(),
        r is None ==> find_entry(logs.deep_view(), key@) is None,
{
    let mut i: usize = 0;
    while i < logs.len()
        invariant
            i <= logs.len(),
            forall|j: int| 0 <= j < i ==> logs.deep_view()[j].0 != key@,
        decreases logs.len() - i,
    {
        assert(logs.deep_view()[i as int] == logs@[i as int].deep_view());
        if str_eq(logs[i].0.0.as_str(), key.0.as_str()) {
            proof {
                lemma_find_entry_is(logs.deep_view(), key@, i as int);
            }
            return Some(i);
        }
        i = i + 1;
    }
    proof {
        lemma_find_entry(logs.deep_view(), key@);
        if let Some(k) = find_entry(logs.deep_view(), key@) {
            assert(logs.deep_view()[k].0 != key@);
        }
    }
    None
}

/// Folds per-architecture results into a mapping in order; a repeated
/// architecture appends its logs to the existing entry.
pub open spec fn fold_logs(cs: Seq<TaskInfoView>) -> Seq<(Seq<char>, Seq<Seq<char>>)>
    decreases cs.len(),
{
    if cs.len() == 0 {
        Seq::empty()
    } else {
        let init = fold_logs(cs.drop_last());
        let c = cs.last();
        match find_entry(init, c.arch) {
            None => init.push((c.arch, c.logs)),
            Some(j) => init.update(j, (init[j].0, init[j].1 + c.logs)),
        }
    }
}

/// No two mapping entries share an architecture key.
pub open spec fn distinct_keys(m: Seq<(Seq<char>, Seq<Seq<char>>)>) -> bool {
    forall|i: int, j: int| 0 <= i < j < m.len() ==> m[i].0 != m[j].0
}

/// The aggregation fold keeps one entry per architecture.
pub proof fn lemma_fold_logs_distinct(cs: Seq<TaskInfoView>)
    ensures
        distinct_keys(fold_logs(cs)),
    decreases cs.len(),
{
    if cs.len() > 0 {
        lemma_fold_logs_distinct(cs.drop_last());
        let init = fold_logs(cs.drop_last());
        let c = cs.last();
        lemma_find_entry(init, c.arch);
        let m2 = fold_logs(cs);
        match find_entry(init, c.arch) {
            None => {
                assert forall|i: int, j: int| 0 <= i < j < m2.len() implies m2[i].0 != m2[j].0 by {
                    if j < init.len() {
                        assert(m2[i] == init[i] && m2[j] == init[j]);
                    } else {
                        assert(m2[j].0 == c.arch);
                        assert(m2[i] == init[i]);
                        assert(init[i].0 != c.arch);
                    }
                }
            },
            Some(j0) => {
                assert forall|i: int, j: int| 0 <= i < j < m2.len() implies m2[i].0 != m2[j].0 by {
                    assert(m2[i].0 == init[i].0);
                    assert(m2[j].0 == init[j].0);
                }
            },
        }
    }
}

/// Aggregation of per-architecture child results under a shared package
/// identity.  A child that itself reports a failed state inside an
/// aggregate reported successful is an anomaly, never silently dropped.
pub open spec fn success_lookup(package: NvrView, cs: Seq<TaskInfoView>) -> Result<
    BuildView,
    ErrorView,
> {
    if exists|i: int| 0 <= i < cs.len() && cs[i].failed {
        Err(ErrorView::InconsistentChildState)
    } else {
        Ok(BuildView { package, logs: fold_logs(cs) })
    }
}

proof fn lemma_push_pair_deep_view(
    pre: Vec<(Arch, Vec<String>)>,
    post: Vec<(Arch, Vec<String>)>,
    x: (Arch, Vec<String>),
)
    requires
        post@ == pre@.push(x),
    ensures
        post.deep_view() == pre.deep_view().push(x.deep_view()),
{
    assert forall|k: int| 0 <= k < post@.len() implies post.deep_view()[k] == pre.deep_view().push(
        x.deep_view(),
    )[k] by {
        if k < pre@.len() {
            assert(post@[k] == pre@[k]);
        } else {
            assert(post@[k] == x);
        }
    }
    assert(post.deep_view() =~= pre.deep_view().push(x.deep_view()));
}

fn merge_entry(logs: &Vec<(Arch, Vec<String>)>, j: usize, extra: &Vec<String>) -> (r: Vec<
    (Arch, Vec<String>),
>)
    requires
        j < logs.len(),
    ensures
        r.deep_view() == logs.deep_view().update(
            j as int,
            (logs.deep_view()[j as int].0, logs.deep_view()[j as int].1 + extra.deep_view()),
        ),
{
    let ghost target = logs.deep_view().update(
        j as int,
        (logs.deep_view()[j as int].0, logs.deep_view()[j as int].1 + extra.deep_view()),
    );
    let mut r: Vec<(Arch, Vec<String>)> = Vec::new();
    let mut k: usize = 0;
    while k < logs.len()
        invariant
            k <= logs.len(),
            j < logs.len(),
            r@.len() == k,
            target == logs.deep_view().update(
                j as int,
                (logs.deep_view()[j as int].0, logs.deep_view()[j as int].1 + extra.deep_view()),
            ),
            forall|t: int| 0 <= t < k ==> r.deep_view()[t] == target[t],
        decreases logs.len() - k,
    {
        assert(logs.deep_view()[k as int] == logs@[k as int].deep_view());
        let pushed: (Arch, Vec<String>) = if k == j {
            (logs[k].0.duplicate(), concat_strings(&logs[k].1, extra))
        } else {
            (logs[k].0.duplicate(), clone_strings(&logs[k].1))
        };
        let ghost pre = r;
        r.push(pushed);
        proof {
            lemma_push_pair_deep_view(pre, r, pushed);
        }
        k = k + 1;
    }
    assert(r.deep_view() =~= target);
    r
}

/// Builds the aggregate success record from the shared package identity
/// and the per-architecture child results, folding each child's logs under
/// its architecture; fails with `InconsistentChildState` exactly when some
/// child reports a failed state.
pub fn parse_result_success(package: &NVR, children: &Vec<TaskInfo>) -> (r: Result<
    KojiBuild,
    KojiError,
>)
    ensures
        r matches Ok(b) ==> success_lookup(package@, children.deep_view()) == Ok::<
            BuildView,
            ErrorView,
        >(b@) && distinct_keys(b@.logs),
        r matches Err(e) ==> success_lookup(package@, children.deep_view()) == Err::<
            BuildView,
            ErrorView,
        >(e@),
{
    let mut i: usize = 0;
    while i < children.len()
        invariant
            i <= children.len(),
            forall|j: int| 0 <= j < i ==> !children.deep_view()[j].failed,
        decreases children.len() - i,
    {
        assert(children.deep_view()[i as int] == children@[i as int].deep_view());
        if children[i].failed {
            return Err(KojiError::InconsistentChildState);
        }
        i = i + 1;
    }
    let mut logs: Vec<(Arch, Vec<String>)> = Vec::new();
    assert(logs.deep_view() =~= fold_logs(children.deep_view().subrange(0, 0)));
    let mut n: usize = 0;
    while n < children.len()
        invariant
            n <= children.len(),
            logs.deep_view() == fold_logs(children.deep_view().subrange(0, n as int)),
        decreases children.len() - n,
    {
        let ghost prefix = children.deep_view().subrange(0, n as int + 1);
        proof {
            assert(prefix.drop_last() =~= children.deep_view().subrange(0, n as int));
            assert(prefix.last() == children.deep_view()[n as int]);
            assert(children.deep_view()[n as int] == children@[n as int].deep_view());
        }
        let c = &children[n];
        match find_arch(&logs, &c.arch) {
            None => {
                let pushed = (c.arch.duplicate(), clone_strings(&c.logs));
                let ghost pre = logs;
                logs.push(pushed);
                proof {
                    lemma_push_pair_deep_view(pre, logs, pushed);
                }
            },
            Some(j) => {
                logs = merge_entry(&logs, j, &c.logs);
            },
        }
        n = n + 1;
    }
    proof {
        assert(children.deep_view().subrange(0, children@.len() as int) =~= children.deep_view());
        lemma_fold_logs_distinct(children.deep_view());
    }
    Ok(KojiBuild { package: package.duplicate(), logs })
}

/// What classifying one page yields: the failed record when the declared
/// state is a failed one, else a one-architecture aggregate of the page's
/// own results.
pub open spec fn page_lookup(body: Seq<char>) -> Result<PageView, ErrorView> {
    match task_lookup(body) {
        Err(e) => Err(e),
        Ok(t) => if t.failed {
            Ok(PageView::Failed(FailedBuildView { package: t.package, arch: t.arch, logs: t.logs }))
        } else {
            match success_lookup(t.package, seq![t]) {
                Err(e) => Err(e),
                Ok(b) => Ok(PageView::Success(b)),
            }
        },
    }
}

/// Classifies one task-info page end to end: method gate, parameter
/// extraction, identity decomposition, state normalization and log
/// harvesting, then the failed or successful record.  A body the grammar
/// parses, under the crate's compilable fixed queries, yields exactly the
/// classification outcome: one variant or one error, never a partial
/// record.
pub fn parse_koji_page(body: &str) -> (r: Result<KojiPage, KojiError>)
    ensures
        r matches Ok(p) ==> page_lookup(body@) == Ok::<PageView, ErrorView>(p@),
        r matches Err(e) ==> page_lookup(body@) == Err::<PageView, ErrorView>(e@) || (e@
            == ErrorView::HtmlParse && !html_parses(body@)) || (e@ matches ErrorView::QueryCompile(
            _,
        ) && !queries_compile()),
{
    let qs = match crate::query::compile_queries() {
        Ok(q) => q,
        Err(e) => return Err(e),
    };
    let h = match crate::query::parse_html(String::from_str(body)) {
        Ok(h) => h,
        Err(e) => return Err(e),
    };
    let t = match parse_task_info(&h, &qs) {
        Ok(t) => t,
        Err(e) => return Err(e),
    };
    if t.failed {
        Ok(KojiPage::Failed(KojiFailedBuild { package: t.package, arch: t.arch, logs: t.logs }))
    } else {
        let ghost tv = t@;
        let package = t.package.duplicate();
        let children: Vec<TaskInfo> = vec![t];
        proof {
            assert(children.deep_view() =~= seq![tv]);
        }
        match parse_result_success(&package, &children) {
            Ok(b) => Ok(KojiPage::Success(b)),
            Err(e) => Err(e),
        }
    }
}

/// An unsupported method is rejected before any parameter parsing: once
/// the method lookup yields anything other than `buildArch`, the page's
/// outcome is fixed by that method alone, whatever the other rows hold.
pub proof fn lemma_unsupported_method_first(body: Seq<char>, m: Seq<char>)
    requires
        method_lookup(body) == Ok::<Seq<char>, ErrorView>(m),
        m != "buildArch"@,
    ensures
        page_lookup(body) == Err::<PageView, ErrorView>(ErrorView::UnsupportedMethod(m)),
{
}

/// A parameter entry that is found is never empty: an empty value token is
/// reported as the entry being missing, so an extracted architecture label
/// is always non-empty text.
pub proof fn lemma_param_token_nonempty(vs: Seq<Seq<char>>, key_html: Seq<char>, label: Seq<char>)
    ensures
        param_token_lookup(vs, key_html, label) matches Ok(t) ==> t.len() > 0,
{
}

/// A missing `Method` row surfaces as `MissingField` with exactly that
/// label: the first lookup's error is the whole page's error, unchanged.
pub proof fn lemma_missing_method_row(body: Seq<char>)
    requires
        method_lookup(body) == Err::<Seq<char>, ErrorView>(ErrorView::MissingField("Method"@)),
    ensures
        page_lookup(body) == Err::<PageView, ErrorView>(ErrorView::MissingField("Method"@)),
{
}

/// A missing `Parameters` row on a `buildArch` task surfaces as
/// `MissingField` with exactly that label.
pub proof fn lemma_missing_parameters_row(body: Seq<char>)
    requires
        method_lookup(body) == Ok::<Seq<char>, ErrorView>("buildArch"@),
        params_lookup(body) == Err::<Seq<Seq<char>>, ErrorView>(
            ErrorView::MissingField("Parameters"@),
        ),
    ensures
        page_lookup(body) == Err::<PageView, ErrorView>(ErrorView::MissingField("Parameters"@)),
{
}

/// A `MissingField` error is never generic: the classifier reports one
/// only with the exact label of the absent row or parameter entry.
pub proof fn lemma_missing_field_exact(body: Seq<char>, label: Seq<char>)
    requires
        page_lookup(body) == Err::<PageView, ErrorView>(ErrorView::MissingField(label)),
    ensures
        label == "Method"@ || label == "Parameters"@ || label == "Arch"@ || label == "Pkg"@
            || label == "State"@ || label == "Output"@,
{
}

/// Every page classified as a failed build was a `buildArch` task, and the
/// failed variant is selected exactly when the state cell's text contains
/// "failed" in any casing.
pub proof fn lemma_failed_page_classification(body: Seq<char>)
    requires
        page_lookup(body) is Ok,
    ensures
        method_lookup(body) == Ok::<Seq<char>, ErrorView>("buildArch"@),
        (page_lookup(body) matches Ok(PageView::Failed(_))) <==> (state_lookup(body) matches Ok(st)
            && contains_failed(st)),
{
}

} // verus!
