//! The code-quality server: projects and their quality measures, read with
//! the token as the basic-authentication user.
use vstd::prelude::*;
use crate::errors::{ErrorView, IntegrationError};
use crate::http::{answer_document, answer_json, outcome_view, ApiRequest, ApiResponse, Auth, Method};
use crate::json::{Json, array_spec, get_spec, str_spec};
use crate::text::{trim_end_char, trim_end_slashes, url_encode, url_encoded};

verus! {

/// A project of the server.
#[derive(Debug, Clone, PartialEq, Eq)]
pub struct SonarQubeProject {
    pub key: String,
    pub name: String,
    /// `TRK` for a project, `APP` for an application, ...
    pub qualifier: String,
}

/// The quality measures of a project.
#[derive(Debug, Clone, PartialEq, Eq)]
pub struct SonarQubeMetrics {
    /// The coverage percentage, as the server writes it.
    pub coverage: Option<String>,
    pub bugs: i32,
    pub vulnerabilities: i32,
    pub code_smells: i32,
    /// The technical debt in minutes, as the server writes it.
    pub technical_debt: Option<String>,
}

/// The measures, with their texts as character sequences.
pub struct MetricsView {
    pub coverage: Option<Seq<char>>,
    pub bugs: i32,
    pub vulnerabilities: i32,
    pub code_smells: i32,
    pub technical_debt: Option<Seq<char>>,
}

/// The view of an optional text.
pub open spec fn opt_view(s: Option<String>) -> Option<Seq<char>> {
    match s {
        Some(t) => Some(t@),
        None => None,
    }
}

impl View for SonarQubeMetrics {
    type V = MetricsView;

    open spec fn view(&self) -> MetricsView {
        MetricsView {
            coverage: opt_view(self.coverage),
            bugs: self.bugs,
            vulnerabilities: self.vulnerabilities,
            code_smells: self.code_smells,
            technical_debt: opt_view(self.technical_debt),
        }
    }
}

/// The value of a run of decimal digits.
pub open spec fn digits_value(s: Seq<char>) -> int
    decreases s.len(),
{
    if s.len() == 0 {
        0
    } else {
        digits_value(s.drop_last()) * 10 + ((s.last() as u32) - ('0' as u32))
    }
}

/// Whether a text holds only ASCII digits.
pub open spec fn all_digits(s: Seq<char>) -> bool {
    forall|i: int| 0 <= i < s.len() ==> '0' <= #[trigger] s[i] && s[i] <= '9'
}

/// The value of a text as `str::parse::<i32>` reads it: an optional `+` or
/// `-`, then at least one ASCII digit and nothing else, with a value that
/// fits an `i32`; nothing for any other text.
pub open spec fn parsed_i32(s: Seq<char>) -> Option<i32> {
    let negative = s.len() > 0 && s[0] == '-';
    let body = if s.len() > 0 && (s[0] == '-' || s[0] == '+') { s.drop_first() } else { s };
    if body.len() == 0 || !all_digits(body) {
        None
    } else {
        let v = if negative { -digits_value(body) } else { digits_value(body) };
        if i32::MIN <= v && v <= i32::MAX { Some(v as i32) } else { None }
    }
}

proof fn lemma_digits_value_grows(s: Seq<char>, j: int)
    requires
        all_digits(s),
        0 <= j <= s.len(),
    ensures
        0 <= digits_value(s.subrange(0, j)) <= digits_value(s),
    decreases s.len(),
{
    if j < s.len() {
        let t = s.drop_last();
        assert(all_digits(t)) by {
            assert forall|i: int| 0 <= i < t.len() implies '0' <= #[trigger] t[i] && t[i] <= '9' by {
                assert(t[i] == s[i]);
            }
        }
        lemma_digits_value_grows(t, j);
        assert(t.subrange(0, j) =~= s.subrange(0, j));
        lemma_digits_value_grows(t, t.len() as int);
        assert(t.subrange(0, t.len() as int) =~= t);
        assert('0' <= s[s.len() - 1]);
    } else {
        assert(s.subrange(0, j) =~= s);
        if s.len() > 0 {
            let t = s.drop_last();
            assert(all_digits(t)) by {
                assert forall|i: int| 0 <= i < t.len() implies '0' <= #[trigger] t[i] && t[i] <= '9' by {
                    assert(t[i] == s[i]);
                }
            }
            lemma_digits_value_grows(t, t.len() as int);
            assert(t.subrange(0, t.len() as int) =~= t);
            assert('0' <= s[s.len() - 1]);
        }
    }
}

/// Reads a decimal `i32` as `str::parse::<i32>` does.
pub fn parse_i32(s: &str) -> (r: Option<i32>)
    ensures
        r == parsed_i32(s@),
{
    let n = s.unicode_len();
    if n == 0 {
        return None;
    }
    let first = s.get_char(0);
    let negative = first == '-';
    let start: usize = if first == '-' || first == '+' { 1 } else { 0 };
    let ghost body = if first == '-' || first == '+' { s@.drop_first() } else { s@ };
    assert(s@[0] == first);
    proof {
        assert(body =~= s@.subrange(start as int, n as int));
    }
    if start == n {
        return None;
    }
    let mut v: i64 = 0;
    let mut i: usize = start;
    proof {
        assert(body.subrange(0, 0) =~= Seq::<char>::empty());
    }
    while i < n
        invariant
            n == s@.len(),
            start <= i <= n,
            start < n,
            body == s@.subrange(start as int, n as int),
            body == (if s@.len() > 0 && (s@[0] == '-' || s@[0] == '+') { s@.drop_first() } else { s@ }),
            forall|k: int| 0 <= k < i - start ==> '0' <= #[trigger] body[k] && body[k] <= '9',
            v as int == digits_value(body.subrange(0, i - start)),
            0 <= v <= 2147483648,
        decreases n - i,
    {
        let c = s.get_char(i);
        assert(body[i - start] == c);
        if !('0' <= c && c <= '9') {
            assert(!all_digits(body));
            return None;
        }
        let d = ((c as u32) - ('0' as u32)) as i64;
        proof {
            assert(body.subrange(0, i + 1 - start).drop_last() =~= body.subrange(0, i - start));
            assert(body.subrange(0, i + 1 - start).last() == c);
        }
        v = v * 10 + d;
        if v > 2147483648 {
            proof {
                if all_digits(body) {
                    lemma_digits_value_grows(body, i + 1 - start);
                }
            }
            return None;
        }
        i = i + 1;
    }
    proof {
        assert(body.subrange(0, n - start) =~= body);
    }
    if negative {
        Some((-v) as i32)
    } else if v > 2147483647 {
        None
    } else {
        Some(v as i32)
    }
}

/// The metric keys that a measures request asks for.
pub const METRIC_KEYS: &'static str = "coverage,bugs,vulnerabilities,code_smells,sqale_index";

/// What a projects answer lacks when it has no components.
pub const MISSING_COMPONENTS: &'static str = "Invalid response format: missing 'components' array";

/// What a project lacks when its document has no key.
pub const MISSING_KEY: &'static str = "Invalid project format: missing 'key'";

/// What a project lacks when its document has no name.
pub const MISSING_NAME: &'static str = "Invalid project format: missing 'name'";

/// What a measures answer lacks when it has no measures.
pub const MISSING_MEASURES: &'static str = "Invalid response format: missing 'measures' array";

/// The project that a component describes, or what it lacks; a project
/// without qualifier is a plain project (`TRK`).
pub open spec fn project_decode(j: Json) -> Result<(Seq<char>, Seq<char>, Seq<char>), Seq<char>> {
    match str_spec(get_spec(j, "key"@)) {
        None => Err(MISSING_KEY@),
        Some(key) => match str_spec(get_spec(j, "name"@)) {
            None => Err(MISSING_NAME@),
            Some(name) => Ok((
                key@,
                name@,
                match str_spec(get_spec(j, "qualifier"@)) {
                    Some(q) => q@,
                    None => "TRK"@,
                },
            )),
        },
    }
}

/// The projects that the components describe, or what the first one that
/// cannot be read lacks.
pub open spec fn projects_decode(items: Seq<Json>) -> Result<Seq<(Seq<char>, Seq<char>, Seq<char>)>, Seq<char>>
    decreases items.len(),
{
    if items.len() == 0 {
        Ok(seq![])
    } else {
        match projects_decode(items.drop_last()) {
            Err(m) => Err(m),
            Ok(before) => match project_decode(items.last()) {
                Err(m) => Err(m),
                Ok(p) => Ok(before.push(p)),
            },
        }
    }
}

proof fn lemma_projects_fault_stays(items: Seq<Json>, j: int, k: int)
    requires
        0 <= j <= k <= items.len(),
        projects_decode(items.subrange(0, j)) is Err,
    ensures
        projects_decode(items.subrange(0, k)) == projects_decode(items.subrange(0, j)),
    decreases k - j,
{
    if k > j {
        lemma_projects_fault_stays(items, j, k - 1);
        assert(items.subrange(0, k).drop_last() =~= items.subrange(0, k - 1));
    }
}

/// The projects that the outcome of the projects request lists.
pub open spec fn projects_answer(outcome: Result<ApiResponse, ErrorView>) -> Result<Seq<(Seq<char>, Seq<char>, Seq<char>)>, ErrorView> {
    match answer_document(outcome) {
        Err(e) => Err(e),
        Ok(doc) => match array_spec(get_spec(doc, "components"@)) {
            None => Err(ErrorView::Config(MISSING_COMPONENTS@)),
            Some(items) => match projects_decode(items) {
                Ok(ps) => Ok(ps),
                Err(m) => Err(ErrorView::Config(m)),
            },
        },
    }
}

/// A project's texts as (key, name, qualifier).
pub open spec fn project_view(p: SonarQubeProject) -> (Seq<char>, Seq<char>, Seq<char>) {
    (p.key@, p.name@, p.qualifier@)
}

fn project_of(j: &Json) -> (r: Result<SonarQubeProject, IntegrationError>)
    ensures
        match (r, project_decode(*j)) {
            (Ok(p), Ok(v)) => project_view(p) == v,
            (Err(e), Err(m)) => e@ == ErrorView::Config(m),
            _ => false,
        },
{
    let key = match j.get_str("key") {
        Some(k) => k.clone(),
        None => return Err(IntegrationError::config(MISSING_KEY)),
    };
    let name = match j.get_str("name") {
        Some(n) => n.clone(),
        None => return Err(IntegrationError::config(MISSING_NAME)),
    };
    let qualifier = match j.get_str("qualifier") {
        Some(q) => q.clone(),
        None => String::from_str("TRK"),
    };
    Ok(SonarQubeProject { key, name, qualifier })
}

/// A count from a measure's value: what the text reads as, else zero.
pub open spec fn count_of(value: Seq<char>) -> i32 {
    match parsed_i32(value) {
        Some(n) => n,
        None => 0,
    }
}

/// The measures before any is read: counts zero, coverage and debt unknown.
pub open spec fn no_metrics() -> MetricsView {
    MetricsView { coverage: None, bugs: 0, vulnerabilities: 0, code_smells: 0, technical_debt: None }
}

/// What one measure changes: a measure with a value sets the field of its
/// metric; unknown metrics and measures without value change nothing.
pub open spec fn apply_measure(m: MetricsView, measure: Json) -> MetricsView {
    let metric = match str_spec(get_spec(measure, "metric"@)) {
        Some(s) => s@,
        None => ""@,
    };
    match str_spec(get_spec(measure, "value"@)) {
        None => m,
        Some(v) => if metric == "coverage"@ {
            MetricsView { coverage: Some(v@), ..m }
        } else if metric == "bugs"@ {
            MetricsView { bugs: count_of(v@), ..m }
        } else if metric == "vulnerabilities"@ {
            MetricsView { vulnerabilities: count_of(v@), ..m }
        } else if metric == "code_smells"@ {
            MetricsView { code_smells: count_of(v@), ..m }
        } else if metric == "sqale_index"@ {
            MetricsView { technical_debt: Some(v@), ..m }
        } else {
            m
        },
    }
}

/// The measures folded, in order, into one record.
pub open spec fn fold_measures(measures: Seq<Json>) -> MetricsView
    decreases measures.len(),
{
    if measures.len() == 0 {
        no_metrics()
    } else {
        apply_measure(fold_measures(measures.drop_last()), measures.last())
    }
}

/// The measures that the outcome of a measures request reports.
pub open spec fn metrics_answer(outcome: Result<ApiResponse, ErrorView>) -> Result<MetricsView, ErrorView> {
    match answer_document(outcome) {
        Err(e) => Err(e),
        Ok(doc) => match get_spec(doc, "component"@) {
            Some(component) => match array_spec(get_spec(component, "measures"@)) {
                Some(measures) => Ok(fold_measures(measures)),
                None => Err(ErrorView::Config(MISSING_MEASURES@)),
            },
            None => Err(ErrorView::Config(MISSING_MEASURES@)),
        },
    }
}

/// Folds one measure into the record.
fn apply(m: &mut SonarQubeMetrics, measure: &Json)
    ensures
        final(m)@ == apply_measure(old(m)@, *measure),
{
    let value = match measure.get_str("value") {
        Some(v) => v,
        None => return,
    };
    let metric = match measure.get_str("metric") {
        Some(s) => s.as_str(),
        None => "",
    };
    proof {
        reveal_strlit("");
    }
    if crate::text::same_text(metric, "coverage") {
        m.coverage = Some(value.clone());
    } else if crate::text::same_text(metric, "bugs") {
        m.bugs = count(value.as_str());
    } else if crate::text::same_text(metric, "vulnerabilities") {
        m.vulnerabilities = count(value.as_str());
    } else if crate::text::same_text(metric, "code_smells") {
        m.code_smells = count(value.as_str());
    } else if crate::text::same_text(metric, "sqale_index") {
        m.technical_debt = Some(value.clone());
    }
}

fn count(value: &str) -> (r: i32)
    ensures
        r == count_of(value@),
{
    match parse_i32(value) {
        Some(n) => n,
        None => 0,
    }
}

/// The endpoint that reports the measures of a project.
pub open spec fn measures_endpoint(project_key: Seq<char>) -> Seq<char> {
    "/measures/component?component="@ + url_encoded(project_key) + "&metricKeys="@ + METRIC_KEYS@
}

/// Whether a request is the token-as-user request that the adapter makes.
pub open spec fn token_user_request(r: ApiRequest, url: Seq<char>, token: Seq<char>) -> bool {
    &&& r.method == Method::Get
    &&& r.url@ == url
    &&& r.auth matches Auth::Basic { username, password }
    &&& username@ == token
    &&& password@ == Seq::<char>::empty()
    &&& r.json_body is None
}

/// The adapter of one code-quality server.
pub struct SonarQubeAdapter {
    base_url: String,
    token: String,
}

impl SonarQubeAdapter {
    /// The base address, without trailing slashes.
    pub closed spec fn base(&self) -> Seq<char> {
        self.base_url@
    }

    /// The API token.
    pub closed spec fn token_text(&self) -> Seq<char> {
        self.token@
    }

    /// An adapter for the server at `base_url`, authenticated by `token`.
    pub fn new(base_url: String, token: String) -> (r: SonarQubeAdapter)
        ensures
            r.base() == trim_end_char(base_url@, '/'),
            r.token_text() == token@,
    {
        SonarQubeAdapter { base_url: trim_end_slashes(base_url.as_str()), token }
    }

    /// The base address, without trailing slashes.
    pub fn base_text(&self) -> (r: &str)
        ensures
            r@ == self.base(),
    {
        self.base_url.as_str()
    }

    /// The full address of an API endpoint.
    pub fn api_url(&self, endpoint: &str) -> (r: String)
        ensures
            r@ == self.base() + "/api"@ + endpoint@,
    {
        let mut url = self.base_url.clone();
        url.append("/api");
        url.append(endpoint);
        url
    }

    fn request(&self, endpoint: &str) -> (r: ApiRequest)
        ensures
            token_user_request(r, self.base() + "/api"@ + endpoint@, self.token_text()),
    {
        let r = ApiRequest {
            method: Method::Get,
            url: self.api_url(endpoint),
            auth: Auth::Basic { username: self.token.clone(), password: String::new() },
            json_body: None,
        };
        r
    }

    /// The request that lists the projects.
    pub fn projects_request(&self) -> (r: ApiRequest)
        ensures
            token_user_request(r, self.base() + "/api"@ + "/projects/search?ps=100"@, self.token_text()),
    {
        self.request("/projects/search?ps=100")
    }

    /// The request that reports the measures of a project.
    pub fn metrics_request(&self, project_key: &str) -> (r: ApiRequest)
        ensures
            token_user_request(r, self.base() + "/api"@ + measures_endpoint(project_key@), self.token_text()),
    {
        let mut endpoint = String::from_str("/measures/component?component=");
        let key = url_encode(project_key);
        endpoint.append(key.as_str());
        endpoint.append("&metricKeys=");
        endpoint.append(METRIC_KEYS);
        self.request(endpoint.as_str())
    }

    /// The request that checks the connection.
    pub fn connection_request(&self) -> (r: ApiRequest)
        ensures
            token_user_request(r, self.base() + "/api"@ + "/system/status"@, self.token_text()),
    {
        self.request("/system/status")
    }

    /// The projects that the outcome of the projects request lists.
    pub fn read_projects(&self, outcome: Result<ApiResponse, IntegrationError>) -> (r: Result<Vec<SonarQubeProject>, IntegrationError>)
        ensures
            match (r, projects_answer(outcome_view(outcome))) {
                (Ok(v), Ok(ps)) => v@.map_values(|p: SonarQubeProject| project_view(p)) == ps,
                (Err(e), Err(f)) => e@ == f,
                _ => false,
            },
    {
        let doc = match answer_json(outcome) {
            Ok(d) => d,
            Err(e) => return Err(e),
        };
        let items = match doc.get_array("components") {
            Some(a) => a,
            None => return Err(IntegrationError::config(MISSING_COMPONENTS)),
        };
        let mut out: Vec<SonarQubeProject> = Vec::new();
        let mut i: usize = 0;
        proof {
            assert(out@.map_values(|p: SonarQubeProject| project_view(p)) =~= Seq::<(Seq<char>, Seq<char>, Seq<char>)>::empty());
            assert(items@.subrange(0, 0) =~= Seq::<Json>::empty());
        }
        while i < items.len()
            invariant
                answer_document(outcome_view(outcome)) == Ok::<Json, ErrorView>(doc),
                array_spec(get_spec(doc, "components"@)) == Some(items@),
                i <= items@.len(),
                projects_decode(items@.subrange(0, i as int))
                    == Ok::<Seq<(Seq<char>, Seq<char>, Seq<char>)>, Seq<char>>(out@.map_values(|p: SonarQubeProject| project_view(p))),
            decreases items@.len() - i,
        {
            let ghost prefix = items@.subrange(0, i as int);
            proof {
                assert(items@.subrange(0, i + 1).drop_last() =~= prefix);
                assert(items@.subrange(0, i + 1).last() == items@[i as int]);
            }
            match project_of(&items[i]) {
                Ok(p) => {
                    let ghost before = out@.map_values(|p: SonarQubeProject| project_view(p));
                    let ghost pv = project_view(p);
                    out.push(p);
                    proof {
                        assert(out@.map_values(|p: SonarQubeProject| project_view(p)) =~= before.push(pv));
                    }
                },
                Err(e) => {
                    proof {
                        lemma_projects_fault_stays(items@, i + 1, items@.len() as int);
                        assert(items@.subrange(0, items@.len() as int) =~= items@);
                    }
                    return Err(e);
                },
            }
            i = i + 1;
        }
        proof {
            assert(items@.subrange(0, items@.len() as int) =~= items@);
        }
        Ok(out)
    }

    /// The measures that the outcome of a measures request reports.
    pub fn read_metrics(&self, outcome: Result<ApiResponse, IntegrationError>) -> (r: Result<SonarQubeMetrics, IntegrationError>)
        ensures
            match (r, metrics_answer(outcome_view(outcome))) {
                (Ok(m), Ok(v)) => m@ == v,
                (Err(e), Err(f)) => e@ == f,
                _ => false,
            },
    {
        let doc = match answer_json(outcome) {
            Ok(d) => d,
            Err(e) => return Err(e),
        };
        let measures = match doc.get("component") {
            Some(component) => match component.get_array("measures") {
                Some(a) => a,
                None => return Err(IntegrationError::config(MISSING_MEASURES)),
            },
            None => return Err(IntegrationError::config(MISSING_MEASURES)),
        };
        let mut m = SonarQubeMetrics {
            coverage: None,
            bugs: 0,
            vulnerabilities: 0,
            code_smells: 0,
            technical_debt: None,
        };
        let mut i: usize = 0;
        proof {
            assert(measures@.subrange(0, 0) =~= Seq::<Json>::empty());
        }
        while i < measures.len()
            invariant
                i <= measures@.len(),
                m@ == fold_measures(measures@.subrange(0, i as int)),
            decreases measures@.len() - i,
        {
            proof {
                assert(measures@.subrange(0, i + 1).drop_last() =~= measures@.subrange(0, i as int));
                assert(measures@.subrange(0, i + 1).last() == measures@[i as int]);
            }
            apply(&mut m, &measures[i]);
            i = i + 1;
        }
        proof {
            assert(measures@.subrange(0, measures@.len() as int) =~= measures@);
        }
        Ok(m)
    }

    /// Whether the outcome of the connection request proves the connection.
    pub fn check_connection(&self, outcome: Result<ApiResponse, IntegrationError>) -> (r: Result<(), IntegrationError>)
        ensures
            match answer_document(outcome_view(outcome)) {
                Err(e) => r matches Err(f) && f@ == e,
                Ok(_) => r is Ok,
            },
    {
        match answer_json(outcome) {
            Err(e) => Err(e),
            Ok(_) => Ok(()),
        }
    }
}

} // verus!
