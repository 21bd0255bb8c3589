//! Shared domain types: severities, source locations, findings, scan results and baselines.
use vstd::prelude::*;

verus! {

/// How severe a finding is, from least to most severe.
#[derive(Debug, Clone, Copy, PartialEq, Eq, Structural, PartialOrd, Ord, Hash)]
pub enum Severity {
    Low,
    Medium,
    High,
    Critical,
}

/// The position of a severity in the order `Low < Medium < High < Critical`.
pub open spec fn severity_rank(s: Severity) -> nat {
    match s {
        Severity::Low => 0,
        Severity::Medium => 1,
        Severity::High => 2,
        Severity::Critical => 3,
    }
}

impl Severity {
    /// The position of this severity in the order `Low < Medium < High < Critical`.
    pub fn rank(&self) -> (r: u8)
        ensures
            r as nat == severity_rank(*self),
    {
        match self {
            Severity::Low => 0,
            Severity::Medium => 1,
            Severity::High => 2,
            Severity::Critical => 3,
        }
    }
}

/// How confident a rule is in a finding.
#[derive(Debug, Clone, Copy, PartialEq, Eq, Structural, Hash)]
pub enum Confidence {
    Low,
    Medium,
    High,
}

/// How serious a diagnostic is.
#[derive(Debug, Clone, Copy, PartialEq, Eq, Structural, Hash)]
pub enum DiagnosticSeverity {
    Info,
    Warning,
    Error,
}

/// A source range inside a file, with one-based lines and columns.
#[derive(Debug, Clone)]
pub struct SourceLocation {
    pub path: String,
    pub start_line: usize,
    pub start_column: usize,
    pub end_line: usize,
    pub end_column: usize,
}

/// The mathematical value of a [`SourceLocation`].
pub struct LocationView {
    pub path: Seq<char>,
    pub start_line: usize,
    pub start_column: usize,
    pub end_line: usize,
    pub end_column: usize,
}

impl View for SourceLocation {
    type V = LocationView;

    open spec fn view(&self) -> LocationView {
        LocationView {
            path: self.path@,
            start_line: self.start_line,
            start_column: self.start_column,
            end_line: self.end_line,
            end_column: self.end_column,
        }
    }
}

impl DeepView for SourceLocation {
    type V = LocationView;

    open spec fn deep_view(&self) -> LocationView {
        self@
    }
}

impl SourceLocation {
    /// An equal copy of this location.
    pub fn copy(&self) -> (r: Self)
        ensures
            r@ == self@,
    {
        SourceLocation {
            path: self.path.clone(),
            start_line: self.start_line,
            start_column: self.start_column,
            end_line: self.end_line,
            end_column: self.end_column,
        }
    }

    /// Whether two locations are equal.
    pub fn equals(&self, other: &Self) -> (r: bool)
        ensures
            r == (self@ == other@),
    {
        self.path == other.path && self.start_line == other.start_line && self.start_column
            == other.start_column && self.end_line == other.end_line && self.end_column
            == other.end_column
    }
}

/// One redacted step of a dataflow trace.
#[derive(Debug, Clone)]
pub struct DataflowStep {
    pub label: String,
    pub location: SourceLocation,
}

/// The mathematical value of a [`DataflowStep`].
pub struct StepView {
    pub label: Seq<char>,
    pub location: LocationView,
}

impl View for DataflowStep {
    type V = StepView;

    open spec fn view(&self) -> StepView {
        StepView { label: self.label@, location: self.location@ }
    }
}

impl DeepView for DataflowStep {
    type V = StepView;

    open spec fn deep_view(&self) -> StepView {
        self@
    }
}

impl DataflowStep {
    /// An equal copy of this step.
    pub fn copy(&self) -> (r: Self)
        ensures
            r@ == self@,
    {
        DataflowStep { label: self.label.clone(), location: self.location.copy() }
    }

    /// Whether two steps are equal.
    pub fn equals(&self, other: &Self) -> (r: bool)
        ensures
            r == (self@ == other@),
    {
        self.label == other.label && self.location.equals(&other.location)
    }
}

/// An equal copy of a trace.
pub fn copy_steps(steps: &Vec<DataflowStep>) -> (r: Vec<DataflowStep>)
    ensures
        r.deep_view() == steps.deep_view(),
{
    let mut r: Vec<DataflowStep> = Vec::new();
    let mut i: usize = 0;
    while i < steps.len()
        invariant
            i <= steps.len(),
            r.len() == i,
            forall|j: int| 0 <= j < i ==> #[trigger] r@[j]@ == steps@[j]@,
        decreases steps.len() - i,
    {
        r.push(steps[i].copy());
        i += 1;
    }
    assert(r.deep_view() =~= steps.deep_view());
    r
}

/// Whether two traces are equal.
pub fn steps_equal(a: &Vec<DataflowStep>, b: &Vec<DataflowStep>) -> (r: bool)
    ensures
        r == (a.deep_view() == b.deep_view()),
{
    if a.len() != b.len() {
        assert(a.deep_view().len() != b.deep_view().len());
        return false;
    }
    let mut i: usize = 0;
    while i < a.len()
        invariant
            a.len() == b.len(),
            i <= a.len(),
            forall|j: int| 0 <= j < i ==> a.deep_view()[j] == b.deep_view()[j],
        decreases a.len() - i,
    {
        if !a[i].equals(&b[i]) {
            assert(a.deep_view()[i as int] != b.deep_view()[i as int]);
            return false;
        }
        i += 1;
    }
    assert(a.deep_view() =~= b.deep_view());
    true
}

/// A parser, scanner or limit diagnostic.
#[derive(Debug, Clone)]
pub struct Diagnostic {
    pub code: String,
    pub message: String,
    pub severity: DiagnosticSeverity,
    pub location: Option<SourceLocation>,
}

/// The mathematical value of a [`Diagnostic`].
pub struct DiagnosticView {
    pub code: Seq<char>,
    pub message: Seq<char>,
    pub severity: DiagnosticSeverity,
    pub location: Option<LocationView>,
}

impl DeepView for Diagnostic {
    type V = DiagnosticView;

    open spec fn deep_view(&self) -> DiagnosticView {
        DiagnosticView {
            code: self.code@,
            message: self.message@,
            severity: self.severity,
            location: match self.location {
                Some(l) => Some(l@),
                None => None,
            },
        }
    }
}

/// One security finding reported by a rule.
#[derive(Debug, Clone)]
pub struct Finding {
    pub rule_id: String,
    pub title: String,
    pub description: String,
    pub severity: Severity,
    pub confidence: Confidence,
    pub location: SourceLocation,
    pub fingerprint: String,
    pub cwe: Option<String>,
    pub framework: Option<String>,
    pub dataflow: Vec<DataflowStep>,
}

/// The mathematical value of a [`Finding`].
pub struct FindingView {
    pub rule_id: Seq<char>,
    pub title: Seq<char>,
    pub description: Seq<char>,
    pub severity: Severity,
    pub confidence: Confidence,
    pub location: LocationView,
    pub fingerprint: Seq<char>,
    pub cwe: Option<Seq<char>>,
    pub framework: Option<Seq<char>>,
    pub dataflow: Seq<StepView>,
}

impl View for Finding {
    type V = FindingView;

    open spec fn view(&self) -> FindingView {
        FindingView {
            rule_id: self.rule_id@,
            title: self.title@,
            description: self.description@,
            severity: self.severity,
            confidence: self.confidence,
            location: self.location@,
            fingerprint: self.fingerprint@,
            cwe: self.cwe.deep_view(),
            framework: self.framework.deep_view(),
            dataflow: self.dataflow.deep_view(),
        }
    }
}

impl DeepView for Finding {
    type V = FindingView;

    open spec fn deep_view(&self) -> FindingView {
        self@
    }
}

/// What the scan learned about the project.
#[derive(Debug, Clone)]
pub struct ProjectMetadata {
    pub root: String,
    pub languages: Vec<String>,
    pub frameworks: Vec<String>,
}

/// Counters of a scan.
#[derive(Debug, Clone, Copy, PartialEq, Eq, Structural)]
pub struct ScanStatistics {
    pub files_discovered: usize,
    pub files_parsed: usize,
    pub files_skipped: usize,
    pub parse_errors: usize,
    pub diagnostics: usize,
    pub findings: usize,
    pub suppressed_findings: usize,
}

impl Default for ScanStatistics {
    fn default() -> (r: Self)
        ensures
            r == (ScanStatistics {
                files_discovered: 0,
                files_parsed: 0,
                files_skipped: 0,
                parse_errors: 0,
                diagnostics: 0,
                findings: 0,
                suppressed_findings: 0,
            }),
    {
        ScanStatistics {
            files_discovered: 0,
            files_parsed: 0,
            files_skipped: 0,
            parse_errors: 0,
            diagnostics: 0,
            findings: 0,
            suppressed_findings: 0,
        }
    }
}

/// The complete outcome of a scan.
#[derive(Debug, Clone)]
pub struct ScanResult {
    pub project: ProjectMetadata,
    pub statistics: ScanStatistics,
    pub diagnostics: Vec<Diagnostic>,
    pub findings: Vec<Finding>,
}

/// A set of accepted finding fingerprints.
#[derive(Debug, Clone, PartialEq, Eq)]
pub struct FindingBaseline {
    pub schema_version: u32,
    pub fingerprints: Vec<String>,
}

/// Strict lexicographic order on texts (the order of `String`).
pub open spec fn text_less(a: Seq<char>, b: Seq<char>) -> bool
    decreases a.len(),
{
    if a.len() == 0 {
        b.len() > 0
    } else if b.len() == 0 {
        false
    } else if a[0] != b[0] {
        a[0] < b[0]
    } else {
        text_less(a.drop_first(), b.drop_first())
    }
}

/// The texts are in strictly increasing order, hence pairwise distinct.
pub open spec fn strictly_sorted(s: Seq<Seq<char>>) -> bool {
    forall|i: int, j: int| 0 <= i < j < s.len() ==> text_less(#[trigger] s[i], #[trigger] s[j])
}

/// The fingerprints of a list of findings.
pub open spec fn fingerprints_of(findings: Seq<Finding>) -> Seq<Seq<char>> {
    findings.map_values(|f: Finding| f.fingerprint@)
}

/// Findings whose fingerprint is not among `known`, in their order.
pub open spec fn unknown_findings(findings: Seq<Finding>, known: Seq<Seq<char>>) -> Seq<Finding>
    decreases findings.len(),
{
    if findings.len() == 0 {
        findings
    } else {
        let rest = unknown_findings(findings.drop_last(), known);
        if known.contains(findings.last().fingerprint@) {
            rest
        } else {
            rest.push(findings.last())
        }
    }
}

/// No text comes before itself.
pub proof fn lemma_text_less_irreflexive(a: Seq<char>)
    ensures
        !text_less(a, a),
    decreases a.len(),
{
    if a.len() > 0 {
        lemma_text_less_irreflexive(a.drop_first());
    }
}

/// The text order is transitive.
pub proof fn lemma_text_less_transitive(a: Seq<char>, b: Seq<char>, c: Seq<char>)
    requires
        text_less(a, b),
        text_less(b, c),
    ensures
        text_less(a, c),
    decreases a.len(),
{
    if a.len() > 0 && b.len() > 0 && c.len() > 0 && a[0] == b[0] && b[0] == c[0] {
        lemma_text_less_transitive(a.drop_first(), b.drop_first(), c.drop_first());
    }
}

/// Of two different texts, one comes before the other.
pub proof fn lemma_text_less_total(a: Seq<char>, b: Seq<char>)
    ensures
        a == b || text_less(a, b) || text_less(b, a),
    decreases a.len(),
{
    if a.len() > 0 && b.len() > 0 {
        if a[0] == b[0] {
            lemma_text_less_total(a.drop_first(), b.drop_first());
            if a.drop_first() == b.drop_first() {
                assert(a =~= seq![a[0]] + a.drop_first());
                assert(b =~= seq![b[0]] + b.drop_first());
            }
        }
    } else if a.len() == 0 && b.len() == 0 {
        assert(a =~= b);
    }
}

/// Lexicographic comparison of two texts.
pub(crate) fn text_less_exec(a: &Vec<char>, b: &Vec<char>) -> (r: bool)
    ensures
        r == text_less(a@, b@),
{
    let mut i: usize = 0;
    assert(a@.subrange(0, a@.len() as int) =~= a@);
    assert(b@.subrange(0, b@.len() as int) =~= b@);
    while i < a.len() && i < b.len() && a[i] == b[i]
        invariant
            i <= a.len(),
            i <= b.len(),
            forall|j: int| 0 <= j < i ==> a@[j] == b@[j],
            text_less(a@, b@) == text_less(
                a@.subrange(i as int, a@.len() as int),
                b@.subrange(i as int, b@.len() as int),
            ),
        decreases a.len() - i,
    {
        let ghost sa = a@.subrange(i as int, a@.len() as int);
        let ghost sb = b@.subrange(i as int, b@.len() as int);
        assert(sa.drop_first() =~= a@.subrange(i + 1, a@.len() as int));
        assert(sb.drop_first() =~= b@.subrange(i + 1, b@.len() as int));
        i += 1;
    }
    if i == a.len() {
        i < b.len()
    } else if i == b.len() {
        false
    } else {
        a[i] < b[i]
    }
}

/// The distinct texts of a list, in strictly increasing order.
pub(crate) fn sorted_distinct_texts(values: &Vec<String>) -> (r: Vec<String>)
ensures
    strictly_sorted(r.deep_view()),
    forall|t: Seq<char>| r.deep_view().contains(t) <==> values.deep_view().contains(t),
{
    let mut sorted: Vec<String> = Vec::new();
    let mut keys: Vec<Vec<char>> = Vec::new();
    let mut i: usize = 0;
    while i < values.len()
        invariant
            i <= values.len(),
            keys.len() == sorted.len(),
            forall|k: int| 0 <= k < keys.len() ==> #[trigger] keys@[k]@ == sorted@[k]@,
            strictly_sorted(sorted.deep_view()),
            forall|t: Seq<char>|
                sorted.deep_view().contains(t) <==> values.deep_view().subrange(0, i as int).contains(t),
        decreases values.len() - i,
    {
        let fingerprint = &values[i];
        let key = crate::text::chars_of(fingerprint.as_str());
        let ghost old_view = sorted.deep_view();
        // find the insertion point
        let mut pos: usize = 0;
        while pos < keys.len() && text_less_exec(&keys[pos], &key)
            invariant
                pos <= keys.len(),
                keys.len() == sorted.len(),
                forall|k: int| 0 <= k < keys.len() ==> #[trigger] keys@[k]@ == sorted@[k]@,
                forall|k: int| 0 <= k < pos ==> text_less(#[trigger] old_view[k], key@),
                old_view == sorted.deep_view(),
            decreases keys.len() - pos,
        {
            pos += 1;
        }
        let ghost prefix = values.deep_view().subrange(0, i as int);
        assert(values.deep_view().subrange(0, i + 1) =~= prefix.push(
            key@,
        ));
        if pos < keys.len() && !text_less_exec(&key, &keys[pos]) {
            // already present
            proof {
                lemma_text_less_total(old_view[pos as int], key@);
            }
            assert(old_view[pos as int] == key@);
            assert forall|t: Seq<char>|
                sorted.deep_view().contains(t) <==> values.deep_view().subrange(0, i + 1).contains(t) by {
                if t == key@ {
                    assert(sorted.deep_view()[pos as int] == t);
                }
                if prefix.push(key@).contains(t) && t != key@ {
                    let w = choose|w: int| 0 <= w < prefix.push(key@).len() && prefix.push(
                        key@,
                    )[w] == t;
                    assert(prefix[w] == t);
                }
                if prefix.contains(t) {
                    let w = choose|w: int| 0 <= w < prefix.len() && prefix[w] == t;
                    assert(prefix.push(key@)[w] == t);
                }
            }
        } else {
            let ghost old_keys = keys@;
            let ghost kv = key@;
            sorted.insert(pos, fingerprint.clone());
            keys.insert(pos, key);
            assert(keys@ == old_keys.insert(pos as int, keys@[pos as int]));
            proof {
                let nv = sorted.deep_view();
                assert(nv =~= old_view.insert(pos as int, key@));
                assert forall|a: int, b: int| 0 <= a < b < nv.len() implies text_less(
                    #[trigger] nv[a],
                    #[trigger] nv[b],
                ) by {
                    if b == pos {
                        assert(text_less(old_view[a], key@));
                    } else if a == pos {
                        assert(text_less(key@, old_view[pos as int]));
                        if b - 1 > pos {
                            lemma_text_less_transitive(
                                key@,
                                old_view[pos as int],
                                old_view[b - 1],
                            );
                        }
                    } else if a < pos && b > pos {
                        assert(text_less(old_view[a], key@));
                        assert(text_less(key@, old_view[pos as int]));
                        lemma_text_less_transitive(old_view[a], key@, old_view[pos as int]);
                        if b - 1 > pos {
                            lemma_text_less_transitive(
                                old_view[a],
                                old_view[pos as int],
                                old_view[b - 1],
                            );
                        }
                    } else if a > pos {
                        assert(text_less(old_view[a - 1], old_view[b - 1]));
                    } else {
                        assert(text_less(old_view[a], old_view[b]));
                    }
                }
                assert forall|k: int| 0 <= k < keys.len() implies #[trigger] keys@[k]@
                    == sorted@[k]@ by {
                    if k > pos {
                        assert(keys@[k] == old_keys[k - 1]);
                    }
                }
                assert forall|t: Seq<char>| nv.contains(t) <==> prefix.push(key@).contains(
                    t,
                ) by {
                    if nv.contains(t) && t != key@ {
                        let w = choose|w: int| 0 <= w < nv.len() && nv[w] == t;
                        if w < pos {
                            assert(old_view[w] == t);
                        } else {
                            assert(old_view[w - 1] == t);
                        }
                        assert(old_view.contains(t));
                        let x = choose|x: int| 0 <= x < prefix.len() && prefix[x] == t;
                        assert(prefix.push(key@)[x] == t);
                    }
                    if t == key@ {
                        assert(nv[pos as int] == t);
                        assert(prefix.push(key@)[prefix.len() as int] == t);
                    }
                    if prefix.push(key@).contains(t) && t != key@ {
                        let w = choose|w: int| 0 <= w < prefix.push(key@).len() && prefix.push(
                            key@,
                        )[w] == t;
                        assert(prefix[w] == t);
                        assert(old_view.contains(t));
                        let x = choose|x: int| 0 <= x < old_view.len() && old_view[x] == t;
                        if x < pos {
                            assert(nv[x] == t);
                        } else {
                            assert(nv[x + 1] == t);
                        }
                    }
                }
            }
        }
        i += 1;
    }
    assert(values.deep_view().subrange(0, values.len() as int) =~= values.deep_view());
    sorted
}

impl FindingBaseline {
    /// The baseline schema version written and accepted by this library.
    pub const SCHEMA_VERSION: u32 = 1;

    /// A baseline of the distinct fingerprints of the result's findings, in increasing order.
    pub fn from_result(result: &ScanResult) -> (r: Self)
        ensures
            r.schema_version == Self::SCHEMA_VERSION,
            strictly_sorted(r.fingerprints.deep_view()),
            forall|t: Seq<char>|
                r.fingerprints.deep_view().contains(t) <==> fingerprints_of(
                    result.findings@,
                ).contains(t),
    {
        let mut all: Vec<String> = Vec::new();
        let mut i: usize = 0;
        while i < result.findings.len()
            invariant
                i <= result.findings.len(),
                all.deep_view() == fingerprints_of(result.findings@.subrange(0, i as int)),
            decreases result.findings.len() - i,
        {
            let ghost before = all.deep_view();
            all.push(result.findings[i].fingerprint.clone());
            assert(all.deep_view() =~= before.push(result.findings@[i as int].fingerprint@));
            i += 1;
            assert(all.deep_view() =~= fingerprints_of(result.findings@.subrange(0, i as int)));
        }
        assert(result.findings@.subrange(0, i as int) =~= result.findings@);
        let fingerprints = sorted_distinct_texts(&all);
        FindingBaseline { schema_version: Self::SCHEMA_VERSION, fingerprints }
    }

    /// Accepts a baseline of the schema version this library reads; refuses any other with
    /// the version it has.
    pub fn check_schema_version(&self) -> (r: Result<(), u32>)
        ensures
            match r {
                Ok(()) => self.schema_version == Self::SCHEMA_VERSION,
                Err(v) => v == self.schema_version && v != Self::SCHEMA_VERSION,
            },
    {
        if self.schema_version == Self::SCHEMA_VERSION {
            Ok(())
        } else {
            Err(self.schema_version)
        }
    }

    /// Whether a fingerprint belongs to this baseline.
    fn knows(&self, fingerprint: &String) -> (r: bool)
        ensures
            r == self.fingerprints.deep_view().contains(fingerprint@),
    {
        let mut i: usize = 0;
        while i < self.fingerprints.len()
            invariant
                i <= self.fingerprints.len(),
                forall|k: int| 0 <= k < i ==> self.fingerprints@[k]@ != fingerprint@,
            decreases self.fingerprints.len() - i,
        {
            if self.fingerprints[i] == *fingerprint {
                assert(self.fingerprints.deep_view()[i as int] == fingerprint@);
                return true;
            }
            i += 1;
        }
        assert forall|k: int| 0 <= k < self.fingerprints.deep_view().len() implies
            self.fingerprints.deep_view()[k] != fingerprint@ by {
            assert(self.fingerprints@[k]@ != fingerprint@);
        }
        false
    }

    /// Removes the findings whose fingerprint the baseline knows, keeps the order of the
    /// others, updates the finding counters and returns how many findings were removed.
    pub fn apply(&self, result: &mut ScanResult) -> (suppressed: usize)
        requires
            old(result).statistics.suppressed_findings + old(result).findings.len() <= usize::MAX,
        ensures
            final(result).findings@ == unknown_findings(
                old(result).findings@,
                self.fingerprints.deep_view(),
            ),
            suppressed == old(result).findings.len() - final(result).findings.len(),
            final(result).statistics == (ScanStatistics {
                findings: final(result).findings.len(),
                suppressed_findings: (old(result).statistics.suppressed_findings
                    + suppressed) as usize,
                ..old(result).statistics
            }),
            final(result).project == old(result).project,
            final(result).diagnostics == old(result).diagnostics,
    {
        let ghost initial = result.findings@;
        let ghost known = self.fingerprints.deep_view();
        let before = result.findings.len();
        let mut i: usize = 0;
        let mut j: usize = 0;
        while i < result.findings.len()
            invariant
                i <= result.findings.len(),
                j <= initial.len(),
                result.findings.len() - i == initial.len() - j,
                result.findings@.subrange(0, i as int) == unknown_findings(
                    initial.subrange(0, j as int),
                    known,
                ),
                result.findings@.subrange(i as int, result.findings.len() as int)
                    == initial.subrange(j as int, initial.len() as int),
                known == self.fingerprints.deep_view(),
                result.project == old(result).project,
                result.diagnostics == old(result).diagnostics,
                result.statistics == old(result).statistics,
                before == initial.len(),
                result.findings.len() <= before,
            decreases result.findings.len() - i,
        {
            let ghost prev = result.findings@;
            assert(initial.subrange(0, j + 1).drop_last() =~= initial.subrange(0, j as int));
            assert(initial[j as int] == prev[i as int]) by {
                assert(prev.subrange(i as int, prev.len() as int)[0] == prev[i as int]);
            }
            if self.knows(&result.findings[i].fingerprint) {
                result.findings.remove(i);
                assert(result.findings@.subrange(0, i as int) =~= prev.subrange(0, i as int));
                assert(result.findings@.subrange(i as int, result.findings.len() as int)
                    =~= prev.subrange(i + 1, prev.len() as int));
            } else {
                i += 1;
                assert(result.findings@.subrange(0, i as int) =~= prev.subrange(
                    0,
                    i - 1,
                ).push(prev[i - 1]));
            }
            j += 1;
            assert(initial.subrange(j as int, initial.len() as int) =~= initial.subrange(
                j - 1,
                initial.len() as int,
            ).drop_first());
        }
        assert(result.findings@.subrange(0, i as int) =~= result.findings@);
        assert(initial.subrange(0, initial.len() as int) =~= initial);
        let suppressed = before - result.findings.len();
        result.statistics.findings = result.findings.len();
        result.statistics.suppressed_findings = result.statistics.suppressed_findings + suppressed;
        suppressed
    }
}

} // verus!
