//! The content of reports: the terminal text and the SARIF model of a scan result.
use crate::findings::{
    sorted_distinct_texts, strictly_sorted, Confidence, DataflowStep, Diagnostic,
    DiagnosticSeverity, Finding, LocationView, ScanResult, Severity, SourceLocation,
};
use crate::text::{decimal, decimal_exec, join2, join3, owned, slashes, slashes_exec};
use vstd::prelude::*;

verus! {

/// The formats a report can be written in.
#[derive(Debug, Clone, Copy, PartialEq, Eq, Structural)]
pub enum OutputFormat {
    Terminal,
    Json,
    Sarif,
}

/// The texts joined with a separator between each two.
pub open spec fn joined(values: Seq<Seq<char>>, sep: Seq<char>) -> Seq<char>
    decreases values.len(),
{
    if values.len() == 0 {
        seq![]
    } else if values.len() == 1 {
        values[0]
    } else {
        joined(values.drop_last(), sep) + sep + values.last()
    }
}

fn join_texts(values: &Vec<String>, sep: &str) -> (r: String)
    ensures
        r@ == joined(values.deep_view(), sep@),
{
    let ghost vs = values.deep_view();
    let mut r = String::new();
    let mut i: usize = 0;
    while i < values.len()
        invariant
            i <= values.len(),
            vs == values.deep_view(),
            r@ == joined(vs.subrange(0, i as int), sep@),
        decreases values.len() - i,
    {
        let ghost s = vs.subrange(0, i + 1);
        assert(s.drop_last() =~= vs.subrange(0, i as int));
        assert(s.last() == values@[i as int]@);
        if i > 0 {
            r.append(sep);
        }
        r.append(values[i].as_str());
        i += 1;
        proof {
            if i == 1 {
                assert(r@ =~= s[0]);
            }
        }
    }
    assert(vs.subrange(0, vs.len() as int) =~= vs);
    r
}

/// The framework list of a report: the detected frameworks, or `generic-php` if none.
pub open spec fn frameworks_text(frameworks: Seq<Seq<char>>) -> Seq<char> {
    if frameworks.len() == 0 {
        "generic-php"@
    } else {
        joined(frameworks, ", "@)
    }
}

/// The framework list of a report: the detected frameworks, or `generic-php` if none.
pub fn display_frameworks(frameworks: &Vec<String>) -> (r: String)
    ensures
        r@ == frameworks_text(frameworks.deep_view()),
{
    if frameworks.len() == 0 {
        owned("generic-php")
    } else {
        join_texts(frameworks, ", ")
    }
}

/// The SARIF level of a severity.
pub open spec fn level_text(severity: Severity) -> Seq<char> {
    match severity {
        Severity::Low => "note"@,
        Severity::Medium => "warning"@,
        Severity::High => "error"@,
        Severity::Critical => "error"@,
    }
}

/// The SARIF level of a severity.
pub fn sarif_level(severity: Severity) -> (r: &'static str)
    ensures
        r@ == level_text(severity),
{
    match severity {
        Severity::Low => "note",
        Severity::Medium => "warning",
        Severity::High => "error",
        Severity::Critical => "error",
    }
}

/// The name of a severity as the terminal report prints it.
pub open spec fn severity_text(severity: Severity) -> Seq<char> {
    match severity {
        Severity::Low => "Low"@,
        Severity::Medium => "Medium"@,
        Severity::High => "High"@,
        Severity::Critical => "Critical"@,
    }
}

fn severity_name(severity: Severity) -> (r: &'static str)
    ensures
        r@ == severity_text(severity),
{
    match severity {
        Severity::Low => "Low",
        Severity::Medium => "Medium",
        Severity::High => "High",
        Severity::Critical => "Critical",
    }
}

/// The name of a diagnostic severity as the terminal report prints it.
pub open spec fn diagnostic_severity_text(severity: DiagnosticSeverity) -> Seq<char> {
    match severity {
        DiagnosticSeverity::Info => "Info"@,
        DiagnosticSeverity::Warning => "Warning"@,
        DiagnosticSeverity::Error => "Error"@,
    }
}

fn diagnostic_severity_name(severity: DiagnosticSeverity) -> (r: &'static str)
    ensures
        r@ == diagnostic_severity_text(severity),
{
    match severity {
        DiagnosticSeverity::Info => "Info",
        DiagnosticSeverity::Warning => "Warning",
        DiagnosticSeverity::Error => "Error",
    }
}

/// The lower-case name of a confidence.
pub open spec fn confidence_text(confidence: Confidence) -> Seq<char> {
    match confidence {
        Confidence::Low => "low"@,
        Confidence::Medium => "medium"@,
        Confidence::High => "high"@,
    }
}

fn confidence_name(confidence: Confidence) -> (r: &'static str)
    ensures
        r@ == confidence_text(confidence),
{
    match confidence {
        Confidence::Low => "low",
        Confidence::Medium => "medium",
        Confidence::High => "high",
    }
}

// ---------------------------------------------------------------------------------------------
// Terminal text
/// `path:line:column` of a location.
pub open spec fn place_text(l: LocationView) -> Seq<char> {
    l.path + ":"@ + decimal(l.start_line as nat) + ":"@ + decimal(l.start_column as nat)
}

/// One labelled counter line.
pub open spec fn counter_line(label: Seq<char>, n: usize) -> Seq<char> {
    label + decimal(n as nat) + "\n"@
}

/// The summary lines at the top of the terminal report.
pub open spec fn header_text(result: ScanResult) -> Seq<char> {
    "Fermio Security scan\n"@ + "Root: "@ + result.project.root@ + "\n"@ + "Languages: "@
        + joined(result.project.languages.deep_view(), ", "@) + "\n"@ + "Frameworks: "@
        + frameworks_text(result.project.frameworks.deep_view()) + "\n"@ + counter_line(
        "Files discovered: "@,
        result.statistics.files_discovered,
    ) + counter_line("Files parsed: "@, result.statistics.files_parsed) + counter_line(
        "Files skipped: "@,
        result.statistics.files_skipped,
    ) + counter_line("Diagnostics: "@, result.statistics.diagnostics) + counter_line(
        "Suppressed findings: "@,
        result.statistics.suppressed_findings,
    ) + counter_line("Findings: "@, result.statistics.findings) + "\n"@
}

/// The lines of one diagnostic.
pub open spec fn diagnostic_text(d: Diagnostic) -> Seq<char> {
    diagnostic_severity_text(d.severity) + " "@ + d.code@ + match d.location {
        Some(l) => " "@ + place_text(l@),
        None => seq![],
    } + "\n"@ + "  "@ + d.message@ + "\n"@ + "\n"@
}

/// The line of one trace step.
pub open spec fn step_text(s: DataflowStep) -> Seq<char> {
    "    -> "@ + s.label@ + " at "@ + place_text(s.location@) + "\n"@
}

/// The lines of a trace.
pub open spec fn steps_text(steps: Seq<DataflowStep>) -> Seq<char>
    decreases steps.len(),
{
    if steps.len() == 0 {
        seq![]
    } else {
        steps_text(steps.drop_last()) + step_text(steps.last())
    }
}

/// The lines of one finding.
pub open spec fn finding_text(f: Finding) -> Seq<char> {
    severity_text(f.severity) + " "@ + f.rule_id@ + " "@ + place_text(f.location@) + "\n"@ + "  "@
        + f.title@ + "\n"@ + "  "@ + f.description@ + "\n"@ + steps_text(f.dataflow@) + "\n"@
}

/// The lines of all diagnostics.
pub open spec fn diagnostics_text(ds: Seq<Diagnostic>) -> Seq<char>
    decreases ds.len(),
{
    if ds.len() == 0 {
        seq![]
    } else {
        diagnostics_text(ds.drop_last()) + diagnostic_text(ds.last())
    }
}

/// The lines of all findings.
pub open spec fn findings_text(fs: Seq<Finding>) -> Seq<char>
    decreases fs.len(),
{
    if fs.len() == 0 {
        seq![]
    } else {
        findings_text(fs.drop_last()) + finding_text(fs.last())
    }
}

/// The terminal report: the summary, then every diagnostic, then every finding.
pub open spec fn terminal_text(result: ScanResult) -> Seq<char> {
    header_text(result) + diagnostics_text(result.diagnostics@) + findings_text(result.findings@)
}

fn place_exec(l: &SourceLocation) -> (r: String)
    ensures
        r@ == place_text(l@),
{
    let line = decimal_exec(l.start_line);
    let column = decimal_exec(l.start_column);
    let mut r = join3(l.path.as_str(), ":", line.as_str());
    r.append(":");
    r.append(column.as_str());
    r
}

fn counter_exec(out: &mut String, label: &str, n: usize)
    ensures
        final(out)@ == old(out)@ + counter_line(label@, n),
{
    let d = decimal_exec(n);
    out.append(label);
    out.append(d.as_str());
    out.append("\n");
}

fn header_exec(result: &ScanResult) -> (r: String)
    ensures
        r@ == header_text(*result),
{
    let mut r = owned("Fermio Security scan\n");
    r.append("Root: ");
    r.append(result.project.root.as_str());
    r.append("\n");
    r.append("Languages: ");
    let languages = join_texts(&result.project.languages, ", ");
    r.append(languages.as_str());
    r.append("\n");
    r.append("Frameworks: ");
    let frameworks = display_frameworks(&result.project.frameworks);
    r.append(frameworks.as_str());
    r.append("\n");
    counter_exec(&mut r, "Files discovered: ", result.statistics.files_discovered);
    counter_exec(&mut r, "Files parsed: ", result.statistics.files_parsed);
    counter_exec(&mut r, "Files skipped: ", result.statistics.files_skipped);
    counter_exec(&mut r, "Diagnostics: ", result.statistics.diagnostics);
    counter_exec(&mut r, "Suppressed findings: ", result.statistics.suppressed_findings);
    counter_exec(&mut r, "Findings: ", result.statistics.findings);
    r.append("\n");
    r
}

fn diagnostic_exec(d: &Diagnostic) -> (r: String)
    ensures
        r@ == diagnostic_text(*d),
{
    let mut r = join3(diagnostic_severity_name(d.severity), " ", d.code.as_str());
    match &d.location {
        Some(l) => {
            let p = place_exec(l);
            r.append(" ");
            r.append(p.as_str());
        },
        None => {
            proof {
                assert(r@ + seq![] =~= r@);
            }
        },
    }
    r.append("\n");
    r.append("  ");
    r.append(d.message.as_str());
    r.append("\n");
    r.append("\n");
    r
}

fn finding_exec(f: &Finding) -> (r: String)
    ensures
        r@ == finding_text(*f),
{
    let p = place_exec(&f.location);
    let mut r = join3(severity_name(f.severity), " ", f.rule_id.as_str());
    r.append(" ");
    r.append(p.as_str());
    r.append("\n");
    r.append("  ");
    r.append(f.title.as_str());
    r.append("\n");
    r.append("  ");
    r.append(f.description.as_str());
    r.append("\n");
    let ghost head = r@;
    let mut i: usize = 0;
    while i < f.dataflow.len()
        invariant
            i <= f.dataflow.len(),
            r@ == head + steps_text(f.dataflow@.subrange(0, i as int)),
        decreases f.dataflow.len() - i,
    {
        let step = &f.dataflow[i];
        let sp = place_exec(&step.location);
        r.append("    -> ");
        r.append(step.label.as_str());
        r.append(" at ");
        r.append(sp.as_str());
        r.append("\n");
        proof {
            let s = f.dataflow@.subrange(0, i + 1);
            assert(s.drop_last() =~= f.dataflow@.subrange(0, i as int));
            assert(s.last() == f.dataflow@[i as int]);
        }
        i += 1;
    }
    assert(f.dataflow@.subrange(0, i as int) =~= f.dataflow@);
    r.append("\n");
    r
}

/// The terminal report of a scan result.
pub fn terminal_report(result: &ScanResult) -> (r: String)
    ensures
        r@ == terminal_text(*result),
{
    let mut r = header_exec(result);
    let ghost head = r@;
    let mut i: usize = 0;
    while i < result.diagnostics.len()
        invariant
            i <= result.diagnostics.len(),
            r@ == head + diagnostics_text(result.diagnostics@.subrange(0, i as int)),
        decreases result.diagnostics.len() - i,
    {
        let d = diagnostic_exec(&result.diagnostics[i]);
        r.append(d.as_str());
        proof {
            let s = result.diagnostics@.subrange(0, i + 1);
            assert(s.drop_last() =~= result.diagnostics@.subrange(0, i as int));
            assert(s.last() == result.diagnostics@[i as int]);
        }
        i += 1;
    }
    assert(result.diagnostics@.subrange(0, i as int) =~= result.diagnostics@);
    let ghost middle = r@;
    let mut k: usize = 0;
    while k < result.findings.len()
        invariant
            k <= result.findings.len(),
            r@ == middle + findings_text(result.findings@.subrange(0, k as int)),
        decreases result.findings.len() - k,
    {
        let f = finding_exec(&result.findings[k]);
        r.append(f.as_str());
        proof {
            let s = result.findings@.subrange(0, k + 1);
            assert(s.drop_last() =~= result.findings@.subrange(0, k as int));
            assert(s.last() == result.findings@[k as int]);
        }
        k += 1;
    }
    assert(result.findings@.subrange(0, k as int) =~= result.findings@);
    r
}

// ---------------------------------------------------------------------------------------------
// SARIF
/// A file region in a SARIF log, relative to the source root.
#[derive(Debug, Clone)]
pub struct SarifPhysicalLocation {
    pub uri: String,
    pub start_line: usize,
    pub start_column: usize,
    pub end_line: usize,
    pub end_column: usize,
}

/// One step of a SARIF code flow.
#[derive(Debug, Clone)]
pub struct SarifFlowStep {
    pub message: String,
    pub location: SarifPhysicalLocation,
}

/// The description of one rule in a SARIF log.
#[derive(Debug, Clone)]
pub struct SarifRule {
    pub id: String,
    pub short_description: String,
    pub full_description: String,
    pub cwe: Option<String>,
}

/// One finding in a SARIF log.
#[derive(Debug, Clone)]
pub struct SarifResult {
    pub rule_id: String,
    pub rule_index: usize,
    pub level: &'static str,
    pub message: String,
    pub fingerprint: String,
    pub location: SarifPhysicalLocation,
    pub confidence: &'static str,
    pub framework: Option<String>,
    pub code_flow: Vec<SarifFlowStep>,
}

/// The content of a SARIF log: the format, the tool, the rules that reported something and
/// their results.
#[derive(Debug, Clone)]
pub struct SarifReport {
    pub schema: &'static str,
    pub version: &'static str,
    pub tool_name: &'static str,
    pub information_uri: &'static str,
    pub rules: Vec<SarifRule>,
    pub results: Vec<SarifResult>,
}

/// The physical location of a source location: its path with forward slashes and its range.
pub open spec fn physical_location_of(p: SarifPhysicalLocation, l: LocationView) -> bool {
    &&& p.uri@ == slashes(l.path)
    &&& p.start_line == l.start_line
    &&& p.start_column == l.start_column
    &&& p.end_line == l.end_line
    &&& p.end_column == l.end_column
}

/// The rule identifiers of a list of findings.
pub open spec fn finding_rule_ids(findings: Seq<Finding>) -> Seq<Seq<char>> {
    findings.map_values(|f: Finding| f.rule_id@)
}

/// `j` is the first finding with rule identifier `id`.
pub open spec fn first_with_rule(findings: Seq<Finding>, id: Seq<char>, j: int) -> bool {
    &&& 0 <= j < findings.len()
    &&& findings[j].rule_id@ == id
    &&& forall|k: int| 0 <= k < j ==> (#[trigger] findings[k]).rule_id@ != id
}

/// `r` describes a rule by the title, description and CWE of finding `f`.
pub open spec fn rule_from_finding(r: SarifRule, f: Finding) -> bool {
    &&& r.id@ == f.rule_id@
    &&& r.short_description@ == f.title@
    &&& r.full_description@ == f.description@
    &&& r.cwe.deep_view() == f.cwe.deep_view()
}

/// `r` is the SARIF result of finding `f`, whose rule has index `index`.
pub open spec fn result_from_finding(r: SarifResult, f: Finding, index: usize) -> bool {
    &&& r.rule_id@ == f.rule_id@
    &&& r.rule_index == index
    &&& r.level@ == level_text(f.severity)
    &&& r.message@ == f.description@
    &&& r.fingerprint@ == f.fingerprint@
    &&& physical_location_of(r.location, f.location@)
    &&& r.confidence@ == confidence_text(f.confidence)
    &&& r.framework.deep_view() == f.framework.deep_view()
    &&& r.code_flow@.len() == f.dataflow@.len()
    &&& forall|k: int|
        0 <= k < r.code_flow@.len() ==> (#[trigger] r.code_flow@[k]).message@ == f.dataflow@[k].label@
            && physical_location_of(r.code_flow@[k].location, f.dataflow@[k].location@)
}

fn physical_location(l: &SourceLocation) -> (r: SarifPhysicalLocation)
    ensures
        physical_location_of(r, l@),
{
    SarifPhysicalLocation {
        uri: slashes_exec(l.path.as_str()),
        start_line: l.start_line,
        start_column: l.start_column,
        end_line: l.end_line,
        end_column: l.end_column,
    }
}

fn copy_option(o: &Option<String>) -> (r: Option<String>)
    ensures
        r.deep_view() == o.deep_view(),
{
    match o {
        Some(s) => Some(s.clone()),
        None => None,
    }
}

fn sarif_result(f: &Finding, index: usize) -> (r: SarifResult)
    ensures
        result_from_finding(r, *f, index),
{
    let mut flow: Vec<SarifFlowStep> = Vec::new();
    let mut i: usize = 0;
    while i < f.dataflow.len()
        invariant
            i <= f.dataflow.len(),
            flow@.len() == i,
            forall|k: int|
                0 <= k < i ==> (#[trigger] flow@[k]).message@ == f.dataflow@[k].label@
                    && physical_location_of(flow@[k].location, f.dataflow@[k].location@),
        decreases f.dataflow.len() - i,
    {
        let step = &f.dataflow[i];
        flow.push(
            SarifFlowStep {
                message: step.label.clone(),
                location: physical_location(&step.location),
            },
        );
        i += 1;
    }
    SarifResult {
        rule_id: f.rule_id.clone(),
        rule_index: index,
        level: sarif_level(f.severity),
        message: f.description.clone(),
        fingerprint: f.fingerprint.clone(),
        location: physical_location(&f.location),
        confidence: confidence_name(f.confidence),
        framework: copy_option(&f.framework),
        code_flow: flow,
    }
}

/// The SARIF content of a scan result: one rule per distinct rule identifier, in increasing
/// order and described by its first finding, and one result per finding, in order, pointing at
/// its rule.
pub fn sarif_report(result: &ScanResult) -> (r: SarifReport)
    ensures
        r.schema@ == "https://json.schemastore.org/sarif-2.1.0.json"@,
        r.version@ == "2.1.0"@,
        r.tool_name@ == "fermio-sec"@,
        r.information_uri@ == "https://github.com/fermio-technologies/fermio-sec-cli"@,
        strictly_sorted(r.rules@.map_values(|x: SarifRule| x.id@)),
        forall|t: Seq<char>|
            r.rules@.map_values(|x: SarifRule| x.id@).contains(t) <==> finding_rule_ids(
                result.findings@,
            ).contains(t),
        forall|k: int|
            0 <= k < r.rules@.len() ==> exists|j: int|
                first_with_rule(result.findings@, #[trigger] r.rules@[k].id@, j)
                    && rule_from_finding(r.rules@[k], result.findings@[j]),
        r.results@.len() == result.findings@.len(),
        forall|i: int|
            0 <= i < r.results@.len() ==> {
                let index = (#[trigger] r.results@[i]).rule_index;
                &&& index < r.rules@.len()
                &&& r.rules@[index as int].id@ == result.findings@[i].rule_id@
                &&& result_from_finding(r.results@[i], result.findings@[i], index)
            },
{
    let findings = &result.findings;
    let mut all: Vec<String> = Vec::new();
    let mut i: usize = 0;
    while i < findings.len()
        invariant
            i <= findings.len(),
            all.deep_view() == finding_rule_ids(findings@.subrange(0, i as int)),
        decreases findings.len() - i,
    {
        let ghost before = all.deep_view();
        all.push(findings[i].rule_id.clone());
        assert(all.deep_view() =~= before.push(findings@[i as int].rule_id@));
        i += 1;
        assert(all.deep_view() =~= finding_rule_ids(findings@.subrange(0, i as int)));
    }
    assert(findings@.subrange(0, i as int) =~= findings@);
    let ids = sorted_distinct_texts(&all);
    let ghost idv = ids.deep_view();
    let mut rules: Vec<SarifRule> = Vec::new();
    let mut k: usize = 0;
    while k < ids.len()
        invariant
            k <= ids.len(),
            idv == ids.deep_view(),
            all.deep_view() == finding_rule_ids(findings@),
            forall|t: Seq<char>| idv.contains(t) <==> all.deep_view().contains(t),
            rules@.len() == k,
            forall|m: int| 0 <= m < k ==> (#[trigger] rules@[m]).id@ == idv[m],
            forall|m: int|
                0 <= m < k ==> exists|j: int|
                    first_with_rule(findings@, #[trigger] rules@[m].id@, j) && rule_from_finding(
                        rules@[m],
                        findings@[j],
                    ),
        decreases ids.len() - k,
    {
        assert(idv[k as int] == ids@[k as int]@);
        assert(idv.contains(idv[k as int]));
        let ghost w = choose|w: int| 0 <= w < all.deep_view().len() && all.deep_view()[w] == idv[k as int];
        assert(findings@[w].rule_id@ == idv[k as int]);
        let mut j: usize = 0;
        while findings[j].rule_id != ids[k]
            invariant
                j <= w,
                0 <= w < findings.len(),
                findings@[w].rule_id@ == idv[k as int],
                idv[k as int] == ids@[k as int]@,
                k < ids@.len(),
                forall|m: int| 0 <= m < j ==> (#[trigger] findings@[m]).rule_id@ != idv[k as int],
            decreases w - j,
        {
            assert(findings@[j as int].rule_id@ != idv[k as int]);
            assert(j != w);
            j += 1;
        }
        let f = &findings[j];
        let rule = SarifRule {
            id: f.rule_id.clone(),
            short_description: f.title.clone(),
            full_description: f.description.clone(),
            cwe: copy_option(&f.cwe),
        };
        assert(first_with_rule(findings@, rule.id@, j as int));
        rules.push(rule);
        assert(rules@[k as int] == rule);
        k += 1;
    }
    assert(rules@.map_values(|x: SarifRule| x.id@) =~= idv);
    let mut results: Vec<SarifResult> = Vec::new();
    let mut i: usize = 0;
    while i < findings.len()
        invariant
            i <= findings.len(),
            rules@.len() == idv.len(),
            idv == ids.deep_view(),
            all.deep_view() == finding_rule_ids(findings@),
            forall|t: Seq<char>| idv.contains(t) <==> all.deep_view().contains(t),
            forall|m: int| 0 <= m < rules@.len() ==> (#[trigger] rules@[m]).id@ == idv[m],
            results@.len() == i,
            forall|m: int|
                0 <= m < i ==> {
                    let index = (#[trigger] results@[m]).rule_index;
                    &&& index < rules@.len()
                    &&& rules@[index as int].id@ == findings@[m].rule_id@
                    &&& result_from_finding(results@[m], findings@[m], index)
                },
        decreases findings.len() - i,
    {
        assert(all.deep_view()[i as int] == findings@[i as int].rule_id@);
        assert(idv.contains(findings@[i as int].rule_id@));
        let ghost w = choose|w: int| 0 <= w < idv.len() && idv[w] == findings@[i as int].rule_id@;
        let mut index: usize = 0;
        while rules[index].id != findings[i].rule_id
            invariant
                index <= w,
                0 <= w < rules.len(),
                i < findings@.len(),
                rules@[w].id@ == findings@[i as int].rule_id@,
            decreases w - index,
        {
            assert(rules@[index as int].id@ != findings@[i as int].rule_id@);
            assert(index != w);
            index += 1;
        }
        results.push(sarif_result(&findings[i], index));
        i += 1;
    }
    SarifReport {
        schema: "https://json.schemastore.org/sarif-2.1.0.json",
        version: "2.1.0",
        tool_name: "fermio-sec",
        information_uri: "https://github.com/fermio-technologies/fermio-sec-cli",
        rules,
        results,
    }
}

} // verus!
