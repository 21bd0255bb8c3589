//! The built-in PHP rules: dangerous functions, hard-coded secrets and taint sinks.
use crate::analysis::{module_events, resolve_constant, ModuleAnalysis};
use crate::findings::{copy_steps, Confidence, Finding, FindingView, LocationView, Severity};
use crate::fingerprint::{fingerprint, fingerprint_text};
use crate::ir::{CallKind, Instruction, ModuleIr};
use crate::taint::{
    first_match, first_matching_name, name_views, sink_name, EventView, SinkEvent, TaintDomain,
};
use crate::text::{
    contains, has_infix, join2, join3, lower, lower_char_exec, normalize_call, owned, push_char,
    same, trim, trim_exec,
};
use vstd::prelude::*;
use vstd::utf8::encode_utf8;

verus! {

/// A rule that inspects an analyzed module and reports findings.
pub trait Rule {
    /// The stable identifier of the rule.
    spec fn rule_id(&self) -> Seq<char>;

    /// The findings the rule reports on a module, in order.
    spec fn findings_on(&self, module: ModuleIr) -> Seq<FindingView>;

    /// The stable identifier of the rule.
    fn id(&self) -> (r: &'static str)
        ensures
            r@ == self.rule_id(),
    ;

    /// The findings of the rule on an analyzed module.
    fn evaluate(&self, analysis: &ModuleAnalysis<'_>) -> (r: Vec<Finding>)
        ensures
            r.deep_view() == self.findings_on(analysis.analyzed()),
    ;
}

// ---------------------------------------------------------------------------------------------
// Dangerous functions
/// A rule that reports every plain call of one of its functions.
pub struct DangerousFunctionRule {
    pub id: &'static str,
    pub title: &'static str,
    pub functions: Vec<&'static str>,
    pub severity: Severity,
    pub cwe: &'static str,
}

/// The finding of a call of the listed `function` at `location`.
pub open spec fn dangerous_finding(
    rule: &DangerousFunctionRule,
    function: Seq<char>,
    location: LocationView,
) -> FindingView {
    FindingView {
        rule_id: rule.id@,
        title: rule.title@,
        description: "The PHP function `"@ + function + "` requires security review."@,
        severity: rule.severity,
        confidence: Confidence::High,
        location,
        fingerprint: fingerprint_text(rule.id@, function, location.path),
        cwe: Some(rule.cwe@),
        framework: None,
        dataflow: seq![],
    }
}

/// The finding of one instruction, if it is a plain call of a listed function.
pub open spec fn dangerous_step(rule: &DangerousFunctionRule, instruction: Instruction) -> Seq<
    FindingView,
> {
    match instruction {
        Instruction::Call { target, call_kind, location, .. } => if call_kind == CallKind::Function {
            match first_match(normalize_call(target@), name_views(rule.functions@)) {
                Some(f) => seq![dangerous_finding(rule, f, location@)],
                None => seq![],
            }
        } else {
            seq![]
        },
        _ => seq![],
    }
}

/// The findings of a dangerous-function rule on a list of instructions.
pub open spec fn dangerous_findings(rule: &DangerousFunctionRule, instructions: Seq<Instruction>) -> Seq<
    FindingView,
>
    decreases instructions.len(),
{
    if instructions.len() == 0 {
        seq![]
    } else {
        dangerous_findings(rule, instructions.drop_last()) + dangerous_step(
            rule,
            instructions.last(),
        )
    }
}

impl DangerousFunctionRule {
    fn finding_at(&self, function: &str, location: &crate::findings::SourceLocation) -> (r: Finding)
        ensures
            r@ == dangerous_finding(self, function@, location@),
    {
        let r = Finding {
            rule_id: owned(self.id),
            title: owned(self.title),
            description: join3("The PHP function `", function, "` requires security review."),
            severity: self.severity,
            confidence: Confidence::High,
            location: location.copy(),
            fingerprint: fingerprint(self.id, function, location),
            cwe: Some(owned(self.cwe)),
            framework: None,
            dataflow: Vec::new(),
        };
        assert(r@.dataflow =~= seq![]);
        r
    }
}

impl Rule for DangerousFunctionRule {
    open spec fn rule_id(&self) -> Seq<char> {
        self.id@
    }

    open spec fn findings_on(&self, module: ModuleIr) -> Seq<FindingView> {
        dangerous_findings(self, module.instructions@)
    }

    fn id(&self) -> (r: &'static str) {
        self.id
    }

    fn evaluate(&self, analysis: &ModuleAnalysis<'_>) -> (r: Vec<Finding>) {
        let instructions = &analysis.module().instructions;
        let mut out: Vec<Finding> = Vec::new();
        let mut i: usize = 0;
        while i < instructions.len()
            invariant
                i <= instructions.len(),
                *instructions == analysis.analyzed().instructions,
                out.deep_view() == dangerous_findings(self, instructions@.subrange(0, i as int)),
            decreases instructions.len() - i,
        {
            let ghost before = out.deep_view();
            match &instructions[i] {
                Instruction::Call { target, call_kind, location, .. } => {
                    if *call_kind == CallKind::Function {
                        match first_matching_name(target.as_str(), &self.functions) {
                            Some(function) => {
                                out.push(self.finding_at(function, location));
                            },
                            None => {},
                        }
                    }
                },
                _ => {},
            }
            proof {
                let s = instructions@.subrange(0, i + 1);
                assert(s.drop_last() =~= instructions@.subrange(0, i as int));
                assert(s.last() == instructions@[i as int]);
                assert(out.deep_view() =~= before + dangerous_step(self, instructions@[i as int]));
            }
            i += 1;
        }
        assert(instructions@.subrange(0, instructions@.len() as int) =~= instructions@);
        out
    }
}

// ---------------------------------------------------------------------------------------------
// Taint sinks
/// The events of one domain, in order.
pub open spec fn events_in(events: Seq<EventView>, domain: TaintDomain) -> Seq<EventView>
    decreases events.len(),
{
    if events.len() == 0 {
        seq![]
    } else if events.last().domain == domain {
        events_in(events.drop_last(), domain).push(events.last())
    } else {
        events_in(events.drop_last(), domain)
    }
}

/// The identifier of the command-injection rule.
pub open spec fn command_rule_id() -> Seq<char> {
    "FERMIO-PHP-TAINT-CMD-001"@
}

/// The identifier of the SQL-injection rule.
pub open spec fn sql_rule_id() -> Seq<char> {
    "FERMIO-PHP-TAINT-SQL-001"@
}

/// The identifier of the cross-site scripting rule.
pub open spec fn html_rule_id() -> Seq<char> {
    "FERMIO-PHP-TAINT-XSS-001"@
}

/// The fingerprint anchor of a sink event: the sink's name and the source of the data.
pub open spec fn event_anchor(e: EventView) -> Seq<char> {
    sink_name(e.sink) + ":"@ + e.fact.source
}

/// The finding of a sink event of a taint rule.
pub open spec fn event_finding(
    rule_id: Seq<char>,
    title: Seq<char>,
    description: Seq<char>,
    severity: Severity,
    cwe: Seq<char>,
    e: EventView,
) -> FindingView {
    FindingView {
        rule_id,
        title,
        description,
        severity,
        confidence: Confidence::High,
        location: e.location,
        fingerprint: fingerprint_text(rule_id, event_anchor(e), e.location.path),
        cwe: Some(cwe),
        framework: None,
        dataflow: e.fact.steps,
    }
}

/// The finding of user-controlled data reaching a command execution function.
pub open spec fn command_finding(e: EventView) -> FindingView {
    event_finding(
        command_rule_id(),
        "User-controlled command execution"@,
        "Data originating from `"@ + e.fact.source
            + "` reaches the PHP command execution function `"@ + sink_name(e.sink)
            + "` without a recognized command sanitizer."@,
        Severity::Critical,
        "CWE-78"@,
        e,
    )
}

/// The finding of user-controlled data reaching an SQL query function.
pub open spec fn sql_finding(e: EventView) -> FindingView {
    event_finding(
        sql_rule_id(),
        "User-controlled SQL query"@,
        "Data originating from `"@ + e.fact.source + "` reaches the PHP SQL query function `"@
            + sink_name(e.sink)
            + "` without a recognized SQL sanitizer or a fixed query boundary."@,
        Severity::Critical,
        "CWE-89"@,
        e,
    )
}

/// The finding of user-controlled data reaching HTML output.
pub open spec fn html_finding(e: EventView) -> FindingView {
    event_finding(
        html_rule_id(),
        "User-controlled HTML output"@,
        "Data originating from `"@ + e.fact.source + "` reaches PHP `"@ + sink_name(e.sink)
            + "` output without recognized HTML encoding."@,
        Severity::High,
        "CWE-79"@,
        e,
    )
}

/// The finding of an event under the taint rule of its domain.
pub open spec fn domain_finding(domain: TaintDomain, e: EventView) -> FindingView {
    match domain {
        TaintDomain::Command => command_finding(e),
        TaintDomain::Sql => sql_finding(e),
        TaintDomain::Html => html_finding(e),
    }
}

/// The findings of the taint rule of `domain` on a module: one per sink event of that domain.
pub open spec fn domain_findings(module: ModuleIr, domain: TaintDomain) -> Seq<FindingView> {
    domain_findings_of(module_events(module), domain)
}

fn event_to_finding(domain: TaintDomain, event: &SinkEvent) -> (r: Finding)
    ensures
        r@ == domain_finding(domain, event@),
{
    let name = event.sink.semantic_name();
    let source = event.fact.source.as_str();
    let (rule_id, title, description, severity, cwe) = match domain {
        TaintDomain::Command => {
            let mut d = join3("Data originating from `", source, "` reaches the PHP command execution function `");
            d.append(name.as_str());
            d.append("` without a recognized command sanitizer.");
            ("FERMIO-PHP-TAINT-CMD-001", "User-controlled command execution", d, Severity::Critical, "CWE-78")
        },
        TaintDomain::Sql => {
            let mut d = join3("Data originating from `", source, "` reaches the PHP SQL query function `");
            d.append(name.as_str());
            d.append("` without a recognized SQL sanitizer or a fixed query boundary.");
            ("FERMIO-PHP-TAINT-SQL-001", "User-controlled SQL query", d, Severity::Critical, "CWE-89")
        },
        TaintDomain::Html => {
            let mut d = join3("Data originating from `", source, "` reaches PHP `");
            d.append(name.as_str());
            d.append("` output without recognized HTML encoding.");
            ("FERMIO-PHP-TAINT-XSS-001", "User-controlled HTML output", d, Severity::High, "CWE-79")
        },
    };
    let anchor = join3(name.as_str(), ":", source);
    Finding {
        rule_id: owned(rule_id),
        title: owned(title),
        description,
        severity,
        confidence: Confidence::High,
        location: event.location.copy(),
        fingerprint: fingerprint(rule_id, anchor.as_str(), &event.location),
        cwe: Some(owned(cwe)),
        framework: None,
        dataflow: copy_steps(&event.fact.steps),
    }
}

fn domain_evaluate(analysis: &ModuleAnalysis<'_>, domain: TaintDomain) -> (r: Vec<Finding>)
    ensures
        r.deep_view() == domain_findings(analysis.analyzed(), domain),
{
    let events = analysis.sink_events();
    let ghost all = events.deep_view();
    let mut out: Vec<Finding> = Vec::new();
    let mut i: usize = 0;
    while i < events.len()
        invariant
            i <= events.len(),
            all == events.deep_view(),
            all == module_events(analysis.analyzed()),
            out.deep_view() == domain_findings_of(all.subrange(0, i as int), domain),
        decreases events.len() - i,
    {
        proof {
            lemma_events_in_step(all, i as int, domain);
        }
        if events[i].domain == domain {
            out.push(event_to_finding(domain, &events[i]));
        }
        i += 1;
    }
    assert(all.subrange(0, all.len() as int) =~= all);
    out
}

/// The findings of the taint rule of `domain` on a list of sink events.
pub open spec fn domain_findings_of(events: Seq<EventView>, domain: TaintDomain) -> Seq<FindingView> {
    events_in(events, domain).map_values(|e: EventView| domain_finding(domain, e))
}

proof fn lemma_events_in_step(all: Seq<EventView>, i: int, domain: TaintDomain)
    requires
        0 <= i < all.len(),
    ensures
        domain_findings_of(all.subrange(0, i + 1), domain) == if all[i].domain == domain {
            domain_findings_of(all.subrange(0, i), domain).push(domain_finding(domain, all[i]))
        } else {
            domain_findings_of(all.subrange(0, i), domain)
        },
{
    let s = all.subrange(0, i + 1);
    assert(s.drop_last() =~= all.subrange(0, i));
    assert(s.last() == all[i]);
    if all[i].domain == domain {
        assert(domain_findings_of(s, domain) =~= domain_findings_of(all.subrange(0, i), domain).push(
            domain_finding(domain, all[i]),
        ));
    }
}

/// User-controlled data reaching an operating-system command.
pub struct TaintedCommandRule;

/// User-controlled data reaching an SQL query.
pub struct TaintedSqlRule;

/// User-controlled data reaching HTML output.
pub struct TaintedHtmlOutputRule;

impl Rule for TaintedCommandRule {
    open spec fn rule_id(&self) -> Seq<char> {
        command_rule_id()
    }

    open spec fn findings_on(&self, module: ModuleIr) -> Seq<FindingView> {
        domain_findings(module, TaintDomain::Command)
    }

    fn id(&self) -> (r: &'static str) {
        "FERMIO-PHP-TAINT-CMD-001"
    }

    fn evaluate(&self, analysis: &ModuleAnalysis<'_>) -> (r: Vec<Finding>) {
        domain_evaluate(analysis, TaintDomain::Command)
    }
}

impl Rule for TaintedSqlRule {
    open spec fn rule_id(&self) -> Seq<char> {
        sql_rule_id()
    }

    open spec fn findings_on(&self, module: ModuleIr) -> Seq<FindingView> {
        domain_findings(module, TaintDomain::Sql)
    }

    fn id(&self) -> (r: &'static str) {
        "FERMIO-PHP-TAINT-SQL-001"
    }

    fn evaluate(&self, analysis: &ModuleAnalysis<'_>) -> (r: Vec<Finding>) {
        domain_evaluate(analysis, TaintDomain::Sql)
    }
}

impl Rule for TaintedHtmlOutputRule {
    open spec fn rule_id(&self) -> Seq<char> {
        html_rule_id()
    }

    open spec fn findings_on(&self, module: ModuleIr) -> Seq<FindingView> {
        domain_findings(module, TaintDomain::Html)
    }

    fn id(&self) -> (r: &'static str) {
        "FERMIO-PHP-TAINT-XSS-001"
    }

    fn evaluate(&self, analysis: &ModuleAnalysis<'_>) -> (r: Vec<Finding>) {
        domain_evaluate(analysis, TaintDomain::Html)
    }
}

// ---------------------------------------------------------------------------------------------
// Hard-coded secrets
/// ASCII letters, digits and the underscore.
pub open spec fn is_word_char(c: char) -> bool {
    ('a' <= c && c <= 'z') || ('A' <= c && c <= 'Z') || ('0' <= c && c <= '9') || c == '_'
}

/// The ASCII letters, digits and underscores of a text, in order.
pub open spec fn word_chars(s: Seq<char>) -> Seq<char>
    decreases s.len(),
{
    if s.len() == 0 {
        seq![]
    } else if is_word_char(s.last()) {
        word_chars(s.drop_last()).push(s.last())
    } else {
        word_chars(s.drop_last())
    }
}

/// Fragments of variable names that hold credentials.
pub open spec fn secret_name_patterns() -> Seq<Seq<char>> {
    seq![
        "access_token"@,
        "apikey"@,
        "api_key"@,
        "auth_token"@,
        "client_secret"@,
        "password"@,
        "passwd"@,
        "private_key"@,
        "secret"@,
    ]
}

/// A variable name that, reduced to lower-case letters, digits and underscores, contains a
/// credential fragment.
pub open spec fn is_secret_name(target: Seq<char>) -> bool {
    exists|i: int|
        0 <= i < secret_name_patterns().len() && has_infix(
            lower(word_chars(target)),
            #[trigger] secret_name_patterns()[i],
        )
}

/// Values that stand in for a secret in examples and tests.
pub open spec fn placeholder_values() -> Seq<Seq<char>> {
    seq![
        "changeme"@,
        "change-me"@,
        "dummy"@,
        "example"@,
        "example-secret"@,
        "password"@,
        "replace-me"@,
        "secret"@,
        "test"@,
        "testing"@,
        "your-secret-here"@,
    ]
}

/// A value that is at least four bytes long once trimmed and is no placeholder.
pub open spec fn is_likely_secret(value: Seq<char>) -> bool {
    let n = lower(trim(value));
    encode_utf8(n).len() >= 4 && !placeholder_values().contains(n)
}

fn is_word_char_exec(c: char) -> (r: bool)
    ensures
        r == is_word_char(c),
{
    ('a' <= c && c <= 'z') || ('A' <= c && c <= 'Z') || ('0' <= c && c <= '9') || c == '_'
}

/// Whether a variable name looks like it holds a credential.
pub fn secret_name(target: &str) -> (r: bool)
    ensures
        r == is_secret_name(target@),
{
    let cs = crate::text::chars_of(target);
    let mut word = String::new();
    let mut i: usize = 0;
    while i < cs.len()
        invariant
            i <= cs.len(),
            cs@ == target@,
            word@ == word_chars(cs@.subrange(0, i as int)),
        decreases cs.len() - i,
    {
        let ghost s = cs@.subrange(0, i + 1);
        assert(s.drop_last() =~= cs@.subrange(0, i as int));
        if is_word_char_exec(cs[i]) {
            push_char(&mut word, cs[i]);
        }
        i += 1;
    }
    assert(cs@.subrange(0, cs@.len() as int) =~= cs@);
    let normalized = crate::text::lowercase(word.as_str());
    let patterns = vec![
        "access_token",
        "apikey",
        "api_key",
        "auth_token",
        "client_secret",
        "password",
        "passwd",
        "private_key",
        "secret",
    ];
    assert(name_views(patterns@) =~= secret_name_patterns());
    let mut k: usize = 0;
    while k < patterns.len()
        invariant
            k <= patterns.len(),
            name_views(patterns@) == secret_name_patterns(),
            normalized@ == lower(word_chars(target@)),
            forall|j: int| 0 <= j < k ==> !has_infix(normalized@, #[trigger] secret_name_patterns()[j]),
        decreases patterns.len() - k,
    {
        if contains(normalized.as_str(), patterns[k]) {
            assert(secret_name_patterns()[k as int] == patterns@[k as int]@);
            return true;
        }
        assert(secret_name_patterns()[k as int] == patterns@[k as int]@);
        k += 1;
    }
    false
}

proof fn lemma_utf8_length(chars: Seq<char>)
    ensures
        chars.len() <= encode_utf8(chars).len() <= 4 * chars.len(),
    decreases chars.len(),
{
    if chars.len() > 0 {
        lemma_utf8_length(chars.drop_first());
    }
}

/// Whether a constant string value looks like a real credential.
pub fn likely_secret_value(value: &str) -> (r: bool)
    ensures
        r == is_likely_secret(value@),
{
    let trimmed = trim_exec(value);
    let normalized = crate::text::lowercase(trimmed.as_str());
    let chars = crate::text::chars_of(normalized.as_str());
    proof {
        lemma_utf8_length(normalized@);
    }
    let short = if chars.len() >= 4 {
        false
    } else {
        normalized.as_str().len() < 4
    };
    if short {
        return false;
    }
    let placeholders = vec![
        "changeme",
        "change-me",
        "dummy",
        "example",
        "example-secret",
        "password",
        "replace-me",
        "secret",
        "test",
        "testing",
        "your-secret-here",
    ];
    assert(name_views(placeholders@) =~= placeholder_values());
    let mut k: usize = 0;
    while k < placeholders.len()
        invariant
            k <= placeholders.len(),
            name_views(placeholders@) == placeholder_values(),
            normalized@ == lower(trim(value@)),
            forall|j: int| 0 <= j < k ==> placeholder_values()[j] != normalized@,
        decreases placeholders.len() - k,
    {
        assert(placeholder_values()[k as int] == placeholders@[k as int]@);
        if same(normalized.as_str(), placeholders[k]) {
            return false;
        }
        k += 1;
    }
    true
}

/// The identifier of the hard-coded secret rule.
pub open spec fn secret_rule_id() -> Seq<char> {
    "FERMIO-PHP-CORE-SECRET-001"@
}

/// The finding of a credential-like constant assigned to `target` at `location`.
pub open spec fn secret_finding(target: Seq<char>, location: LocationView) -> FindingView {
    FindingView {
        rule_id: secret_rule_id(),
        title: "Likely hard-coded secret"@,
        description: "The variable `"@ + target
            + "` is assigned a non-empty hard-coded string. The value is redacted."@,
        severity: Severity::High,
        confidence: Confidence::Medium,
        location,
        fingerprint: fingerprint_text(secret_rule_id(), target, location.path),
        cwe: Some("CWE-798"@),
        framework: None,
        dataflow: seq![],
    }
}

/// The finding of one instruction, if it assigns a likely credential to a secret-like name.
pub open spec fn secret_step(module: ModuleIr, instruction: Instruction) -> Seq<FindingView> {
    match instruction {
        Instruction::Assignment { target, value, location } => if is_secret_name(target@) {
            match resolve_constant(module, value.0, seq![], 0) {
                Some(text) => if is_likely_secret(text) {
                    seq![secret_finding(target@, location@)]
                } else {
                    seq![]
                },
                None => seq![],
            }
        } else {
            seq![]
        },
        _ => seq![],
    }
}

/// The findings of the hard-coded secret rule on a prefix of a module's instructions.
pub open spec fn secret_findings(module: ModuleIr, instructions: Seq<Instruction>) -> Seq<
    FindingView,
>
    decreases instructions.len(),
{
    if instructions.len() == 0 {
        seq![]
    } else {
        secret_findings(module, instructions.drop_last()) + secret_step(module, instructions.last())
    }
}

/// Credential-like names assigned a constant string that is no placeholder.
pub struct HardcodedSecretRule;

fn secret_finding_exec(target: &String, location: &crate::findings::SourceLocation) -> (r: Finding)
    ensures
        r@ == secret_finding(target@, location@),
{
    let r = Finding {
        rule_id: owned("FERMIO-PHP-CORE-SECRET-001"),
        title: owned("Likely hard-coded secret"),
        description: join3(
            "The variable `",
            target.as_str(),
            "` is assigned a non-empty hard-coded string. The value is redacted.",
        ),
        severity: Severity::High,
        confidence: Confidence::Medium,
        location: location.copy(),
        fingerprint: fingerprint("FERMIO-PHP-CORE-SECRET-001", target.as_str(), location),
        cwe: Some(owned("CWE-798")),
        framework: None,
        dataflow: Vec::new(),
    };
    assert(r@.dataflow =~= seq![]);
    r
}

impl Rule for HardcodedSecretRule {
    open spec fn rule_id(&self) -> Seq<char> {
        secret_rule_id()
    }

    open spec fn findings_on(&self, module: ModuleIr) -> Seq<FindingView> {
        secret_findings(module, module.instructions@)
    }

    fn id(&self) -> (r: &'static str) {
        "FERMIO-PHP-CORE-SECRET-001"
    }

    fn evaluate(&self, analysis: &ModuleAnalysis<'_>) -> (r: Vec<Finding>) {
        let instructions = &analysis.module().instructions;
        let ghost module = analysis.analyzed();
        let mut out: Vec<Finding> = Vec::new();
        let mut i: usize = 0;
        while i < instructions.len()
            invariant
                i <= instructions.len(),
                module == analysis.analyzed(),
                *instructions == module.instructions,
                out.deep_view() == secret_findings(module, instructions@.subrange(0, i as int)),
            decreases instructions.len() - i,
        {
            let ghost before = out.deep_view();
            match &instructions[i] {
                Instruction::Assignment { target, value, location } => {
                    if secret_name(target.as_str()) {
                        match analysis.resolve_constant_string(*value) {
                            Some(text) => {
                                if likely_secret_value(text.as_str()) {
                                    out.push(secret_finding_exec(target, location));
                                }
                            },
                            None => {},
                        }
                    }
                },
                _ => {},
            }
            proof {
                let s = instructions@.subrange(0, i + 1);
                assert(s.drop_last() =~= instructions@.subrange(0, i as int));
                assert(s.last() == instructions@[i as int]);
                assert(out.deep_view() =~= before + secret_step(module, instructions@[i as int]));
            }
            i += 1;
        }
        assert(instructions@.subrange(0, instructions@.len() as int) =~= instructions@);
        out
    }
}

// ---------------------------------------------------------------------------------------------
/// A rule of any kind this library provides.
pub enum AnyRule {
    Dangerous(DangerousFunctionRule),
    Secret(HardcodedSecretRule),
    Command(TaintedCommandRule),
    Sql(TaintedSqlRule),
    Html(TaintedHtmlOutputRule),
    Declarative(crate::rulepack::DeclarativeCallRule),
    ObjectSql(crate::object_sql::ObjectSqlTaintRule),
}

impl Rule for AnyRule {
    open spec fn rule_id(&self) -> Seq<char> {
        match self {
            AnyRule::Dangerous(r) => r.rule_id(),
            AnyRule::Secret(r) => r.rule_id(),
            AnyRule::Command(r) => r.rule_id(),
            AnyRule::Sql(r) => r.rule_id(),
            AnyRule::Html(r) => r.rule_id(),
            AnyRule::Declarative(r) => r.rule_id(),
            AnyRule::ObjectSql(r) => r.rule_id(),
        }
    }

    open spec fn findings_on(&self, module: ModuleIr) -> Seq<FindingView> {
        match self {
            AnyRule::Dangerous(r) => r.findings_on(module),
            AnyRule::Secret(r) => r.findings_on(module),
            AnyRule::Command(r) => r.findings_on(module),
            AnyRule::Sql(r) => r.findings_on(module),
            AnyRule::Html(r) => r.findings_on(module),
            AnyRule::Declarative(r) => r.findings_on(module),
            AnyRule::ObjectSql(r) => r.findings_on(module),
        }
    }

    fn id(&self) -> (r: &'static str) {
        match self {
            AnyRule::Dangerous(r) => r.id(),
            AnyRule::Secret(r) => r.id(),
            AnyRule::Command(r) => r.id(),
            AnyRule::Sql(r) => r.id(),
            AnyRule::Html(r) => r.id(),
            AnyRule::Declarative(r) => r.id(),
            AnyRule::ObjectSql(r) => r.id(),
        }
    }

    fn evaluate(&self, analysis: &ModuleAnalysis<'_>) -> (r: Vec<Finding>) {
        match self {
            AnyRule::Dangerous(r) => r.evaluate(analysis),
            AnyRule::Secret(r) => r.evaluate(analysis),
            AnyRule::Command(r) => r.evaluate(analysis),
            AnyRule::Sql(r) => r.evaluate(analysis),
            AnyRule::Html(r) => r.evaluate(analysis),
            AnyRule::Declarative(r) => r.evaluate(analysis),
            AnyRule::ObjectSql(r) => r.evaluate(analysis),
        }
    }
}

/// `rule` is the dangerous-function rule with these fields.
pub open spec fn is_dangerous_rule(
    rule: AnyRule,
    id: Seq<char>,
    title: Seq<char>,
    functions: Seq<Seq<char>>,
    severity: Severity,
    cwe: Seq<char>,
) -> bool {
    &&& rule matches AnyRule::Dangerous(d)
    &&& d.id@ == id
    &&& d.title@ == title
    &&& name_views(d.functions@) == functions
    &&& d.severity == severity
    &&& d.cwe@ == cwe
}

/// The eight core PHP rules, in this order: four dangerous-function rules, hard-coded secrets
/// and the three taint rules.
pub open spec fn core_rule_list(rules: Seq<AnyRule>) -> bool {
    &&& rules.len() == 8
    &&& is_dangerous_rule(
        rules[0],
        "FERMIO-PHP-CORE-EVAL-001"@,
        "Dynamic code execution"@,
        seq!["eval"@],
        Severity::Critical,
        "CWE-95"@,
    )
    &&& is_dangerous_rule(
        rules[1],
        "FERMIO-PHP-CORE-CMD-001"@,
        "Operating system command execution"@,
        crate::taint::command_functions(),
        Severity::High,
        "CWE-78"@,
    )
    &&& is_dangerous_rule(
        rules[2],
        "FERMIO-PHP-CORE-DESERIALIZE-001"@,
        "Potentially unsafe deserialization"@,
        seq!["unserialize"@],
        Severity::High,
        "CWE-502"@,
    )
    &&& is_dangerous_rule(
        rules[3],
        "FERMIO-PHP-CORE-CRYPTO-001"@,
        "Weak cryptographic hash"@,
        seq!["md5"@, "sha1"@],
        Severity::Medium,
        "CWE-328"@,
    )
    &&& rules[4] is Secret
    &&& rules[5] is Command
    &&& rules[6] is Sql
    &&& rules[7] is Html
}

/// The eight built-in PHP rules: four dangerous-function rules, hard-coded secrets and the
/// three taint rules, in this order.
pub fn built_in_rules() -> (r: Vec<AnyRule>)
    ensures
        core_rule_list(r@),
{
    let eval = vec!["eval"];
    let deserialize = vec!["unserialize"];
    let crypto = vec!["md5", "sha1"];
    assert(name_views(eval@) =~= seq!["eval"@]);
    assert(name_views(deserialize@) =~= seq!["unserialize"@]);
    assert(name_views(crypto@) =~= seq!["md5"@, "sha1"@]);
    let mut r: Vec<AnyRule> = Vec::new();
    r.push(
        AnyRule::Dangerous(
            DangerousFunctionRule {
                id: "FERMIO-PHP-CORE-EVAL-001",
                title: "Dynamic code execution",
                functions: eval,
                severity: Severity::Critical,
                cwe: "CWE-95",
            },
        ),
    );
    r.push(
        AnyRule::Dangerous(
            DangerousFunctionRule {
                id: "FERMIO-PHP-CORE-CMD-001",
                title: "Operating system command execution",
                functions: crate::taint::command_function_list(),
                severity: Severity::High,
                cwe: "CWE-78",
            },
        ),
    );
    r.push(
        AnyRule::Dangerous(
            DangerousFunctionRule {
                id: "FERMIO-PHP-CORE-DESERIALIZE-001",
                title: "Potentially unsafe deserialization",
                functions: deserialize,
                severity: Severity::High,
                cwe: "CWE-502",
            },
        ),
    );
    r.push(
        AnyRule::Dangerous(
            DangerousFunctionRule {
                id: "FERMIO-PHP-CORE-CRYPTO-001",
                title: "Weak cryptographic hash",
                functions: crypto,
                severity: Severity::Medium,
                cwe: "CWE-328",
            },
        ),
    );
    r.push(AnyRule::Secret(HardcodedSecretRule));
    r.push(AnyRule::Command(TaintedCommandRule));
    r.push(AnyRule::Sql(TaintedSqlRule));
    r.push(AnyRule::Html(TaintedHtmlOutputRule));
    r
}

} // verus!
