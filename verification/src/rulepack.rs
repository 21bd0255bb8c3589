//! Declarative call-site rules from versioned rulepacks, and the built-in framework pack.
use crate::analysis::{resolve_constant, ModuleAnalysis};
use crate::findings::{Confidence, Finding, FindingView, LocationView, Severity, SourceLocation};
use crate::fingerprint::{fingerprint, fingerprint_text};
use crate::ir::{ids, CallKind, Instruction, ModuleIr, ValueId};
use crate::rules::{AnyRule, Rule};
use crate::text::{
    chars_of, decimal, decimal_exec, eq_ignore_case, equal_ignore_case, has_prefix, join2, join3,
    lower, lowercase, normalize_call, owned, same, starts_with, trim, trim_exec,
};
use vstd::prelude::*;

verus! {

/// The only rulepack schema version this library reads.
pub const RULEPACK_SCHEMA_VERSION: u32 = 1;

/// The largest rulepack file, in bytes.
pub const MAX_RULEPACK_BYTES: u64 = 1048576;

/// The most rules one rulepack may hold.
pub const MAX_RULES_PER_PACK: usize = 1000;

/// Whether a rulepack file of `size` bytes is over the size limit.
pub fn exceeds_rulepack_limit(size: u64) -> (r: bool)
    ensures
        r == (size > MAX_RULEPACK_BYTES),
{
    size > MAX_RULEPACK_BYTES
}

/// The kinds of call a declarative rule can match.
#[derive(Debug, Clone, Copy, PartialEq, Eq, Structural)]
pub enum RuleCallKind {
    Function,
    Method,
    NullsafeMethod,
    StaticMethod,
    Dynamic,
}

impl RuleCallKind {
    /// This rule call kind names the call kind `kind`.
    pub open spec fn accepts_spec(self, kind: CallKind) -> bool {
        match self {
            RuleCallKind::Function => kind == CallKind::Function,
            RuleCallKind::Method => kind == CallKind::Method,
            RuleCallKind::NullsafeMethod => kind == CallKind::NullsafeMethod,
            RuleCallKind::StaticMethod => kind == CallKind::StaticMethod,
            RuleCallKind::Dynamic => kind == CallKind::Dynamic,
        }
    }

    /// Whether this rule call kind names the call kind `kind`.
    pub fn accepts(self, kind: CallKind) -> (r: bool)
        ensures
            r == self.accepts_spec(kind),
    {
        match self {
            RuleCallKind::Function => kind == CallKind::Function,
            RuleCallKind::Method => kind == CallKind::Method,
            RuleCallKind::NullsafeMethod => kind == CallKind::NullsafeMethod,
            RuleCallKind::StaticMethod => kind == CallKind::StaticMethod,
            RuleCallKind::Dynamic => kind == CallKind::Dynamic,
        }
    }
}

/// The call kinds of a rule that names none.
pub fn default_call_kinds() -> (r: Vec<RuleCallKind>)
    ensures
        r@ == seq![RuleCallKind::Function],
{
    let r = vec![RuleCallKind::Function];
    assert(r@ =~= seq![RuleCallKind::Function]);
    r
}

/// A literal-string condition on one argument of a call.
#[derive(Debug, Clone)]
pub struct ArgumentMatcher {
    pub index: usize,
    pub string_equals: Option<String>,
    pub string_prefix: Option<String>,
    pub case_sensitive: Option<bool>,
}

/// One rule of a rulepack, as written.
#[derive(Debug, Clone)]
pub struct RuleDefinition {
    pub id: String,
    pub title: String,
    pub description: String,
    pub severity: Severity,
    pub confidence: Confidence,
    pub cwe: Option<String>,
    pub frameworks: Vec<String>,
    pub targets: Vec<String>,
    pub call_kinds: Vec<RuleCallKind>,
    pub argument: Option<ArgumentMatcher>,
}

/// A rulepack document, as written.
#[derive(Debug, Clone)]
pub struct RulepackDefinition {
    pub schema_version: u32,
    pub id: String,
    pub version: String,
    pub rules: Vec<RuleDefinition>,
}

/// The mathematical value of an [`ArgumentMatcher`].
pub struct MatcherView {
    pub index: usize,
    pub string_equals: Option<Seq<char>>,
    pub string_prefix: Option<Seq<char>>,
    pub case_sensitive: Option<bool>,
}

impl View for ArgumentMatcher {
    type V = MatcherView;

    open spec fn view(&self) -> MatcherView {
        MatcherView {
            index: self.index,
            string_equals: self.string_equals.deep_view(),
            string_prefix: self.string_prefix.deep_view(),
            case_sensitive: self.case_sensitive,
        }
    }
}

impl DeepView for ArgumentMatcher {
    type V = MatcherView;

    open spec fn deep_view(&self) -> MatcherView {
        self@
    }
}

/// The mathematical value of a [`RuleDefinition`].
pub struct RuleDefView {
    pub id: Seq<char>,
    pub title: Seq<char>,
    pub description: Seq<char>,
    pub severity: Severity,
    pub confidence: Confidence,
    pub cwe: Option<Seq<char>>,
    pub frameworks: Seq<Seq<char>>,
    pub targets: Seq<Seq<char>>,
    pub call_kinds: Seq<RuleCallKind>,
    pub argument: Option<MatcherView>,
}

impl DeepView for RuleDefinition {
    type V = RuleDefView;

    open spec fn deep_view(&self) -> RuleDefView {
        RuleDefView {
            id: self.id@,
            title: self.title@,
            description: self.description@,
            severity: self.severity,
            confidence: self.confidence,
            cwe: self.cwe.deep_view(),
            frameworks: self.frameworks.deep_view(),
            targets: self.targets.deep_view(),
            call_kinds: self.call_kinds@,
            argument: self.argument.deep_view(),
        }
    }
}

/// `actual` compared with `expected`, exactly or as a prefix, with or without ASCII case.
pub open spec fn compare_text(
    actual: Seq<char>,
    expected: Seq<char>,
    case_sensitive: bool,
    prefix: bool,
) -> bool {
    let a = if case_sensitive {
        actual
    } else {
        lower(actual)
    };
    let e = if case_sensitive {
        expected
    } else {
        lower(expected)
    };
    if prefix {
        has_prefix(a, e)
    } else {
        a == e
    }
}

/// The matcher accepts the constant text `actual` of its argument. Case matters unless
/// `case_sensitive` is `false`; an equality condition takes precedence over a prefix one.
pub open spec fn matcher_accepts(m: ArgumentMatcher, actual: Seq<char>) -> bool {
    let cs = match m.case_sensitive {
        Some(b) => b,
        None => true,
    };
    match m.string_equals {
        Some(e) => compare_text(actual, e@, cs, false),
        None => match m.string_prefix {
            Some(p) => compare_text(actual, p@, cs, true),
            None => false,
        },
    }
}

fn compare(actual: &str, expected: &str, case_sensitive: bool, prefix: bool) -> (r: bool)
    ensures
        r == compare_text(actual@, expected@, case_sensitive, prefix),
{
    if case_sensitive {
        if prefix {
            starts_with(actual, expected)
        } else {
            same(actual, expected)
        }
    } else {
        let a = lowercase(actual);
        let e = lowercase(expected);
        if prefix {
            starts_with(a.as_str(), e.as_str())
        } else {
            same(a.as_str(), e.as_str())
        }
    }
}

impl ArgumentMatcher {
    /// Whether the matcher accepts the constant text of its argument.
    pub fn accepts(&self, actual: &str) -> (r: bool)
        ensures
            r == matcher_accepts(*self, actual@),
    {
        let case_sensitive = match self.case_sensitive {
            Some(b) => b,
            None => true,
        };
        match &self.string_equals {
            Some(e) => compare(actual, e.as_str(), case_sensitive, false),
            None => match &self.string_prefix {
                Some(p) => compare(actual, p.as_str(), case_sensitive, true),
                None => false,
            },
        }
    }
}

// ---------------------------------------------------------------------------------------------
// Validation
/// Why a rulepack is refused.
#[derive(Debug, Clone)]
pub enum RulepackError {
    UnsupportedSchemaVersion(u32),
    EmptyPackId,
    EmptyPackVersion,
    NoRules,
    TooManyRules(usize),
    DuplicateRuleId(String),
    InvalidRuleId(String),
    EmptyTitle(String),
    EmptyDescription(String),
    NoTargets(String),
    NoCallKinds(String),
    EmptyValue(String, &'static str),
    DuplicateValue(String, &'static str, String),
    InvalidCwe(String, String),
    MatcherCount(String),
    MatcherIndex(String),
    EmptyMatcher(String),
}

/// The mathematical value of a [`RulepackError`].
pub enum ProblemView {
    UnsupportedSchemaVersion(u32),
    EmptyPackId,
    EmptyPackVersion,
    NoRules,
    TooManyRules(usize),
    DuplicateRuleId(Seq<char>),
    InvalidRuleId(Seq<char>),
    EmptyTitle(Seq<char>),
    EmptyDescription(Seq<char>),
    NoTargets(Seq<char>),
    NoCallKinds(Seq<char>),
    EmptyValue(Seq<char>, Seq<char>),
    DuplicateValue(Seq<char>, Seq<char>, Seq<char>),
    InvalidCwe(Seq<char>, Seq<char>),
    MatcherCount(Seq<char>),
    MatcherIndex(Seq<char>),
    EmptyMatcher(Seq<char>),
}

impl View for RulepackError {
    type V = ProblemView;

    open spec fn view(&self) -> ProblemView {
        match self {
            RulepackError::UnsupportedSchemaVersion(v) => ProblemView::UnsupportedSchemaVersion(*v),
            RulepackError::EmptyPackId => ProblemView::EmptyPackId,
            RulepackError::EmptyPackVersion => ProblemView::EmptyPackVersion,
            RulepackError::NoRules => ProblemView::NoRules,
            RulepackError::TooManyRules(n) => ProblemView::TooManyRules(*n),
            RulepackError::DuplicateRuleId(id) => ProblemView::DuplicateRuleId(id@),
            RulepackError::InvalidRuleId(id) => ProblemView::InvalidRuleId(id@),
            RulepackError::EmptyTitle(id) => ProblemView::EmptyTitle(id@),
            RulepackError::EmptyDescription(id) => ProblemView::EmptyDescription(id@),
            RulepackError::NoTargets(id) => ProblemView::NoTargets(id@),
            RulepackError::NoCallKinds(id) => ProblemView::NoCallKinds(id@),
            RulepackError::EmptyValue(id, f) => ProblemView::EmptyValue(id@, f@),
            RulepackError::DuplicateValue(id, f, v) => ProblemView::DuplicateValue(id@, f@, v@),
            RulepackError::InvalidCwe(id, c) => ProblemView::InvalidCwe(id@, c@),
            RulepackError::MatcherCount(id) => ProblemView::MatcherCount(id@),
            RulepackError::MatcherIndex(id) => ProblemView::MatcherIndex(id@),
            RulepackError::EmptyMatcher(id) => ProblemView::EmptyMatcher(id@),
        }
    }
}

/// A text that is empty once trimmed.
pub open spec fn is_blank(s: Seq<char>) -> bool {
    trim(s).len() == 0
}

/// Upper-case ASCII letters, digits and the hyphen.
pub open spec fn is_rule_id_char(c: char) -> bool {
    ('A' <= c && c <= 'Z') || ('0' <= c && c <= '9') || c == '-'
}

/// A rule identifier: `FERMIO-` followed by upper-case letters, digits and hyphens.
pub open spec fn valid_rule_id(s: Seq<char>) -> bool {
    has_prefix(s, "FERMIO-"@) && forall|i: int| 0 <= i < s.len() ==> is_rule_id_char(#[trigger] s[i])
}

/// A CWE identifier: `CWE-` followed by at least one ASCII digit and nothing else.
pub open spec fn valid_cwe(s: Seq<char>) -> bool {
    has_prefix(s, "CWE-"@) && s.len() > 4 && forall|i: int|
        4 <= i < s.len() ==> '0' <= #[trigger] s[i] && s[i] <= '9'
}

/// A call target without surrounding white space and leading namespace separators, lower-cased.
pub open spec fn target_key(target: Seq<char>) -> Seq<char> {
    lower(normalize_call(target))
}

/// The key under which a value counts as a duplicate: a normalized target, or the trimmed
/// lower-cased text.
pub open spec fn value_key(v: Seq<char>, as_target: bool) -> Seq<char> {
    if as_target {
        target_key(v)
    } else {
        lower(trim(v))
    }
}

/// The first problem among the first `n` values of a list that must hold distinct, non-empty
/// values.
pub open spec fn unique_problem(
    rule_id: Seq<char>,
    field: Seq<char>,
    values: Seq<Seq<char>>,
    as_target: bool,
    n: int,
) -> Option<ProblemView>
    decreases n,
{
    if n <= 0 {
        None
    } else {
        match unique_problem(rule_id, field, values, as_target, n - 1) {
            Some(p) => Some(p),
            None => {
                let v = values[n - 1];
                if is_blank(v) {
                    Some(ProblemView::EmptyValue(rule_id, field))
                } else if exists|j: int|
                    0 <= j < n - 1 && value_key(#[trigger] values[j], as_target) == value_key(
                        v,
                        as_target,
                    ) {
                    Some(ProblemView::DuplicateValue(rule_id, field, v))
                } else {
                    None
                }
            },
        }
    }
}

proof fn lemma_unique_problem_stable(
    rule_id: Seq<char>,
    field: Seq<char>,
    values: Seq<Seq<char>>,
    as_target: bool,
    n: int,
    m: int,
)
    requires
        n <= m,
        unique_problem(rule_id, field, values, as_target, n) is Some,
    ensures
        unique_problem(rule_id, field, values, as_target, m) == unique_problem(
            rule_id,
            field,
            values,
            as_target,
            n,
        ),
    decreases m - n,
{
    if n < m {
        lemma_unique_problem_stable(rule_id, field, values, as_target, n, m - 1);
    }
}

/// The problem of an argument matcher, if any.
pub open spec fn matcher_problem(rule_id: Seq<char>, m: MatcherView) -> Option<ProblemView> {
    if m.string_equals.is_some() == m.string_prefix.is_some() {
        Some(ProblemView::MatcherCount(rule_id))
    } else if m.index > 31 {
        Some(ProblemView::MatcherIndex(rule_id))
    } else if match m.string_equals {
        Some(e) => e.len() == 0,
        None => match m.string_prefix {
            Some(p) => p.len() == 0,
            None => false,
        },
    } {
        Some(ProblemView::EmptyMatcher(rule_id))
    } else {
        None
    }
}

/// The first problem of a rule definition, in the order the checks are made.
pub open spec fn rule_problem(rule: RuleDefView) -> Option<ProblemView> {
    let id = rule.id;
    let targets = unique_problem(id, "targets"@, rule.targets, true, rule.targets.len() as int);
    let frameworks = unique_problem(
        id,
        "frameworks"@,
        rule.frameworks,
        false,
        rule.frameworks.len() as int,
    );
    if !valid_rule_id(id) {
        Some(ProblemView::InvalidRuleId(id))
    } else if is_blank(rule.title) {
        Some(ProblemView::EmptyTitle(id))
    } else if is_blank(rule.description) {
        Some(ProblemView::EmptyDescription(id))
    } else if rule.targets.len() == 0 {
        Some(ProblemView::NoTargets(id))
    } else if rule.call_kinds.len() == 0 {
        Some(ProblemView::NoCallKinds(id))
    } else if targets is Some {
        targets
    } else if frameworks is Some {
        frameworks
    } else if rule.cwe is Some && !valid_cwe(rule.cwe->0) {
        Some(ProblemView::InvalidCwe(id, rule.cwe->0))
    } else {
        match rule.argument {
            Some(m) => matcher_problem(id, m),
            None => None,
        }
    }
}

/// The first problem among the first `n` rules of a pack: an invalid rule, or an identifier
/// used twice.
pub open spec fn rules_problem(rules: Seq<RuleDefView>, n: int) -> Option<ProblemView>
    decreases n,
{
    if n <= 0 {
        None
    } else {
        match rules_problem(rules, n - 1) {
            Some(p) => Some(p),
            None => match rule_problem(rules[n - 1]) {
                Some(p) => Some(p),
                None => if exists|j: int| 0 <= j < n - 1 && (#[trigger] rules[j]).id == rules[n - 1].id {
                    Some(ProblemView::DuplicateRuleId(rules[n - 1].id))
                } else {
                    None
                },
            },
        }
    }
}

/// The mathematical value of a [`RulepackDefinition`].
pub struct PackView {
    pub schema_version: u32,
    pub id: Seq<char>,
    pub version: Seq<char>,
    pub rules: Seq<RuleDefView>,
}

impl DeepView for RulepackDefinition {
    type V = PackView;

    open spec fn deep_view(&self) -> PackView {
        PackView {
            schema_version: self.schema_version,
            id: self.id@,
            version: self.version@,
            rules: self.rules.deep_view(),
        }
    }
}

/// The first problem of a rulepack, in the order the checks are made.
pub open spec fn pack_problem(pack: PackView) -> Option<ProblemView> {
    if pack.schema_version != RULEPACK_SCHEMA_VERSION {
        Some(ProblemView::UnsupportedSchemaVersion(pack.schema_version))
    } else if is_blank(pack.id) {
        Some(ProblemView::EmptyPackId)
    } else if is_blank(pack.version) {
        Some(ProblemView::EmptyPackVersion)
    } else if pack.rules.len() == 0 {
        Some(ProblemView::NoRules)
    } else if pack.rules.len() > MAX_RULES_PER_PACK {
        Some(ProblemView::TooManyRules(pack.rules.len() as usize))
    } else {
        rules_problem(pack.rules, pack.rules.len() as int)
    }
}

/// Whether a text is empty once trimmed.
fn blank(s: &str) -> (r: bool)
    ensures
        r == is_blank(s@),
{
    let t = trim_exec(s);
    t.as_str().is_empty()
}

/// Whether a text is a valid rule identifier.
pub fn is_valid_rule_id(value: &str) -> (r: bool)
    ensures
        r == valid_rule_id(value@),
{
    if !starts_with(value, "FERMIO-") {
        return false;
    }
    let cs = chars_of(value);
    let mut i: usize = 0;
    while i < cs.len()
        invariant
            i <= cs.len(),
            cs@ == value@,
            forall|j: int| 0 <= j < i ==> is_rule_id_char(#[trigger] cs@[j]),
        decreases cs.len() - i,
    {
        let c = cs[i];
        if !(('A' <= c && c <= 'Z') || ('0' <= c && c <= '9') || c == '-') {
            assert(!is_rule_id_char(cs@[i as int]));
            return false;
        }
        i += 1;
    }
    true
}

/// Whether a text is a valid CWE identifier.
pub fn is_valid_cwe(value: &str) -> (r: bool)
    ensures
        r == valid_cwe(value@),
{
    if !starts_with(value, "CWE-") {
        return false;
    }
    proof {
        reveal_strlit("CWE-");
    }
    let cs = chars_of(value);
    if cs.len() <= 4 {
        return false;
    }
    let mut i: usize = 4;
    while i < cs.len()
        invariant
            4 <= i <= cs.len(),
            cs@ == value@,
            forall|j: int| 4 <= j < i ==> '0' <= #[trigger] cs@[j] && cs@[j] <= '9',
        decreases cs.len() - i,
    {
        let c = cs[i];
        if !('0' <= c && c <= '9') {
            return false;
        }
        i += 1;
    }
    true
}

/// A call target without surrounding white space and leading namespace separators, lower-cased.
pub fn normalize_target(target: &str) -> (r: String)
    ensures
        r@ == target_key(target@),
{
    crate::taint::normalized_call_name(target)
}

fn value_key_exec(v: &str, as_target: bool) -> (r: String)
    ensures
        r@ == value_key(v@, as_target),
{
    if as_target {
        normalize_target(v)
    } else {
        let t = trim_exec(v);
        lowercase(t.as_str())
    }
}

/// Checks that a list holds only non-empty values that are distinct after normalization.
pub fn validate_unique_values(
    rule_id: &String,
    field: &'static str,
    values: &Vec<String>,
    normalize_as_target: bool,
) -> (r: Result<(), RulepackError>)
    ensures
        match r {
            Ok(()) => unique_problem(
                rule_id@,
                field@,
                values.deep_view(),
                normalize_as_target,
                values@.len() as int,
            ) is None,
            Err(e) => unique_problem(
                rule_id@,
                field@,
                values.deep_view(),
                normalize_as_target,
                values@.len() as int,
            ) == Some(e@),
        },
{
    let ghost vs = values.deep_view();
    let mut seen: Vec<String> = Vec::new();
    let mut i: usize = 0;
    while i < values.len()
        invariant
            i <= values.len(),
            vs == values.deep_view(),
            unique_problem(rule_id@, field@, vs, normalize_as_target, i as int) is None,
            seen@.len() == i,
            forall|j: int| 0 <= j < i ==> (#[trigger] seen@[j])@ == value_key(vs[j], normalize_as_target),
        decreases values.len() - i,
    {
        assert(vs[i as int] == values@[i as int]@);
        if blank(values[i].as_str()) {
            proof {
                lemma_unique_problem_stable(
                    rule_id@,
                    field@,
                    vs,
                    normalize_as_target,
                    i + 1,
                    vs.len() as int,
                );
            }
            return Err(RulepackError::EmptyValue(rule_id.clone(), field));
        }
        let key = value_key_exec(values[i].as_str(), normalize_as_target);
        let mut k: usize = 0;
        while k < seen.len()
            invariant
                k <= seen.len(),
                i < values.len(),
                vs == values.deep_view(),
                seen@.len() == i,
                key@ == value_key(vs[i as int], normalize_as_target),
                !is_blank(vs[i as int]),
                unique_problem(rule_id@, field@, vs, normalize_as_target, i as int) is None,
                forall|j: int| 0 <= j < i ==> (#[trigger] seen@[j])@ == value_key(vs[j], normalize_as_target),
                forall|j: int| 0 <= j < k ==> (#[trigger] seen@[j])@ != key@,
            decreases seen.len() - k,
        {
            if same(seen[k].as_str(), key.as_str()) {
                assert(seen@[k as int]@ == value_key(vs[k as int], normalize_as_target));
                assert(!is_blank(vs[i as int]));
                assert(unique_problem(rule_id@, field@, vs, normalize_as_target, i + 1) == Some(
                    ProblemView::DuplicateValue(rule_id@, field@, vs[i as int]),
                ));
                proof {
                    lemma_unique_problem_stable(
                        rule_id@,
                        field@,
                        vs,
                        normalize_as_target,
                        i + 1,
                        vs.len() as int,
                    );
                }
                return Err(RulepackError::DuplicateValue(rule_id.clone(), field, values[i].clone()));
            }
            k += 1;
        }
        assert(!exists|j: int|
            0 <= j < i && value_key(#[trigger] vs[j], normalize_as_target) == value_key(
                vs[i as int],
                normalize_as_target,
            )) by {
            assert forall|j: int| 0 <= j < i implies value_key(
                #[trigger] vs[j],
                normalize_as_target,
            ) != value_key(vs[i as int], normalize_as_target) by {
                assert(seen@[j]@ != key@);
            }
        }
        seen.push(key);
        i += 1;
    }
    Ok(())
}

/// Checks one rule definition, in the order of [`rule_problem`].
pub fn validate_rule(rule: &RuleDefinition) -> (r: Result<(), RulepackError>)
    ensures
        match r {
            Ok(()) => rule_problem(rule.deep_view()) is None,
            Err(e) => rule_problem(rule.deep_view()) == Some(e@),
        },
{
    if !is_valid_rule_id(rule.id.as_str()) {
        return Err(RulepackError::InvalidRuleId(rule.id.clone()));
    }
    if blank(rule.title.as_str()) {
        return Err(RulepackError::EmptyTitle(rule.id.clone()));
    }
    if blank(rule.description.as_str()) {
        return Err(RulepackError::EmptyDescription(rule.id.clone()));
    }
    if rule.targets.len() == 0 {
        return Err(RulepackError::NoTargets(rule.id.clone()));
    }
    if rule.call_kinds.len() == 0 {
        return Err(RulepackError::NoCallKinds(rule.id.clone()));
    }
    match validate_unique_values(&rule.id, "targets", &rule.targets, true) {
        Ok(()) => {},
        Err(e) => return Err(e),
    }
    match validate_unique_values(&rule.id, "frameworks", &rule.frameworks, false) {
        Ok(()) => {},
        Err(e) => return Err(e),
    }
    match &rule.cwe {
        Some(cwe) => {
            if !is_valid_cwe(cwe.as_str()) {
                return Err(RulepackError::InvalidCwe(rule.id.clone(), cwe.clone()));
            }
        },
        None => {},
    }
    match &rule.argument {
        Some(m) => {
            if m.string_equals.is_some() == m.string_prefix.is_some() {
                return Err(RulepackError::MatcherCount(rule.id.clone()));
            }
            if m.index > 31 {
                return Err(RulepackError::MatcherIndex(rule.id.clone()));
            }
            let empty = match &m.string_equals {
                Some(e) => e.as_str().is_empty(),
                None => match &m.string_prefix {
                    Some(p) => p.as_str().is_empty(),
                    None => false,
                },
            };
            if empty {
                return Err(RulepackError::EmptyMatcher(rule.id.clone()));
            }
        },
        None => {},
    }
    Ok(())
}

proof fn lemma_rules_problem_stable(rules: Seq<RuleDefView>, n: int, m: int)
    requires
        n <= m,
        rules_problem(rules, n) is Some,
    ensures
        rules_problem(rules, m) == rules_problem(rules, n),
    decreases m - n,
{
    if n < m {
        lemma_rules_problem_stable(rules, n, m - 1);
    }
}

/// Checks a whole rulepack, in the order of [`pack_problem`].
pub fn validate_rulepack(pack: &RulepackDefinition) -> (r: Result<(), RulepackError>)
    ensures
        match r {
            Ok(()) => pack_problem(pack.deep_view()) is None,
            Err(e) => pack_problem(pack.deep_view()) == Some(e@),
        },
{
    if pack.schema_version != RULEPACK_SCHEMA_VERSION {
        return Err(RulepackError::UnsupportedSchemaVersion(pack.schema_version));
    }
    if blank(pack.id.as_str()) {
        return Err(RulepackError::EmptyPackId);
    }
    if blank(pack.version.as_str()) {
        return Err(RulepackError::EmptyPackVersion);
    }
    if pack.rules.len() == 0 {
        return Err(RulepackError::NoRules);
    }
    if pack.rules.len() > MAX_RULES_PER_PACK {
        return Err(RulepackError::TooManyRules(pack.rules.len()));
    }
    let rules = &pack.rules;
    let ghost views = rules.deep_view();
    let mut i: usize = 0;
    while i < rules.len()
        invariant
            i <= rules.len(),
            *rules == pack.rules,
            views == rules.deep_view(),
            pack_problem(pack.deep_view()) == rules_problem(views, views.len() as int),
            rules_problem(views, i as int) is None,
        decreases rules.len() - i,
    {
        assert(views[i as int] == rules@[i as int].deep_view());
        match validate_rule(&rules[i]) {
            Ok(()) => {},
            Err(e) => {
                proof {
                    lemma_rules_problem_stable(views, i + 1, views.len() as int);
                }
                return Err(e);
            },
        }
        let mut k: usize = 0;
        while k < i
            invariant
                k <= i,
                i < rules.len(),
                views == rules.deep_view(),
                rule_problem(views[i as int]) is None,
                rules_problem(views, i as int) is None,
                pack_problem(pack.deep_view()) == rules_problem(views, views.len() as int),
                forall|j: int| 0 <= j < k ==> (#[trigger] views[j]).id != views[i as int].id,
            decreases i - k,
        {
            assert(views[k as int] == rules@[k as int].deep_view());
            assert(views[i as int] == rules@[i as int].deep_view());
            if rules[k].id == rules[i].id {
                assert(rules_problem(views, i + 1) == Some(
                    ProblemView::DuplicateRuleId(views[i as int].id),
                ));
                proof {
                    lemma_rules_problem_stable(views, i + 1, views.len() as int);
                }
                return Err(RulepackError::DuplicateRuleId(rules[i].id.clone()));
            }
            k += 1;
        }
        i += 1;
    }
    Ok(())
}

/// The message of a rulepack problem.
pub open spec fn problem_text(p: ProblemView) -> Seq<char> {
    match p {
        ProblemView::UnsupportedSchemaVersion(v) => "unsupported rulepack schema version "@
            + decimal(v as nat) + "; expected 1"@,
        ProblemView::EmptyPackId => "rulepack id cannot be empty"@,
        ProblemView::EmptyPackVersion => "rulepack version cannot be empty"@,
        ProblemView::NoRules => "rulepack must contain at least one rule"@,
        ProblemView::TooManyRules(n) => "rulepack contains "@ + decimal(n as nat)
            + " rules, exceeding the limit of 1000"@,
        ProblemView::DuplicateRuleId(id) => "rulepack contains duplicate rule id `"@ + id + "`"@,
        ProblemView::InvalidRuleId(id) => "rule id `"@ + id
            + "` must start with FERMIO- and contain only uppercase ASCII letters, digits and hyphens"@,
        ProblemView::EmptyTitle(id) => "rule `"@ + id + "` has an empty title"@,
        ProblemView::EmptyDescription(id) => "rule `"@ + id + "` has an empty description"@,
        ProblemView::NoTargets(id) => "rule `"@ + id + "` must define at least one call target"@,
        ProblemView::NoCallKinds(id) => "rule `"@ + id + "` must define at least one call kind"@,
        ProblemView::EmptyValue(id, f) => "rule `"@ + id + "` contains an empty "@ + f + " value"@,
        ProblemView::DuplicateValue(id, f, v) => "rule `"@ + id + "` contains duplicate "@ + f
            + " value `"@ + v + "`"@,
        ProblemView::InvalidCwe(id, c) => "rule `"@ + id + "` has invalid CWE identifier `"@ + c
            + "`"@,
        ProblemView::MatcherCount(id) => "rule `"@ + id
            + "` argument matcher must define exactly one of string_equals or string_prefix"@,
        ProblemView::MatcherIndex(id) => "rule `"@ + id
            + "` argument index exceeds the limit of 31"@,
        ProblemView::EmptyMatcher(id) => "rule `"@ + id + "` argument matcher cannot be empty"@,
    }
}

fn rule_text(id: &String, tail: &str) -> (r: String)
    ensures
        r@ == "rule `"@ + id@ + tail@,
{
    join3("rule `", id.as_str(), tail)
}

impl RulepackError {
    /// The message of this problem.
    pub fn message(&self) -> (r: String)
        ensures
            r@ == problem_text(self@),
    {
        match self {
            RulepackError::UnsupportedSchemaVersion(v) => {
                let n = decimal_exec(*v as usize);
                join3("unsupported rulepack schema version ", n.as_str(), "; expected 1")
            },
            RulepackError::EmptyPackId => owned("rulepack id cannot be empty"),
            RulepackError::EmptyPackVersion => owned("rulepack version cannot be empty"),
            RulepackError::NoRules => owned("rulepack must contain at least one rule"),
            RulepackError::TooManyRules(n) => {
                let d = decimal_exec(*n);
                join3("rulepack contains ", d.as_str(), " rules, exceeding the limit of 1000")
            },
            RulepackError::DuplicateRuleId(id) => join3(
                "rulepack contains duplicate rule id `",
                id.as_str(),
                "`",
            ),
            RulepackError::InvalidRuleId(id) => join3(
                "rule id `",
                id.as_str(),
                "` must start with FERMIO- and contain only uppercase ASCII letters, digits and hyphens",
            ),
            RulepackError::EmptyTitle(id) => rule_text(id, "` has an empty title"),
            RulepackError::EmptyDescription(id) => rule_text(id, "` has an empty description"),
            RulepackError::NoTargets(id) => rule_text(id, "` must define at least one call target"),
            RulepackError::NoCallKinds(id) => rule_text(id, "` must define at least one call kind"),
            RulepackError::EmptyValue(id, f) => {
                let mut r = rule_text(id, "` contains an empty ");
                r.append(f);
                r.append(" value");
                r
            },
            RulepackError::DuplicateValue(id, f, v) => {
                let mut r = rule_text(id, "` contains duplicate ");
                r.append(f);
                r.append(" value `");
                r.append(v.as_str());
                r.append("`");
                r
            },
            RulepackError::InvalidCwe(id, c) => {
                let mut r = rule_text(id, "` has invalid CWE identifier `");
                r.append(c.as_str());
                r.append("`");
                r
            },
            RulepackError::MatcherCount(id) => rule_text(
                id,
                "` argument matcher must define exactly one of string_equals or string_prefix",
            ),
            RulepackError::MatcherIndex(id) => rule_text(
                id,
                "` argument index exceeds the limit of 31",
            ),
            RulepackError::EmptyMatcher(id) => rule_text(id, "` argument matcher cannot be empty"),
        }
    }
}

// ---------------------------------------------------------------------------------------------
// Declarative call rules
/// A call-site rule built from a rulepack definition.
pub struct DeclarativeCallRule {
    pub id: &'static str,
    pub title: String,
    pub description: String,
    pub severity: Severity,
    pub confidence: Confidence,
    pub cwe: Option<String>,
    pub frameworks: Vec<String>,
    pub active: bool,
    pub targets: Vec<String>,
    pub call_kinds: Vec<RuleCallKind>,
    pub argument: Option<ArgumentMatcher>,
}

/// A call of kind `kind` to `target` with `args` is one the rule matches: one of its call kinds
/// names the kind, one of its targets equals the normalized target, and the argument matcher,
/// if any, accepts the constant text of its argument.
pub open spec fn call_matches(
    rule: &DeclarativeCallRule,
    module: ModuleIr,
    target: Seq<char>,
    kind: CallKind,
    args: Seq<u32>,
) -> bool {
    &&& exists|i: int|
        0 <= i < rule.call_kinds@.len() && (#[trigger] rule.call_kinds@[i]).accepts_spec(kind)
    &&& exists|i: int|
        0 <= i < rule.targets@.len() && (#[trigger] rule.targets@[i])@ == target_key(target)
    &&& match rule.argument {
        None => true,
        Some(m) => m.index < args.len() && match resolve_constant(
            module,
            args[m.index as int],
            seq![],
            0,
        ) {
            Some(actual) => matcher_accepts(m, actual),
            None => false,
        },
    }
}

/// The framework of a rule's findings: its only framework, if it names exactly one.
pub open spec fn single_framework(rule: &DeclarativeCallRule) -> Option<Seq<char>> {
    if rule.frameworks@.len() == 1 {
        Some(rule.frameworks@[0]@)
    } else {
        None
    }
}

/// The finding of a matching call to `target` at `location`.
pub open spec fn declarative_finding(
    rule: &DeclarativeCallRule,
    target: Seq<char>,
    location: LocationView,
) -> FindingView {
    FindingView {
        rule_id: rule.id@,
        title: rule.title@,
        description: rule.description@,
        severity: rule.severity,
        confidence: rule.confidence,
        location,
        fingerprint: fingerprint_text(rule.id@, target_key(target), location.path),
        cwe: rule.cwe.deep_view(),
        framework: single_framework(rule),
        dataflow: seq![],
    }
}

/// The finding of one instruction, if it is a call the rule matches.
pub open spec fn declarative_step(
    rule: &DeclarativeCallRule,
    module: ModuleIr,
    instruction: Instruction,
) -> Seq<FindingView> {
    match instruction {
        Instruction::Call { target, call_kind, arguments, location, .. } => if call_matches(
            rule,
            module,
            target@,
            call_kind,
            ids(arguments@),
        ) {
            seq![declarative_finding(rule, target@, location@)]
        } else {
            seq![]
        },
        _ => seq![],
    }
}

/// The findings of a declarative rule on a prefix of a module's instructions.
pub open spec fn declarative_findings(
    rule: &DeclarativeCallRule,
    module: ModuleIr,
    instructions: Seq<Instruction>,
) -> Seq<FindingView>
    decreases instructions.len(),
{
    if instructions.len() == 0 {
        seq![]
    } else {
        declarative_findings(rule, module, instructions.drop_last()) + declarative_step(
            rule,
            module,
            instructions.last(),
        )
    }
}

fn any_kind_accepts(kinds: &Vec<RuleCallKind>, kind: CallKind) -> (r: bool)
    ensures
        r == exists|i: int| 0 <= i < kinds@.len() && (#[trigger] kinds@[i]).accepts_spec(kind),
{
    let mut i: usize = 0;
    while i < kinds.len()
        invariant
            i <= kinds.len(),
            forall|j: int| 0 <= j < i ==> !(#[trigger] kinds@[j]).accepts_spec(kind),
        decreases kinds.len() - i,
    {
        if kinds[i].accepts(kind) {
            return true;
        }
        i += 1;
    }
    false
}

fn any_text_equals(values: &Vec<String>, text: &String) -> (r: bool)
    ensures
        r == exists|i: int| 0 <= i < values@.len() && (#[trigger] values@[i])@ == text@,
{
    let mut i: usize = 0;
    while i < values.len()
        invariant
            i <= values.len(),
            forall|j: int| 0 <= j < i ==> (#[trigger] values@[j])@ != text@,
        decreases values.len() - i,
    {
        if values[i] == *text {
            return true;
        }
        i += 1;
    }
    false
}

impl DeclarativeCallRule {
    fn matches_call(
        &self,
        target: &str,
        kind: CallKind,
        arguments: &Vec<ValueId>,
        analysis: &ModuleAnalysis<'_>,
    ) -> (r: bool)
        ensures
            r == call_matches(self, analysis.analyzed(), target@, kind, ids(arguments@)),
    {
        if !any_kind_accepts(&self.call_kinds, kind) {
            return false;
        }
        let normalized = normalize_target(target);
        if !any_text_equals(&self.targets, &normalized) {
            return false;
        }
        match &self.argument {
            None => true,
            Some(m) => {
                if m.index >= arguments.len() {
                    return false;
                }
                match analysis.resolve_constant_string(arguments[m.index]) {
                    Some(actual) => m.accepts(actual.as_str()),
                    None => false,
                }
            },
        }
    }

    fn single_framework_exec(&self) -> (r: Option<String>)
        ensures
            r.deep_view() == single_framework(self),
    {
        if self.frameworks.len() == 1 {
            Some(self.frameworks[0].clone())
        } else {
            None
        }
    }

    fn finding_at(&self, target: &str, location: &SourceLocation) -> (r: Finding)
        ensures
            r@ == declarative_finding(self, target@, location@),
    {
        let semantic = normalize_target(target);
        let cwe = match &self.cwe {
            Some(c) => Some(c.clone()),
            None => None,
        };
        let r = Finding {
            rule_id: owned(self.id),
            title: self.title.clone(),
            description: self.description.clone(),
            severity: self.severity,
            confidence: self.confidence,
            location: location.copy(),
            fingerprint: fingerprint(self.id, semantic.as_str(), location),
            cwe,
            framework: self.single_framework_exec(),
            dataflow: Vec::new(),
        };
        assert(r@.dataflow =~= seq![]);
        r
    }
}

impl Rule for DeclarativeCallRule {
    open spec fn rule_id(&self) -> Seq<char> {
        self.id@
    }

    open spec fn findings_on(&self, module: ModuleIr) -> Seq<FindingView> {
        if self.active {
            declarative_findings(self, module, module.instructions@)
        } else {
            seq![]
        }
    }

    fn id(&self) -> (r: &'static str) {
        self.id
    }

    fn evaluate(&self, analysis: &ModuleAnalysis<'_>) -> (r: Vec<Finding>) {
        if !self.active {
            return Vec::new();
        }
        let instructions = &analysis.module().instructions;
        let ghost module = analysis.analyzed();
        let mut out: Vec<Finding> = Vec::new();
        let mut i: usize = 0;
        while i < instructions.len()
            invariant
                i <= instructions.len(),
                module == analysis.analyzed(),
                *instructions == module.instructions,
                out.deep_view() == declarative_findings(
                    self,
                    module,
                    instructions@.subrange(0, i as int),
                ),
            decreases instructions.len() - i,
        {
            let ghost before = out.deep_view();
            match &instructions[i] {
                Instruction::Call { target, call_kind, arguments, location, .. } => {
                    if self.matches_call(target.as_str(), *call_kind, arguments, analysis) {
                        out.push(self.finding_at(target.as_str(), location));
                    }
                },
                _ => {},
            }
            proof {
                let s = instructions@.subrange(0, i + 1);
                assert(s.drop_last() =~= instructions@.subrange(0, i as int));
                assert(s.last() == instructions@[i as int]);
                assert(out.deep_view() =~= before + declarative_step(
                    self,
                    module,
                    instructions@[i as int],
                ));
            }
            i += 1;
        }
        assert(instructions@.subrange(0, instructions@.len() as int) =~= instructions@);
        out
    }
}

// ---------------------------------------------------------------------------------------------
// Instantiation
/// The rule names no framework, or one of its frameworks equals an active one up to ASCII case.
pub open spec fn framework_active(frameworks: Seq<Seq<char>>, active: Seq<Seq<char>>) -> bool {
    frameworks.len() == 0 || exists|i: int, j: int|
        0 <= i < frameworks.len() && 0 <= j < active.len() && eq_ignore_case(
            #[trigger] active[j],
            #[trigger] frameworks[i],
        )
}

/// `d` is the rule built from the definition `def` for the active frameworks `active`.
pub open spec fn instantiated(d: DeclarativeCallRule, def: RuleDefView, active: Seq<Seq<char>>) -> bool {
    &&& d.id@ == def.id
    &&& d.title@ == def.title
    &&& d.description@ == def.description
    &&& d.severity == def.severity
    &&& d.confidence == def.confidence
    &&& d.cwe.deep_view() == def.cwe
    &&& d.frameworks.deep_view() == def.frameworks
    &&& d.active == framework_active(def.frameworks, active)
    &&& d.targets.deep_view() == def.targets.map_values(|t: Seq<char>| target_key(t))
    &&& d.call_kinds@ == def.call_kinds
    &&& d.argument.deep_view() == def.argument
}

/// `String::leak`: the text, kept for the rest of the process.
#[verifier::external_body]
fn leak_text(s: String) -> (r: &'static str)
    ensures
        r@ == s@,
{
    s.leak()
}

fn any_framework_active(frameworks: &Vec<String>, active: &[String]) -> (r: bool)
    ensures
        r == framework_active(frameworks.deep_view(), active.deep_view()),
{
    let ghost fs = frameworks.deep_view();
    let ghost acts = active.deep_view();
    if frameworks.len() == 0 {
        return true;
    }
    let mut i: usize = 0;
    while i < frameworks.len()
        invariant
            i <= frameworks.len(),
            fs == frameworks.deep_view(),
            acts == active.deep_view(),
            forall|a: int, b: int|
                0 <= a < i && 0 <= b < acts.len() ==> !eq_ignore_case(
                    #[trigger] acts[b],
                    #[trigger] fs[a],
                ),
        decreases frameworks.len() - i,
    {
        let mut j: usize = 0;
        while j < active.len()
            invariant
                j <= active.len(),
                i < frameworks.len(),
                fs == frameworks.deep_view(),
                acts == active.deep_view(),
                forall|a: int, b: int|
                    0 <= a < i && 0 <= b < acts.len() ==> !eq_ignore_case(
                        #[trigger] acts[b],
                        #[trigger] fs[a],
                    ),
                forall|b: int| 0 <= b < j ==> !eq_ignore_case(#[trigger] acts[b], fs[i as int]),
            decreases active.len() - j,
        {
            assert(acts[j as int] == active@[j as int]@);
            assert(fs[i as int] == frameworks@[i as int]@);
            if equal_ignore_case(active[j].as_str(), frameworks[i].as_str()) {
                return true;
            }
            j += 1;
        }
        i += 1;
    }
    false
}

/// The rule a definition describes, for the active frameworks `active_frameworks`.
pub fn instantiate_rule(rule: RuleDefinition, active_frameworks: &[String]) -> (r:
    DeclarativeCallRule)
    ensures
        instantiated(r, rule.deep_view(), active_frameworks.deep_view()),
{
    let ghost def = rule.deep_view();
    let active = any_framework_active(&rule.frameworks, active_frameworks);
    let mut targets: Vec<String> = Vec::new();
    let mut i: usize = 0;
    while i < rule.targets.len()
        invariant
            i <= rule.targets.len(),
            def == rule.deep_view(),
            targets.deep_view() == def.targets.subrange(0, i as int).map_values(
                |t: Seq<char>| target_key(t),
            ),
        decreases rule.targets.len() - i,
    {
        assert(def.targets[i as int] == rule.targets@[i as int]@);
        let ghost before = targets.deep_view();
        let key = normalize_target(rule.targets[i].as_str());
        targets.push(key);
        assert(targets.deep_view() =~= before.push(target_key(def.targets[i as int])));
        assert(def.targets.subrange(0, i + 1) =~= def.targets.subrange(0, i as int).push(
            def.targets[i as int],
        ));
        assert(targets.deep_view() =~= def.targets.subrange(0, i + 1).map_values(
            |t: Seq<char>| target_key(t),
        ));
        i += 1;
    }
    assert(def.targets.subrange(0, def.targets.len() as int) =~= def.targets);
    let RuleDefinition {
        id,
        title,
        description,
        severity,
        confidence,
        cwe,
        frameworks,
        targets: _,
        call_kinds,
        argument,
    } = rule;
    DeclarativeCallRule {
        id: leak_text(id),
        title,
        description,
        severity,
        confidence,
        cwe,
        frameworks,
        active,
        targets,
        call_kinds,
        argument,
    }
}

/// The rules of a rulepack for the active frameworks, if the pack is valid; otherwise its
/// first problem.
pub fn rules_from_pack(pack: RulepackDefinition, active_frameworks: &[String]) -> (r: Result<
    Vec<AnyRule>,
    RulepackError,
>)
    ensures
        match r {
            Ok(rules) => {
                &&& pack_problem(pack.deep_view()) is None
                &&& rules@.len() == pack.rules@.len()
                &&& forall|i: int|
                    0 <= i < rules@.len() ==> (#[trigger] rules@[i] matches AnyRule::Declarative(d)
                        && instantiated(
                        d,
                        pack.rules@[i].deep_view(),
                        active_frameworks.deep_view(),
                    ))
            },
            Err(e) => pack_problem(pack.deep_view()) == Some(e@),
        },
{
    match validate_rulepack(&pack) {
        Ok(()) => {},
        Err(e) => return Err(e),
    }
    let ghost all = pack.rules@;
    let mut defs = pack.rules;
    let n = defs.len();
    let mut out: Vec<AnyRule> = Vec::new();
    let mut i: usize = 0;
    while defs.len() > 0
        invariant
            all.len() == n,
            i + defs@.len() == all.len(),
            defs@ == all.subrange(i as int, all.len() as int),
            out@.len() == i,
            forall|k: int|
                0 <= k < i ==> (#[trigger] out@[k] matches AnyRule::Declarative(d) && instantiated(
                    d,
                    all[k].deep_view(),
                    active_frameworks.deep_view(),
                )),
        decreases defs@.len(),
    {
        let def = defs.remove(0);
        assert(def == all[i as int]);
        out.push(AnyRule::Declarative(instantiate_rule(def, active_frameworks)));
        i += 1;
        assert(defs@ =~= all.subrange(i as int, all.len() as int));
    }
    Ok(out)
}

// ---------------------------------------------------------------------------------------------
// The built-in framework pack
/// A single-target, single-framework rule definition.
pub open spec fn framework_rule(
    id: Seq<char>,
    title: Seq<char>,
    description: Seq<char>,
    severity: Severity,
    confidence: Confidence,
    cwe: Seq<char>,
    framework: Seq<char>,
    target: Seq<char>,
    call_kinds: Seq<RuleCallKind>,
    argument: Option<MatcherView>,
) -> RuleDefView {
    RuleDefView {
        id,
        title,
        description,
        severity,
        confidence,
        cwe: Some(cwe),
        frameworks: seq![framework],
        targets: seq![target],
        call_kinds,
        argument,
    }
}

/// The built-in rulepack for Laravel, Symfony and WordPress projects.
pub open spec fn builtin_framework_pack() -> PackView {
    PackView {
        schema_version: 1,
        id: "fermio.php.frameworks"@,
        version: "1.0.0"@,
        rules: seq![
            framework_rule(
                "FERMIO-LARAVEL-DEBUG-DD-001"@,
                "Laravel debug dump"@,
                "Remove dd() calls from production code; they expose application state and stop the request."@,
                Severity::Medium,
                Confidence::High,
                "CWE-489"@,
                "laravel"@,
                "dd"@,
                seq![RuleCallKind::Function],
                None,
            ),
            framework_rule(
                "FERMIO-LARAVEL-DB-RAW-001"@,
                "Laravel raw database expression"@,
                "Review raw() expressions; values placed in raw SQL bypass query parameter binding."@,
                Severity::Medium,
                Confidence::Medium,
                "CWE-89"@,
                "laravel"@,
                "raw"@,
                seq![RuleCallKind::StaticMethod, RuleCallKind::Method],
                None,
            ),
            framework_rule(
                "FERMIO-SYMFONY-DEBUG-DUMP-001"@,
                "Symfony debug dump"@,
                "Remove dump() calls from production code; they expose application state."@,
                Severity::Low,
                Confidence::High,
                "CWE-489"@,
                "symfony"@,
                "dump"@,
                seq![RuleCallKind::Function],
                None,
            ),
            framework_rule(
                "FERMIO-SYMFONY-PROCESS-SHELL-001"@,
                "Symfony process from a shell command line"@,
                "Process::fromShellCommandline() runs its command through a shell; pass an argument array to Process instead."@,
                Severity::High,
                Confidence::Medium,
                "CWE-78"@,
                "symfony"@,
                "fromShellCommandline"@,
                seq![RuleCallKind::StaticMethod],
                None,
            ),
            framework_rule(
                "FERMIO-WORDPRESS-AJAX-NOPRIV-001"@,
                "WordPress unauthenticated AJAX action"@,
                "wp_ajax_nopriv_ hooks run for visitors who are not logged in; verify a nonce and the required capability in the handler."@,
                Severity::Medium,
                Confidence::Medium,
                "CWE-862"@,
                "wordpress"@,
                "add_action"@,
                seq![RuleCallKind::Function],
                Some(
                    MatcherView {
                        index: 0,
                        string_equals: None,
                        string_prefix: Some("wp_ajax_nopriv_"@),
                        case_sensitive: Some(true),
                    },
                ),
            ),
            framework_rule(
                "FERMIO-WORDPRESS-DEBUG-LOG-001"@,
                "WordPress direct error_log call"@,
                "Direct error_log() calls can write sensitive data to server logs; use the site's logging configuration."@,
                Severity::Low,
                Confidence::Medium,
                "CWE-532"@,
                "wordpress"@,
                "error_log"@,
                seq![RuleCallKind::Function],
                None,
            ),
        ],
    }
}

fn framework_rule_exec(
    id: &str,
    title: &str,
    description: &str,
    severity: Severity,
    confidence: Confidence,
    cwe: &str,
    framework: &str,
    target: &str,
    call_kinds: Vec<RuleCallKind>,
    argument: Option<ArgumentMatcher>,
) -> (r: RuleDefinition)
    ensures
        r.deep_view() == framework_rule(
            id@,
            title@,
            description@,
            severity,
            confidence,
            cwe@,
            framework@,
            target@,
            call_kinds@,
            argument.deep_view(),
        ),
{
    let r = RuleDefinition {
        id: owned(id),
        title: owned(title),
        description: owned(description),
        severity,
        confidence,
        cwe: Some(owned(cwe)),
        frameworks: vec![owned(framework)],
        targets: vec![owned(target)],
        call_kinds,
        argument,
    };
    assert(r.frameworks.deep_view() =~= seq![framework@]);
    assert(r.targets.deep_view() =~= seq![target@]);
    r
}

/// The built-in rulepack for Laravel, Symfony and WordPress projects.
pub fn builtin_framework_rulepack() -> (r: RulepackDefinition)
    ensures
        r.deep_view() == builtin_framework_pack(),
{
    let ghost spec_rules = builtin_framework_pack().rules;
    let mut rules: Vec<RuleDefinition> = Vec::new();
    let kinds0 = vec![RuleCallKind::Function];
    assert(kinds0@ =~= seq![RuleCallKind::Function]);
    let rule0 = framework_rule_exec(
        "FERMIO-LARAVEL-DEBUG-DD-001",
        "Laravel debug dump",
        "Remove dd() calls from production code; they expose application state and stop the request.",
        Severity::Medium,
        Confidence::High,
        "CWE-489",
        "laravel",
        "dd",
        kinds0,
        None,
    );
    assert(rule0.deep_view() == spec_rules[0]);
    rules.push(rule0);
    let kinds1 = vec![RuleCallKind::StaticMethod, RuleCallKind::Method];
    assert(kinds1@ =~= seq![RuleCallKind::StaticMethod, RuleCallKind::Method]);
    let rule1 = framework_rule_exec(
        "FERMIO-LARAVEL-DB-RAW-001",
        "Laravel raw database expression",
        "Review raw() expressions; values placed in raw SQL bypass query parameter binding.",
        Severity::Medium,
        Confidence::Medium,
        "CWE-89",
        "laravel",
        "raw",
        kinds1,
        None,
    );
    assert(rule1.deep_view() == spec_rules[1]);
    rules.push(rule1);
    let kinds2 = vec![RuleCallKind::Function];
    assert(kinds2@ =~= seq![RuleCallKind::Function]);
    let rule2 = framework_rule_exec(
        "FERMIO-SYMFONY-DEBUG-DUMP-001",
        "Symfony debug dump",
        "Remove dump() calls from production code; they expose application state.",
        Severity::Low,
        Confidence::High,
        "CWE-489",
        "symfony",
        "dump",
        kinds2,
        None,
    );
    assert(rule2.deep_view() == spec_rules[2]);
    rules.push(rule2);
    let kinds3 = vec![RuleCallKind::StaticMethod];
    assert(kinds3@ =~= seq![RuleCallKind::StaticMethod]);
    let rule3 = framework_rule_exec(
        "FERMIO-SYMFONY-PROCESS-SHELL-001",
        "Symfony process from a shell command line",
        "Process::fromShellCommandline() runs its command through a shell; pass an argument array to Process instead.",
        Severity::High,
        Confidence::Medium,
        "CWE-78",
        "symfony",
        "fromShellCommandline",
        kinds3,
        None,
    );
    assert(rule3.deep_view() == spec_rules[3]);
    rules.push(rule3);
    let kinds4 = vec![RuleCallKind::Function];
    assert(kinds4@ =~= seq![RuleCallKind::Function]);
    let matcher = Some(
        ArgumentMatcher {
            index: 0,
            string_equals: None,
            string_prefix: Some(owned("wp_ajax_nopriv_")),
            case_sensitive: Some(true),
        },
    );
    let rule4 = framework_rule_exec(
        "FERMIO-WORDPRESS-AJAX-NOPRIV-001",
        "WordPress unauthenticated AJAX action",
        "wp_ajax_nopriv_ hooks run for visitors who are not logged in; verify a nonce and the required capability in the handler.",
        Severity::Medium,
        Confidence::Medium,
        "CWE-862",
        "wordpress",
        "add_action",
        kinds4,
        matcher,
    );
    assert(rule4.deep_view() == spec_rules[4]);
    rules.push(rule4);
    let kinds5 = vec![RuleCallKind::Function];
    assert(kinds5@ =~= seq![RuleCallKind::Function]);
    let rule5 = framework_rule_exec(
        "FERMIO-WORDPRESS-DEBUG-LOG-001",
        "WordPress direct error_log call",
        "Direct error_log() calls can write sensitive data to server logs; use the site's logging configuration.",
        Severity::Low,
        Confidence::Medium,
        "CWE-532",
        "wordpress",
        "error_log",
        kinds5,
        None,
    );
    assert(rule5.deep_view() == spec_rules[5]);
    rules.push(rule5);
    let r = RulepackDefinition {
        schema_version: 1,
        id: owned("fermio.php.frameworks"),
        version: owned("1.0.0"),
        rules,
    };
    assert(r.rules.deep_view() =~= builtin_framework_pack().rules);
    r
}

/// The first and last characters of a text are not white space, so it is not blank.
proof fn lemma_not_blank(s: Seq<char>)
    requires
        s.len() > 0,
        !crate::text::is_space(s[0]),
        !crate::text::is_space(s.last()),
    ensures
        !is_blank(s),
{
    assert(crate::text::trim_start(s) == s);
    assert(crate::text::trim_end(s) == s);
}

/// A rule of one target and one framework, whose texts are not blank and whose identifier,
/// weakness and matcher are valid, has no problem.
proof fn lemma_framework_rule_valid(r: RuleDefView)
    requires
        valid_rule_id(r.id),
        !is_blank(r.title),
        !is_blank(r.description),
        r.targets.len() == 1,
        !is_blank(r.targets[0]),
        r.frameworks.len() == 1,
        !is_blank(r.frameworks[0]),
        r.call_kinds.len() > 0,
        r.cwe matches Some(c) && valid_cwe(c),
        r.argument matches Some(m) ==> matcher_problem(r.id, m) is None,
    ensures
        rule_problem(r) is None,
{
    assert(unique_problem(r.id, "targets"@, r.targets, true, 0) is None);
    assert(unique_problem(r.id, "frameworks"@, r.frameworks, false, 0) is None);
}

/// The built-in framework rulepack has no problem.
proof fn lemma_builtin_pack_valid()
    ensures
        pack_problem(builtin_framework_pack()) is None,
{
    let pack = builtin_framework_pack();
    let rules = pack.rules;
    reveal_strlit("FERMIO-");
    reveal_strlit("CWE-");
    reveal_strlit("fermio.php.frameworks");
    reveal_strlit("1.0.0");
    lemma_not_blank(pack.id);
    lemma_not_blank(pack.version);
    reveal_strlit("laravel");
    reveal_strlit("symfony");
    reveal_strlit("wordpress");
    lemma_not_blank("laravel"@);
    lemma_not_blank("symfony"@);
    lemma_not_blank("wordpress"@);
    assert(rule_problem(rules[0]) is None) by {
        let r = rules[0];
        reveal_strlit("FERMIO-LARAVEL-DEBUG-DD-001");
        reveal_strlit("Laravel debug dump");
        reveal_strlit(
            "Remove dd() calls from production code; they expose application state and stop the request.",
        );
        reveal_strlit("CWE-489");
        reveal_strlit("dd");
        assert(r.id.subrange(0, 7) =~= "FERMIO-"@);
        assert(r.cwe->0.subrange(0, 4) =~= "CWE-"@);
        lemma_not_blank(r.title);
        lemma_not_blank(r.description);
        lemma_not_blank(r.targets[0]);
        lemma_framework_rule_valid(r);
    }
    assert(rule_problem(rules[1]) is None) by {
        let r = rules[1];
        reveal_strlit("FERMIO-LARAVEL-DB-RAW-001");
        reveal_strlit("Laravel raw database expression");
        reveal_strlit(
            "Review raw() expressions; values placed in raw SQL bypass query parameter binding.",
        );
        reveal_strlit("CWE-89");
        reveal_strlit("raw");
        assert(r.id.subrange(0, 7) =~= "FERMIO-"@);
        assert(r.cwe->0.subrange(0, 4) =~= "CWE-"@);
        lemma_not_blank(r.title);
        lemma_not_blank(r.description);
        lemma_not_blank(r.targets[0]);
        lemma_framework_rule_valid(r);
    }
    assert(rule_problem(rules[2]) is None) by {
        let r = rules[2];
        reveal_strlit("FERMIO-SYMFONY-DEBUG-DUMP-001");
        reveal_strlit("Symfony debug dump");
        reveal_strlit("Remove dump() calls from production code; they expose application state.");
        reveal_strlit("CWE-489");
        reveal_strlit("dump");
        assert(r.id.subrange(0, 7) =~= "FERMIO-"@);
        assert(r.cwe->0.subrange(0, 4) =~= "CWE-"@);
        lemma_not_blank(r.title);
        lemma_not_blank(r.description);
        lemma_not_blank(r.targets[0]);
        lemma_framework_rule_valid(r);
    }
    assert(rule_problem(rules[3]) is None) by {
        let r = rules[3];
        reveal_strlit("FERMIO-SYMFONY-PROCESS-SHELL-001");
        reveal_strlit("Symfony process from a shell command line");
        reveal_strlit(
            "Process::fromShellCommandline() runs its command through a shell; pass an argument array to Process instead.",
        );
        reveal_strlit("CWE-78");
        reveal_strlit("fromShellCommandline");
        assert(r.id.subrange(0, 7) =~= "FERMIO-"@);
        assert(r.cwe->0.subrange(0, 4) =~= "CWE-"@);
        lemma_not_blank(r.title);
        lemma_not_blank(r.description);
        lemma_not_blank(r.targets[0]);
        lemma_framework_rule_valid(r);
    }
    assert(rule_problem(rules[4]) is None) by {
        let r = rules[4];
        reveal_strlit("FERMIO-WORDPRESS-AJAX-NOPRIV-001");
        reveal_strlit("WordPress unauthenticated AJAX action");
        reveal_strlit(
            "wp_ajax_nopriv_ hooks run for visitors who are not logged in; verify a nonce and the required capability in the handler.",
        );
        reveal_strlit("CWE-862");
        reveal_strlit("add_action");
        reveal_strlit("wp_ajax_nopriv_");
        assert(r.id.subrange(0, 7) =~= "FERMIO-"@);
        assert(r.cwe->0.subrange(0, 4) =~= "CWE-"@);
        lemma_not_blank(r.title);
        lemma_not_blank(r.description);
        lemma_not_blank(r.targets[0]);
        lemma_framework_rule_valid(r);
    }
    assert(rule_problem(rules[5]) is None) by {
        let r = rules[5];
        reveal_strlit("FERMIO-WORDPRESS-DEBUG-LOG-001");
        reveal_strlit("WordPress direct error_log call");
        reveal_strlit(
            "Direct error_log() calls can write sensitive data to server logs; use the site's logging configuration.",
        );
        reveal_strlit("CWE-532");
        reveal_strlit("error_log");
        assert(r.id.subrange(0, 7) =~= "FERMIO-"@);
        assert(r.cwe->0.subrange(0, 4) =~= "CWE-"@);
        lemma_not_blank(r.title);
        lemma_not_blank(r.description);
        lemma_not_blank(r.targets[0]);
        lemma_framework_rule_valid(r);
    }
    reveal_strlit("FERMIO-LARAVEL-DEBUG-DD-001");
    reveal_strlit("FERMIO-LARAVEL-DB-RAW-001");
    reveal_strlit("FERMIO-SYMFONY-DEBUG-DUMP-001");
    reveal_strlit("FERMIO-SYMFONY-PROCESS-SHELL-001");
    reveal_strlit("FERMIO-WORDPRESS-AJAX-NOPRIV-001");
    reveal_strlit("FERMIO-WORDPRESS-DEBUG-LOG-001");
    assert(rules[4].id[7] != rules[3].id[7]);
    assert(rules_problem(rules, 0) is None);
    assert(rules_problem(rules, 1) is None);
    assert(rules_problem(rules, 2) is None);
    assert(rules_problem(rules, 3) is None);
    assert(rules_problem(rules, 4) is None);
    assert(rules_problem(rules, 5) is None);
    assert(rules_problem(rules, 6) is None);
}

/// The rules of the built-in framework pack, active for the frameworks among
/// `active_frameworks`.
pub fn built_in_rules(active_frameworks: &[String]) -> (r: Result<Vec<AnyRule>, RulepackError>)
    ensures
        r is Ok,
        match r {
            Ok(rules) => {
                &&& pack_problem(builtin_framework_pack()) is None
                &&& rules@.len() == builtin_framework_pack().rules.len()
                &&& forall|i: int|
                    0 <= i < rules@.len() ==> (#[trigger] rules@[i] matches AnyRule::Declarative(d)
                        && instantiated(
                        d,
                        builtin_framework_pack().rules[i],
                        active_frameworks.deep_view(),
                    ))
            },
            Err(e) => pack_problem(builtin_framework_pack()) == Some(e@),
        },
{
    proof {
        lemma_builtin_pack_valid();
    }
    let pack = builtin_framework_rulepack();
    let ghost views = pack.rules.deep_view();
    let r = rules_from_pack(pack, active_frameworks);
    proof {
        assert forall|i: int| 0 <= i < views.len() implies #[trigger] views[i] == pack.rules@[i].deep_view() by {}
    }
    r
}

} // verus!
