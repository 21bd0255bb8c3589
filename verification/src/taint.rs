//! Taint facts, sink events and function summaries of the source-to-sink analysis.
use crate::findings::{
    copy_steps, steps_equal, DataflowStep, LocationView, SourceLocation, StepView,
};
use crate::ir::{ids, OutputKind, ValueId};
use crate::text::{
    decimal, decimal_exec, eq_ignore_case, equal_ignore_case, join2, join3, lower, lowercase,
    normalize_call, normalize_call_exec, owned, same,
};
use vstd::prelude::*;

verus! {

/// A security domain in which untrusted data is dangerous.
#[derive(Debug, Clone, Copy, PartialEq, Eq, Structural, Hash)]
pub enum TaintDomain {
    Command,
    Html,
    Sql,
}

/// The domains for which a value has been sanitized.
#[derive(Debug, Clone, Copy, PartialEq, Eq, Structural, Hash)]
pub struct DomainSet {
    pub command: bool,
    pub html: bool,
    pub sql: bool,
}

/// The empty set of domains.
pub open spec fn no_domains() -> DomainSet {
    DomainSet { command: false, html: false, sql: false }
}

/// Whether `d` belongs to `s`.
pub open spec fn has_domain(s: DomainSet, d: TaintDomain) -> bool {
    match d {
        TaintDomain::Command => s.command,
        TaintDomain::Html => s.html,
        TaintDomain::Sql => s.sql,
    }
}

/// `s` with `d` added.
pub open spec fn add_domain(s: DomainSet, d: TaintDomain) -> DomainSet {
    match d {
        TaintDomain::Command => DomainSet { command: true, ..s },
        TaintDomain::Html => DomainSet { html: true, ..s },
        TaintDomain::Sql => DomainSet { sql: true, ..s },
    }
}

/// The domains in both sets.
pub open spec fn meet(a: DomainSet, b: DomainSet) -> DomainSet {
    DomainSet { command: a.command && b.command, html: a.html && b.html, sql: a.sql && b.sql }
}

/// The domains in either set.
pub open spec fn join(a: DomainSet, b: DomainSet) -> DomainSet {
    DomainSet { command: a.command || b.command, html: a.html || b.html, sql: a.sql || b.sql }
}

impl DomainSet {
    pub(crate) fn empty() -> (r: Self)
        ensures
            r == no_domains(),
    {
        DomainSet { command: false, html: false, sql: false }
    }

    pub(crate) fn contains(&self, d: TaintDomain) -> (r: bool)
        ensures
            r == has_domain(*self, d),
    {
        match d {
            TaintDomain::Command => self.command,
            TaintDomain::Html => self.html,
            TaintDomain::Sql => self.sql,
        }
    }

    pub(crate) fn with(&self, d: TaintDomain) -> (r: Self)
        ensures
            r == add_domain(*self, d),
    {
        match d {
            TaintDomain::Command => DomainSet { command: true, ..*self },
            TaintDomain::Html => DomainSet { html: true, ..*self },
            TaintDomain::Sql => DomainSet { sql: true, ..*self },
        }
    }

    pub(crate) fn meet(&self, other: &Self) -> (r: Self)
        ensures
            r == meet(*self, *other),
    {
        DomainSet {
            command: self.command && other.command,
            html: self.html && other.html,
            sql: self.sql && other.sql,
        }
    }

    pub(crate) fn join(&self, other: &Self) -> (r: Self)
        ensures
            r == join(*self, *other),
    {
        DomainSet {
            command: self.command || other.command,
            html: self.html || other.html,
            sql: self.sql || other.sql,
        }
    }
}

/// Untrusted data that reached a value, with its redacted trace.
#[derive(Debug, Clone)]
pub struct TaintFact {
    pub source: String,
    pub steps: Vec<DataflowStep>,
    pub sanitized_for: DomainSet,
}

/// The mathematical value of a [`TaintFact`].
pub struct FactView {
    pub source: Seq<char>,
    pub steps: Seq<StepView>,
    pub sanitized_for: DomainSet,
}

impl View for TaintFact {
    type V = FactView;

    open spec fn view(&self) -> FactView {
        FactView {
            source: self.source@,
            steps: self.steps.deep_view(),
            sanitized_for: self.sanitized_for,
        }
    }
}

impl DeepView for TaintFact {
    type V = FactView;

    open spec fn deep_view(&self) -> FactView {
        self@
    }
}

/// A trace step.
pub open spec fn step(label: Seq<char>, location: LocationView) -> StepView {
    StepView { label, location }
}

/// A fact with one more trace step.
pub open spec fn extend(fact: FactView, label: Seq<char>, location: LocationView) -> FactView {
    FactView { steps: fact.steps.push(step(label, location)), ..fact }
}

/// A fact with one more trace step, now sanitized for `domain`.
pub open spec fn sanitize(
    fact: FactView,
    domain: TaintDomain,
    label: Seq<char>,
    location: LocationView,
) -> FactView {
    let f = extend(fact, label, location);
    FactView { sanitized_for: add_domain(f.sanitized_for, domain), ..f }
}

/// Whether a fact is still dangerous in `domain`.
pub open spec fn active(fact: FactView, domain: TaintDomain) -> bool {
    !has_domain(fact.sanitized_for, domain)
}

/// `label` wrapped as `` prefix`label` ``.
pub open spec fn quoted(prefix: Seq<char>, name: Seq<char>) -> Seq<char> {
    prefix + name + "`"@
}

/// The fact that untrusted input `source` creates.
pub open spec fn input_fact(source: Seq<char>, location: LocationView) -> FactView {
    FactView {
        source,
        steps: seq![step(quoted("Untrusted input from `"@, source), location)],
        sanitized_for: no_domains(),
    }
}

/// The source name used for the `index`th parameter while summarizing a function.
pub open spec fn parameter_source(index: nat) -> Seq<char> {
    "__fermio_parameter_"@ + decimal(index)
}

/// The fact that a function parameter carries while summarizing a function.
pub open spec fn parameter_fact(index: nat, name: Seq<char>, location: LocationView) -> FactView {
    FactView {
        source: parameter_source(index),
        steps: seq![step(quoted("Function parameter `"@, name), location)],
        sanitized_for: no_domains(),
    }
}

/// The domains for which every fact is sanitized.
pub open spec fn common_domains(facts: Seq<FactView>) -> DomainSet
    decreases facts.len(),
{
    if facts.len() == 0 {
        DomainSet { command: true, html: true, sql: true }
    } else {
        meet(common_domains(facts.drop_last()), facts.last().sanitized_for)
    }
}

/// The first fact, sanitized only where all facts are.
pub open spec fn merge_facts(facts: Seq<FactView>) -> Option<FactView> {
    if facts.len() == 0 {
        None
    } else {
        Some(FactView { sanitized_for: common_domains(facts), ..facts[0] })
    }
}

/// The view of an optional fact.
pub open spec fn opt_fact(f: Option<TaintFact>) -> Option<FactView> {
    match f {
        Some(f) => Some(f@),
        None => None,
    }
}

impl TaintFact {
    /// An equal copy of this fact.
    pub fn copy(&self) -> (r: Self)
        ensures
            r@ == self@,
    {
        TaintFact {
            source: self.source.clone(),
            steps: copy_steps(&self.steps),
            sanitized_for: self.sanitized_for,
        }
    }

    /// Whether two facts are equal.
    pub fn equals(&self, other: &Self) -> (r: bool)
        ensures
            r == (self@ == other@),
    {
        self.source == other.source && steps_equal(&self.steps, &other.steps)
            && self.sanitized_for == other.sanitized_for
    }

    pub(crate) fn input(source: &String, location: &SourceLocation) -> (r: Self)
        ensures
            r@ == input_fact(source@, location@),
    {
        let label = join3("Untrusted input from `", source.as_str(), "`");
        let mut steps: Vec<DataflowStep> = Vec::new();
        steps.push(DataflowStep { label, location: location.copy() });
        let r = TaintFact { source: source.clone(), steps, sanitized_for: DomainSet::empty() };
        assert(r@.steps =~= input_fact(source@, location@).steps);
        r
    }

    pub(crate) fn parameter(index: usize, name: &String, location: &SourceLocation) -> (r: Self)
        ensures
            r@ == parameter_fact(index as nat, name@, location@),
    {
        let digits = decimal_exec(index);
        let source = join2("__fermio_parameter_", digits.as_str());
        let label = join3("Function parameter `", name.as_str(), "`");
        let mut steps: Vec<DataflowStep> = Vec::new();
        steps.push(DataflowStep { label, location: location.copy() });
        let r = TaintFact { source, steps, sanitized_for: DomainSet::empty() };
        assert(r@.steps =~= parameter_fact(index as nat, name@, location@).steps);
        r
    }

    /// This fact with one more trace step.
    pub(crate) fn propagated(&self, label: String, location: &SourceLocation) -> (r: Self)
        ensures
            r@ == extend(self@, label@, location@),
    {
        let mut r = self.copy();
        r.steps.push(DataflowStep { label, location: location.copy() });
        assert(r@.steps =~= extend(self@, label@, location@).steps);
        r
    }

    pub(crate) fn sanitized(&self, domain: TaintDomain, label: String, location: &SourceLocation) -> (r: Self)
        ensures
            r@ == sanitize(self@, domain, label@, location@),
    {
        let mut r = self.propagated(label, location);
        r.sanitized_for = r.sanitized_for.with(domain);
        r
    }

    pub(crate) fn is_active_for(&self, domain: TaintDomain) -> (r: bool)
        ensures
            r == active(self@, domain),
    {
        !self.sanitized_for.contains(domain)
    }

    /// The first fact, sanitized only for the domains every fact is sanitized for.
    pub(crate) fn merge(facts: Vec<Self>) -> (r: Option<Self>)
        ensures
            opt_fact(r) == merge_facts(facts.deep_view()),
    {
        if facts.len() == 0 {
            return None;
        }
        let ghost fv = facts.deep_view();
        let mut common = DomainSet { command: true, html: true, sql: true };
        let mut i: usize = 0;
        while i < facts.len()
            invariant
                i <= facts.len(),
                fv == facts.deep_view(),
                common == common_domains(fv.subrange(0, i as int)),
            decreases facts.len() - i,
        {
            assert(fv.subrange(0, i + 1).drop_last() =~= fv.subrange(0, i as int));
            common = common.meet(&facts[i].sanitized_for);
            i += 1;
        }
        assert(fv.subrange(0, facts.len() as int) =~= fv);
        let mut merged = facts[0].copy();
        merged.sanitized_for = common;
        Some(merged)
    }
}

/// A place where dangerous data is consumed.
#[derive(Debug, Clone)]
pub enum SinkKind {
    Command(String),
    Html(OutputKind),
    Sql(String),
}

/// The mathematical value of a [`SinkKind`].
pub enum SinkView {
    Command(Seq<char>),
    Html(OutputKind),
    Sql(Seq<char>),
}

impl View for SinkKind {
    type V = SinkView;

    open spec fn view(&self) -> SinkView {
        match self {
            SinkKind::Command(f) => SinkView::Command(f@),
            SinkKind::Html(k) => SinkView::Html(*k),
            SinkKind::Sql(f) => SinkView::Sql(f@),
        }
    }
}

/// The keyword of an output construct.
pub open spec fn output_kind_text(kind: OutputKind) -> Seq<char> {
    match kind {
        OutputKind::Echo => "echo"@,
        OutputKind::Print => "print"@,
    }
}

/// The keyword of an output construct.
pub fn output_kind_name(kind: OutputKind) -> (r: &'static str)
    ensures
        r@ == output_kind_text(kind),
{
    match kind {
        OutputKind::Echo => "echo",
        OutputKind::Print => "print",
    }
}

/// The trace label of a sink.
pub open spec fn sink_label(sink: SinkView) -> Seq<char> {
    match sink {
        SinkView::Command(f) => quoted("Command execution sink `"@, f),
        SinkView::Html(k) => quoted("HTML output sink `"@, output_kind_text(k)),
        SinkView::Sql(f) => quoted("SQL query sink `"@, f),
    }
}

/// The semantic name of a sink, used in descriptions and fingerprints.
pub open spec fn sink_name(sink: SinkView) -> Seq<char> {
    match sink {
        SinkView::Command(f) => f,
        SinkView::Html(k) => output_kind_text(k),
        SinkView::Sql(f) => f,
    }
}

impl SinkKind {
    /// An equal copy of this sink.
    pub fn copy(&self) -> (r: Self)
        ensures
            r@ == self@,
    {
        match self {
            SinkKind::Command(f) => SinkKind::Command(f.clone()),
            SinkKind::Html(k) => SinkKind::Html(*k),
            SinkKind::Sql(f) => SinkKind::Sql(f.clone()),
        }
    }

    /// Whether two sinks are equal.
    pub fn equals(&self, other: &Self) -> (r: bool)
        ensures
            r == (self@ == other@),
    {
        match (self, other) {
            (SinkKind::Command(a), SinkKind::Command(b)) => *a == *b,
            (SinkKind::Html(a), SinkKind::Html(b)) => *a == *b,
            (SinkKind::Sql(a), SinkKind::Sql(b)) => *a == *b,
            _ => false,
        }
    }

    /// The trace label of this sink.
    pub fn trace_label(&self) -> (r: String)
        ensures
            r@ == sink_label(self@),
    {
        match self {
            SinkKind::Command(f) => join3("Command execution sink `", f.as_str(), "`"),
            SinkKind::Html(k) => join3("HTML output sink `", output_kind_name(*k), "`"),
            SinkKind::Sql(f) => join3("SQL query sink `", f.as_str(), "`"),
        }
    }

    /// The semantic name of this sink.
    pub fn semantic_name(&self) -> (r: String)
        ensures
            r@ == sink_name(self@),
    {
        match self {
            SinkKind::Command(f) => f.clone(),
            SinkKind::Html(k) => owned(output_kind_name(*k)),
            SinkKind::Sql(f) => f.clone(),
        }
    }
}

/// Dangerous data reaching a sink.
#[derive(Debug, Clone)]
pub struct SinkEvent {
    pub domain: TaintDomain,
    pub sink: SinkKind,
    pub fact: TaintFact,
    pub location: SourceLocation,
}

/// The mathematical value of a [`SinkEvent`].
pub struct EventView {
    pub domain: TaintDomain,
    pub sink: SinkView,
    pub fact: FactView,
    pub location: LocationView,
}

impl View for SinkEvent {
    type V = EventView;

    open spec fn view(&self) -> EventView {
        EventView {
            domain: self.domain,
            sink: self.sink@,
            fact: self.fact@,
            location: self.location@,
        }
    }
}

impl DeepView for SinkEvent {
    type V = EventView;

    open spec fn deep_view(&self) -> EventView {
        self@
    }
}

impl SinkEvent {
    /// An equal copy of this event.
    pub fn copy(&self) -> (r: Self)
        ensures
            r@ == self@,
    {
        SinkEvent {
            domain: self.domain,
            sink: self.sink.copy(),
            fact: self.fact.copy(),
            location: self.location.copy(),
        }
    }
}

/// The event of `fact` reaching `sink`, if the fact exists and is active for `domain`.
pub open spec fn sink_event(
    fact: Option<FactView>,
    domain: TaintDomain,
    sink: SinkView,
    location: LocationView,
) -> Option<EventView> {
    match fact {
        Some(f) => if active(f, domain) {
            Some(
                EventView {
                    domain,
                    sink,
                    fact: extend(f, sink_label(sink), location),
                    location,
                },
            )
        } else {
            None
        },
        None => None,
    }
}

/// The event of `fact` reaching `sink`, if the fact exists and is active for `domain`.
pub(crate) fn create_sink_event(
    fact: Option<&TaintFact>,
    domain: TaintDomain,
    sink: SinkKind,
    location: &SourceLocation,
) -> (r: Option<SinkEvent>)
    ensures
        match r {
            Some(e) => sink_event(
                match fact {
                    Some(f) => Some(f@),
                    None => None,
                },
                domain,
                sink@,
                location@,
            ) == Some(e@),
            None => sink_event(
                match fact {
                    Some(f) => Some(f@),
                    None => None,
                },
                domain,
                sink@,
                location@,
            ) is None,
        },
{
    let fact = match fact {
        Some(f) => f,
        None => return None,
    };
    if !fact.is_active_for(domain) {
        return None;
    }
    let label = sink.trace_label();
    let fact = fact.propagated(label, location);
    Some(SinkEvent { domain, sink, fact, location: location.copy() })
}


/// Functions that run operating-system commands.
pub open spec fn command_functions() -> Seq<Seq<char>> {
    seq!["exec"@, "passthru"@, "popen"@, "proc_open"@, "shell_exec"@, "system"@]
}

/// Functions that escape a value for shell use.
pub open spec fn command_sanitizers() -> Seq<Seq<char>> {
    seq!["escapeshellarg"@, "escapeshellcmd"@]
}

/// Functions that encode a value for HTML output.
pub open spec fn html_sanitizers() -> Seq<Seq<char>> {
    seq!["htmlentities"@, "htmlspecialchars"@]
}

/// The views of a list of names.
pub open spec fn name_views(names: Seq<&str>) -> Seq<Seq<char>> {
    names.map_values(|n: &str| n@)
}

pub(crate) fn command_function_list() -> (r: Vec<&'static str>)
    ensures
        name_views(r@) == command_functions(),
{
    let r = vec!["exec", "passthru", "popen", "proc_open", "shell_exec", "system"];
    assert(name_views(r@) =~= command_functions());
    r
}

pub(crate) fn command_sanitizer_list() -> (r: Vec<&'static str>)
    ensures
        name_views(r@) == command_sanitizers(),
{
    let r = vec!["escapeshellarg", "escapeshellcmd"];
    assert(name_views(r@) =~= command_sanitizers());
    r
}

pub(crate) fn html_sanitizer_list() -> (r: Vec<&'static str>)
    ensures
        name_views(r@) == html_sanitizers(),
{
    let r = vec!["htmlentities", "htmlspecialchars"];
    assert(name_views(r@) =~= html_sanitizers());
    r
}

/// The first of `names` equal to `name` up to ASCII case.
pub open spec fn first_match(name: Seq<char>, names: Seq<Seq<char>>) -> Option<Seq<char>>
    decreases names.len(),
{
    if names.len() == 0 {
        None
    } else if eq_ignore_case(name, names[0]) {
        Some(names[0])
    } else {
        first_match(name, names.drop_first())
    }
}

/// The first of `names` that the normalized call target equals up to ASCII case.
pub fn first_matching_name(target: &str, names: &Vec<&'static str>) -> (r: Option<&'static str>)
    ensures
        match r {
            Some(n) => first_match(normalize_call(target@), name_views(names@)) == Some(n@),
            None => first_match(normalize_call(target@), name_views(names@)) is None,
        },
{
    let normalized = normalize_call_exec(target);
    let ghost all = name_views(names@);
    let mut i: usize = 0;
    assert(all.subrange(0, all.len() as int) =~= all);
    while i < names.len()
        invariant
            i <= names.len(),
            all == name_views(names@),
            normalized@ == normalize_call(target@),
            first_match(normalized@, all) == first_match(
                normalized@,
                all.subrange(i as int, all.len() as int),
            ),
        decreases names.len() - i,
    {
        let ghost rest = all.subrange(i as int, all.len() as int);
        assert(rest.drop_first() =~= all.subrange(i + 1, all.len() as int));
        if equal_ignore_case(normalized.as_str(), names[i]) {
            return Some(names[i]);
        }
        i += 1;
    }
    None
}

/// The first argument of a call to one of `names`.
pub open spec fn first_argument_of(
    target: Seq<char>,
    names: Seq<Seq<char>>,
    args: Seq<u32>,
) -> Option<u32> {
    if first_match(normalize_call(target), names) is Some && args.len() > 0 {
        Some(args[0])
    } else {
        None
    }
}

pub(crate) fn first_argument_exec(target: &str, names: &Vec<&'static str>, args: &Vec<ValueId>) -> (r: Option<
    u32,
>)
    ensures
        r == first_argument_of(target@, name_views(names@), ids(args@)),
{
    match first_matching_name(target, names) {
        Some(_) => if args.len() > 0 {
            Some(args[0].0)
        } else {
            None
        },
        None => None,
    }
}

/// The argument at `index`, if any.
pub open spec fn argument_at(args: Seq<u32>, index: int) -> Option<u32> {
    if 0 <= index < args.len() {
        Some(args[index])
    } else {
        None
    }
}

/// The last argument, if any.
pub open spec fn last_argument(args: Seq<u32>) -> Option<u32> {
    if args.len() > 0 {
        Some(args.last())
    } else {
        None
    }
}

/// The SQL-text argument of a procedural SQL query function.
pub open spec fn sql_sink_argument(target: Seq<char>, args: Seq<u32>) -> Option<u32> {
    let n = lower(normalize_call(target));
    if n == "mysql_query"@ {
        argument_at(args, 0)
    } else if n == "mysqli_execute_query"@ || n == "mysqli_multi_query"@ || n == "mysqli_query"@
        || n == "mysqli_real_query"@ || n == "odbc_exec"@ || n == "sqlsrv_prepare"@ || n
        == "sqlsrv_query"@ {
        argument_at(args, 1)
    } else if n == "pg_prepare"@ || n == "pg_query"@ || n == "pg_send_query"@ {
        last_argument(args)
    } else if n == "pg_query_params"@ || n == "pg_send_query_params"@ {
        if args.len() >= 3 {
            argument_at(args, 1)
        } else {
            argument_at(args, 0)
        }
    } else {
        None
    }
}

/// The escaped argument of a procedural SQL escaping function.
pub open spec fn sql_sanitizer_argument(target: Seq<char>, args: Seq<u32>) -> Option<u32> {
    let n = lower(normalize_call(target));
    if n == "mysql_real_escape_string"@ {
        argument_at(args, 0)
    } else if n == "mysqli_escape_string"@ || n == "mysqli_real_escape_string"@ {
        argument_at(args, 1)
    } else if n == "pg_escape_identifier"@ || n == "pg_escape_literal"@ || n
        == "pg_escape_string"@ {
        last_argument(args)
    } else {
        None
    }
}

fn argument_at_exec(args: &Vec<ValueId>, index: usize) -> (r: Option<u32>)
    ensures
        r == argument_at(ids(args@), index as int),
{
    if index < args.len() {
        Some(args[index].0)
    } else {
        None
    }
}

fn last_argument_exec(args: &Vec<ValueId>) -> (r: Option<u32>)
    ensures
        r == last_argument(ids(args@)),
{
    if args.len() > 0 {
        Some(args[args.len() - 1].0)
    } else {
        None
    }
}

/// The lower-cased normalized name of a call target.
pub fn normalized_call_name(target: &str) -> (r: String)
    ensures
        r@ == lower(normalize_call(target@)),
{
    let n = normalize_call_exec(target);
    lowercase(n.as_str())
}

pub(crate) fn sql_sink_argument_exec(target: &str, args: &Vec<ValueId>) -> (r: Option<u32>)
    ensures
        r == sql_sink_argument(target@, ids(args@)),
{
    let n = normalized_call_name(target);
    let n = n.as_str();
    if same(n, "mysql_query") {
        argument_at_exec(args, 0)
    } else if same(n, "mysqli_execute_query") || same(n, "mysqli_multi_query") || same(
        n,
        "mysqli_query",
    ) || same(n, "mysqli_real_query") || same(n, "odbc_exec") || same(n, "sqlsrv_prepare")
        || same(n, "sqlsrv_query") {
        argument_at_exec(args, 1)
    } else if same(n, "pg_prepare") || same(n, "pg_query") || same(n, "pg_send_query") {
        last_argument_exec(args)
    } else if same(n, "pg_query_params") || same(n, "pg_send_query_params") {
        if args.len() >= 3 {
            argument_at_exec(args, 1)
        } else {
            argument_at_exec(args, 0)
        }
    } else {
        None
    }
}

pub(crate) fn sql_sanitizer_argument_exec(target: &str, args: &Vec<ValueId>) -> (r: Option<u32>)
    ensures
        r == sql_sanitizer_argument(target@, ids(args@)),
{
    let n = normalized_call_name(target);
    let n = n.as_str();
    if same(n, "mysql_real_escape_string") {
        argument_at_exec(args, 0)
    } else if same(n, "mysqli_escape_string") || same(n, "mysqli_real_escape_string") {
        argument_at_exec(args, 1)
    } else if same(n, "pg_escape_identifier") || same(n, "pg_escape_literal") || same(
        n,
        "pg_escape_string",
    ) {
        last_argument_exec(args)
    } else {
        None
    }
}

/// Superglobals whose content the request sender controls.
pub open spec fn is_untrusted_superglobal(name: Seq<char>) -> bool {
    ||| name == "$_COOKIE"@
    ||| name == "$_FILES"@
    ||| name == "$_GET"@
    ||| name == "$_POST"@
    ||| name == "$_REQUEST"@
    ||| name == "$_SERVER"@
}

/// Whether a variable is a superglobal whose content the request sender controls.
pub fn untrusted_superglobal(name: &str) -> (r: bool)
    ensures
        r == is_untrusted_superglobal(name@),
{
    same(name, "$_COOKIE") || same(name, "$_FILES") || same(name, "$_GET") || same(name, "$_POST")
        || same(name, "$_REQUEST") || same(name, "$_SERVER")
}

} // verus!
