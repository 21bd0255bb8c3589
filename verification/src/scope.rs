//! The transfer function of the taint analysis over the instructions of one scope.
use crate::findings::{copy_steps, steps_equal, DataflowStep, LocationView, SourceLocation, StepView};
use crate::ir::{ids, CallKind, Instruction, OutputKind, ValueId};
use crate::taint::{
    active, command_function_list, command_functions, command_sanitizer_list, command_sanitizers,
    extend, first_argument_exec, first_argument_of, html_sanitizer_list, html_sanitizers,
    input_fact, join, merge_facts, normalized_call_name, opt_fact, quoted, sanitize, sink_event,
    sql_sanitizer_argument, sql_sanitizer_argument_exec, sql_sink_argument,
    sql_sink_argument_exec, step, untrusted_superglobal, is_untrusted_superglobal, DomainSet,
    EventView, FactView, SinkEvent, SinkKind, SinkView, TaintDomain, TaintFact, create_sink_event,
};
use crate::text::{join3, lower, lowercase, normalize_call, normalize_call_exec, owned};
use std::collections::HashMap;
use vstd::hash_map::StringHashMap;
use vstd::prelude::*;

verus! {

broadcast use vstd::std_specs::hash::group_hash_axioms;

/// A function whose returned value carries the taint of one of its parameters.
#[derive(Debug, Clone)]
pub struct ReturnDependency {
    pub parameter_index: usize,
    pub sanitized_for: DomainSet,
    pub steps: Vec<DataflowStep>,
}

/// The mathematical value of a [`ReturnDependency`].
pub struct ReturnView {
    pub parameter_index: usize,
    pub sanitized_for: DomainSet,
    pub steps: Seq<StepView>,
}

impl View for ReturnDependency {
    type V = ReturnView;

    open spec fn view(&self) -> ReturnView {
        ReturnView {
            parameter_index: self.parameter_index,
            sanitized_for: self.sanitized_for,
            steps: self.steps.deep_view(),
        }
    }
}

impl DeepView for ReturnDependency {
    type V = ReturnView;

    open spec fn deep_view(&self) -> ReturnView {
        self@
    }
}

/// A function inside which one of its parameters reaches a sink.
#[derive(Debug, Clone)]
pub struct SinkDependency {
    pub parameter_index: usize,
    pub domain: TaintDomain,
    pub sink: SinkKind,
    pub steps: Vec<DataflowStep>,
}

/// The mathematical value of a [`SinkDependency`].
pub struct SinkDepView {
    pub parameter_index: usize,
    pub domain: TaintDomain,
    pub sink: SinkView,
    pub steps: Seq<StepView>,
}

impl View for SinkDependency {
    type V = SinkDepView;

    open spec fn view(&self) -> SinkDepView {
        SinkDepView {
            parameter_index: self.parameter_index,
            domain: self.domain,
            sink: self.sink@,
            steps: self.steps.deep_view(),
        }
    }
}

impl DeepView for SinkDependency {
    type V = SinkDepView;

    open spec fn deep_view(&self) -> SinkDepView {
        self@
    }
}

/// What calling a named function does with tainted data.
#[derive(Debug, Clone)]
pub struct FunctionSummary {
    pub return_dependencies: Vec<ReturnDependency>,
    pub intrinsic_returns: Vec<TaintFact>,
    pub sink_dependencies: Vec<SinkDependency>,
}

/// The mathematical value of a [`FunctionSummary`].
pub struct SummaryView {
    pub return_deps: Seq<ReturnView>,
    pub intrinsic: Seq<FactView>,
    pub sinks: Seq<SinkDepView>,
}

impl View for FunctionSummary {
    type V = SummaryView;

    open spec fn view(&self) -> SummaryView {
        SummaryView {
            return_deps: self.return_dependencies.deep_view(),
            intrinsic: self.intrinsic_returns.deep_view(),
            sinks: self.sink_dependencies.deep_view(),
        }
    }
}

impl ReturnDependency {
    pub fn copy(&self) -> (r: Self)
        ensures
            r@ == self@,
    {
        ReturnDependency {
            parameter_index: self.parameter_index,
            sanitized_for: self.sanitized_for,
            steps: copy_steps(&self.steps),
        }
    }

    pub fn equals(&self, other: &Self) -> (r: bool)
        ensures
            r == (self@ == other@),
    {
        self.parameter_index == other.parameter_index && self.sanitized_for == other.sanitized_for
            && steps_equal(&self.steps, &other.steps)
    }
}

impl SinkDependency {
    pub fn copy(&self) -> (r: Self)
        ensures
            r@ == self@,
    {
        SinkDependency {
            parameter_index: self.parameter_index,
            domain: self.domain,
            sink: self.sink.copy(),
            steps: copy_steps(&self.steps),
        }
    }

    pub fn equals(&self, other: &Self) -> (r: bool)
        ensures
            r == (self@ == other@),
    {
        self.parameter_index == other.parameter_index && self.domain == other.domain
            && self.sink.equals(&other.sink) && steps_equal(&self.steps, &other.steps)
    }
}

fn returns_equal(a: &Vec<ReturnDependency>, b: &Vec<ReturnDependency>) -> (r: bool)
    ensures
        r == (a.deep_view() == b.deep_view()),
{
    if a.len() != b.len() {
        assert(a.deep_view().len() != b.deep_view().len());
        return false;
    }
    let mut i: usize = 0;
    while i < a.len()
        invariant
            a.len() == b.len(),
            i <= a.len(),
            forall|j: int| 0 <= j < i ==> a.deep_view()[j] == b.deep_view()[j],
        decreases a.len() - i,
    {
        if !a[i].equals(&b[i]) {
            assert(a.deep_view()[i as int] != b.deep_view()[i as int]);
            return false;
        }
        i += 1;
    }
    assert(a.deep_view() =~= b.deep_view());
    true
}

fn sinks_equal(a: &Vec<SinkDependency>, b: &Vec<SinkDependency>) -> (r: bool)
    ensures
        r == (a.deep_view() == b.deep_view()),
{
    if a.len() != b.len() {
        assert(a.deep_view().len() != b.deep_view().len());
        return false;
    }
    let mut i: usize = 0;
    while i < a.len()
        invariant
            a.len() == b.len(),
            i <= a.len(),
            forall|j: int| 0 <= j < i ==> a.deep_view()[j] == b.deep_view()[j],
        decreases a.len() - i,
    {
        if !a[i].equals(&b[i]) {
            assert(a.deep_view()[i as int] != b.deep_view()[i as int]);
            return false;
        }
        i += 1;
    }
    assert(a.deep_view() =~= b.deep_view());
    true
}

fn facts_equal(a: &Vec<TaintFact>, b: &Vec<TaintFact>) -> (r: bool)
    ensures
        r == (a.deep_view() == b.deep_view()),
{
    if a.len() != b.len() {
        assert(a.deep_view().len() != b.deep_view().len());
        return false;
    }
    let mut i: usize = 0;
    while i < a.len()
        invariant
            a.len() == b.len(),
            i <= a.len(),
            forall|j: int| 0 <= j < i ==> a.deep_view()[j] == b.deep_view()[j],
        decreases a.len() - i,
    {
        if !a[i].equals(&b[i]) {
            assert(a.deep_view()[i as int] != b.deep_view()[i as int]);
            return false;
        }
        i += 1;
    }
    assert(a.deep_view() =~= b.deep_view());
    true
}

impl FunctionSummary {
    /// Whether two summaries are equal.
    pub fn equals(&self, other: &Self) -> (r: bool)
        ensures
            r == (self@ == other@),
    {
        returns_equal(&self.return_dependencies, &other.return_dependencies) && facts_equal(
            &self.intrinsic_returns,
            &other.intrinsic_returns,
        ) && sinks_equal(&self.sink_dependencies, &other.sink_dependencies)
    }
}

/// The views of the summaries of a module, keyed by lower-cased function name.
pub open spec fn summaries_view(m: Map<Seq<char>, FunctionSummary>) -> Map<Seq<char>, SummaryView> {
    m.map_values(|s: FunctionSummary| s@)
}

/// The views of a map of facts.
pub open spec fn facts_view<K>(m: Map<K, TaintFact>) -> Map<K, FactView> {
    m.map_values(|f: TaintFact| f@)
}

/// A trace without its first step.
pub open spec fn tail_steps(s: Seq<StepView>) -> Seq<StepView> {
    if s.len() == 0 {
        s
    } else {
        s.drop_first()
    }
}

/// The fact of the argument passed at `index`, if any.
pub open spec fn argument_fact(args: Seq<u32>, index: usize, taint: Map<u32, FactView>) -> Option<
    FactView,
> {
    if index < args.len() && taint.contains_key(args[index as int]) {
        Some(taint[args[index as int]])
    } else {
        None
    }
}

/// The location of the sink step that ends an event's trace, if it has a trace.
pub open spec fn sink_statement(e: EventView) -> Option<LocationView> {
    if e.fact.steps.len() > 0 {
        Some(e.fact.steps.last().location)
    } else {
        None
    }
}

/// Two events of the same domain and sink whose traces end at the same statement.
pub open spec fn same_statement(a: EventView, b: EventView) -> bool {
    &&& a.domain == b.domain
    &&& a.sink == b.sink
    &&& sink_statement(a) == sink_statement(b)
}

/// Some event of `events` is of the same domain, sink and statement as `e`.
pub open spec fn reported_in(events: Seq<EventView>, e: EventView) -> bool {
    exists|j: int| 0 <= j < events.len() && same_statement(#[trigger] events[j], e)
}

/// The event of a sink dependency of a summarized function `name`, called with `args`, if the
/// argument it depends on is dangerous in its domain.
pub open spec fn dependency_event(
    d: SinkDepView,
    name: Seq<char>,
    args: Seq<u32>,
    taint: Map<u32, FactView>,
    location: LocationView,
) -> Option<EventView> {
    match argument_fact(args, d.parameter_index, taint) {
        Some(f) => if active(f, d.domain) {
            Some(
                EventView {
                    domain: d.domain,
                    sink: d.sink,
                    fact: FactView {
                        steps: extend(f, quoted("Passed to function `"@, name), location).steps
                            + tail_steps(d.steps),
                        ..f
                    },
                    location,
                },
            )
        } else {
            None
        },
        None => None,
    }
}

/// The events that calling a summarized function `name` with `args` produces: one per sink
/// dependency whose argument is dangerous, except that a sink statement inside the function
/// is reported once per call, however many parameters reach it.
pub open spec fn summary_sink_events(
    deps: Seq<SinkDepView>,
    name: Seq<char>,
    args: Seq<u32>,
    taint: Map<u32, FactView>,
    location: LocationView,
) -> Seq<EventView>
    decreases deps.len(),
{
    if deps.len() == 0 {
        seq![]
    } else {
        let prev = summary_sink_events(deps.drop_last(), name, args, taint, location);
        match dependency_event(deps.last(), name, args, taint, location) {
            Some(e) => if reported_in(prev, e) {
                prev
            } else {
                prev.push(e)
            },
            None => prev,
        }
    }
}

/// The facts that the return dependencies give the returned value of a call.
pub open spec fn return_candidates(
    deps: Seq<ReturnView>,
    name: Seq<char>,
    args: Seq<u32>,
    taint: Map<u32, FactView>,
    location: LocationView,
) -> Seq<FactView>
    decreases deps.len(),
{
    if deps.len() == 0 {
        seq![]
    } else {
        let prev = return_candidates(deps.drop_last(), name, args, taint, location);
        let d = deps.last();
        match argument_fact(args, d.parameter_index, taint) {
            Some(f) => prev.push(
                FactView {
                    source: f.source,
                    steps: (f.steps + tail_steps(d.steps)).push(
                        step(quoted("Returned from function `"@, name), location),
                    ),
                    sanitized_for: join(f.sanitized_for, d.sanitized_for),
                },
            ),
            None => prev,
        }
    }
}

/// The facts a function returns whatever its arguments, after the call.
pub open spec fn intrinsic_candidates(
    facts: Seq<FactView>,
    name: Seq<char>,
    location: LocationView,
) -> Seq<FactView> {
    facts.map_values(|f: FactView| extend(f, quoted("Returned from function `"@, name), location))
}

/// The fact of the value a call to a summarized function return_deps.
pub open spec fn summary_return_fact(
    summary: SummaryView,
    name: Seq<char>,
    args: Seq<u32>,
    taint: Map<u32, FactView>,
    location: LocationView,
) -> Option<FactView> {
    merge_facts(
        return_candidates(summary.return_deps, name, args, taint, location) + intrinsic_candidates(
            summary.intrinsic,
            name,
            location,
        ),
    )
}

/// The facts of the operands that carry one, in order.
pub open spec fn operand_facts(operands: Seq<u32>, taint: Map<u32, FactView>) -> Seq<FactView>
    decreases operands.len(),
{
    if operands.len() == 0 {
        seq![]
    } else {
        let prev = operand_facts(operands.drop_last(), taint);
        if taint.contains_key(operands.last()) {
            prev.push(taint[operands.last()])
        } else {
            prev
        }
    }
}

/// The fact of the first output value that is dangerous in HTML.
pub open spec fn first_html_fact(values: Seq<u32>, taint: Map<u32, FactView>) -> Option<FactView>
    decreases values.len(),
{
    if values.len() == 0 {
        None
    } else if taint.contains_key(values[0]) && active(taint[values[0]], TaintDomain::Html) {
        Some(taint[values[0]])
    } else {
        first_html_fact(values.drop_first(), taint)
    }
}

/// The state of the analysis of one scope.
pub struct ScopeModel {
    pub aliases: Map<u32, u32>,
    pub taint: Map<u32, FactView>,
    pub assignments: Map<Seq<char>, u32>,
    pub events: Seq<EventView>,
}

/// The state before the first instruction of a scope.
pub open spec fn initial_scope() -> ScopeModel {
    ScopeModel {
        aliases: Map::empty(),
        taint: Map::empty(),
        assignments: Map::empty(),
        events: seq![],
    }
}

/// An optional event as a sequence.
pub open spec fn opt_events(e: Option<EventView>) -> Seq<EventView> {
    match e {
        Some(e) => seq![e],
        None => seq![],
    }
}

/// The effect of a direct function call.
pub open spec fn call_step(
    st: ScopeModel,
    output: u32,
    target: Seq<char>,
    args: Seq<u32>,
    location: LocationView,
    summaries: Map<Seq<char>, SummaryView>,
) -> ScopeModel {
    let name = normalize_call(target);
    let command_event = match first_argument_of(target, command_functions(), args) {
        Some(a) => sink_event(
            if st.taint.contains_key(a) {
                Some(st.taint[a])
            } else {
                None
            },
            TaintDomain::Command,
            SinkView::Command(name),
            location,
        ),
        None => None,
    };
    let sql_event = match sql_sink_argument(target, args) {
        Some(a) => sink_event(
            if st.taint.contains_key(a) {
                Some(st.taint[a])
            } else {
                None
            },
            TaintDomain::Sql,
            SinkView::Sql(name),
            location,
        ),
        None => None,
    };
    let events = st.events + opt_events(command_event) + opt_events(sql_event);
    if let Some(a) = first_argument_of(target, command_sanitizers(), args) {
        ScopeModel {
            events,
            taint: if st.taint.contains_key(a) {
                st.taint.insert(
                    output,
                    sanitize(
                        st.taint[a],
                        TaintDomain::Command,
                        quoted("Sanitized for shell command use by `"@, name),
                        location,
                    ),
                )
            } else {
                st.taint
            },
            ..st
        }
    } else if let Some(a) = first_argument_of(target, html_sanitizers(), args) {
        ScopeModel {
            events,
            taint: if st.taint.contains_key(a) {
                st.taint.insert(
                    output,
                    sanitize(
                        st.taint[a],
                        TaintDomain::Html,
                        quoted("Encoded for HTML output by `"@, name),
                        location,
                    ),
                )
            } else {
                st.taint
            },
            ..st
        }
    } else if let Some(a) = sql_sanitizer_argument(target, args) {
        ScopeModel {
            events,
            taint: if st.taint.contains_key(a) {
                st.taint.insert(
                    output,
                    sanitize(
                        st.taint[a],
                        TaintDomain::Sql,
                        quoted("Sanitized for SQL string use by `"@, name),
                        location,
                    ),
                )
            } else {
                st.taint
            },
            ..st
        }
    } else if summaries.contains_key(lower(name)) {
        let summary = summaries[lower(name)];
        ScopeModel {
            events: events + summary_sink_events(summary.sinks, name, args, st.taint, location),
            taint: match summary_return_fact(summary, name, args, st.taint, location) {
                Some(f) => st.taint.insert(output, f),
                None => st.taint,
            },
            ..st
        }
    } else {
        ScopeModel { events, ..st }
    }
}

/// The effect of one instruction on the state of a scope.
pub open spec fn scope_step(
    st: ScopeModel,
    instruction: Instruction,
    summaries: Map<Seq<char>, SummaryView>,
    initial: Map<Seq<char>, FactView>,
) -> ScopeModel {
    match instruction {
        Instruction::VariableRead { output, name, location } => {
            if is_untrusted_superglobal(name@) {
                ScopeModel {
                    taint: st.taint.insert(output.0, input_fact(name@, location@)),
                    ..st
                }
            } else if st.assignments.contains_key(name@) {
                let v = st.assignments[name@];
                ScopeModel {
                    aliases: st.aliases.insert(output.0, v),
                    taint: if st.taint.contains_key(v) {
                        st.taint.insert(
                            output.0,
                            extend(st.taint[v], quoted("Read from `"@, name@), location@),
                        )
                    } else {
                        st.taint
                    },
                    ..st
                }
            } else if initial.contains_key(name@) {
                ScopeModel {
                    taint: st.taint.insert(
                        output.0,
                        extend(initial[name@], quoted("Read from parameter `"@, name@), location@),
                    ),
                    ..st
                }
            } else {
                st
            }
        },
        Instruction::Assignment { target, value, location } => ScopeModel {
            assignments: st.assignments.insert(target@, value.0),
            taint: if st.taint.contains_key(value.0) {
                st.taint.insert(
                    value.0,
                    extend(st.taint[value.0], quoted("Assigned to `"@, target@), location@),
                )
            } else {
                st.taint
            },
            ..st
        },
        Instruction::Concatenate { output, operands, location } => match merge_facts(
            operand_facts(ids(operands@), st.taint),
        ) {
            Some(f) => ScopeModel {
                taint: st.taint.insert(output.0, extend(f, "String concatenation"@, location@)),
                ..st
            },
            None => st,
        },
        Instruction::IndexRead { output, collection, location, .. } => {
            if st.taint.contains_key(collection.0) {
                ScopeModel {
                    taint: st.taint.insert(
                        output.0,
                        extend(st.taint[collection.0], "Indexed value read"@, location@),
                    ),
                    ..st
                }
            } else {
                st
            }
        },
        Instruction::Call { output, target, call_kind, arguments, location } => {
            if call_kind == CallKind::Function {
                call_step(st, output.0, target@, ids(arguments@), location@, summaries)
            } else {
                st
            }
        },
        Instruction::Output { output_kind, values, location, .. } => match sink_event(
            first_html_fact(ids(values@), st.taint),
            TaintDomain::Html,
            SinkView::Html(output_kind),
            location@,
        ) {
            Some(e) => ScopeModel { events: st.events.push(e), ..st },
            None => st,
        },
        _ => st,
    }
}

/// The state after the analysis of a sequence of instructions.
pub open spec fn scope_run(
    instructions: Seq<Instruction>,
    summaries: Map<Seq<char>, SummaryView>,
    initial: Map<Seq<char>, FactView>,
) -> ScopeModel
    decreases instructions.len(),
{
    if instructions.len() == 0 {
        initial_scope()
    } else {
        scope_step(
            scope_run(instructions.drop_last(), summaries, initial),
            instructions.last(),
            summaries,
            initial,
        )
    }
}


/// The maps and events of the analysis of one scope.
pub struct ScopeState {
    pub aliases: HashMap<u32, u32>,
    pub taint: HashMap<u32, TaintFact>,
    pub assignments: StringHashMap<u32>,
    pub events: Vec<SinkEvent>,
}

impl ScopeState {
    /// The mathematical state this value represents.
    pub open spec fn model(&self) -> ScopeModel {
        ScopeModel {
            aliases: self.aliases@,
            taint: facts_view(self.taint@),
            assignments: self.assignments@,
            events: self.events.deep_view(),
        }
    }

    fn new() -> (r: Self)
        ensures
            r.model() == initial_scope(),
    {
        let r = ScopeState {
            aliases: HashMap::new(),
            taint: HashMap::new(),
            assignments: StringHashMap::new(),
            events: Vec::new(),
        };
        assert(r.model().taint =~= Map::<u32, FactView>::empty());
        assert(r.model().events =~= Seq::<EventView>::empty());
        r
    }

    fn fact(&self, value: u32) -> (r: Option<&TaintFact>)
        ensures
            match r {
                Some(f) => self.taint@.contains_key(value) && self.taint@[value] == *f,
                None => !self.taint@.contains_key(value),
            },
    {
        self.taint.get(&value)
    }

    fn set_fact(&mut self, value: u32, fact: TaintFact)
        ensures
            final(self).model() == (ScopeModel {
                taint: old(self).model().taint.insert(value, fact@),
                ..old(self).model()
            }),
    {
        self.taint.insert(value, fact);
        assert(facts_view(self.taint@) =~= facts_view(old(self).taint@).insert(value, fact@));
    }

    fn push_event(&mut self, event: SinkEvent)
        ensures
            final(self).model() == (ScopeModel {
                events: old(self).model().events.push(event@),
                ..old(self).model()
            }),
    {
        self.events.push(event);
        assert(self.events.deep_view() =~= old(self).events.deep_view().push(event@));
    }

    fn append_events(&mut self, events: Vec<SinkEvent>)
        ensures
            final(self).model() == (ScopeModel {
                events: old(self).model().events + events.deep_view(),
                ..old(self).model()
            }),
    {
        let mut events = events;
        let ghost added = events.deep_view();
        self.events.append(&mut events);
        assert(self.events.deep_view() =~= old(self).events.deep_view() + added);
    }
}

/// Appends all but the first step of `extra` to `steps`.
fn append_tail_steps(steps: &mut Vec<DataflowStep>, extra: &Vec<DataflowStep>)
    ensures
        final(steps).deep_view() == old(steps).deep_view() + tail_steps(extra.deep_view()),
{
    let ghost start = steps.deep_view();
    if extra.len() == 0 {
        assert(start + tail_steps(extra.deep_view()) =~= start);
        return;
    }
    let mut k: usize = 1;
    while k < extra.len()
        invariant
            1 <= k <= extra.len(),
            steps.deep_view() == start + extra.deep_view().subrange(1, k as int),
        decreases extra.len() - k,
    {
        let c = extra[k].copy();
        let ghost prev = steps.deep_view();
        steps.push(c);
        assert(steps.deep_view() =~= prev.push(extra.deep_view()[k as int]));
        k += 1;
        assert(steps.deep_view() =~= start + extra.deep_view().subrange(1, k as int));
    }
    assert(extra.deep_view().subrange(1, extra.len() as int) =~= tail_steps(extra.deep_view()));
}

fn same_statement_exec(a: &SinkEvent, b: &SinkEvent) -> (r: bool)
    ensures
        r == same_statement(a@, b@),
{
    if a.domain != b.domain || !a.sink.equals(&b.sink) {
        return false;
    }
    let na = a.fact.steps.len();
    let nb = b.fact.steps.len();
    if na == 0 || nb == 0 {
        return na == nb;
    }
    a.fact.steps[na - 1].location.equals(&b.fact.steps[nb - 1].location)
}

fn already_reported(events: &Vec<SinkEvent>, e: &SinkEvent) -> (r: bool)
    ensures
        r == reported_in(events.deep_view(), e@),
{
    let mut j: usize = 0;
    while j < events.len()
        invariant
            j <= events.len(),
            forall|k: int| 0 <= k < j ==> !same_statement(events@[k]@, e@),
        decreases events.len() - j,
    {
        if same_statement_exec(&events[j], e) {
            assert(events.deep_view()[j as int] == events@[j as int]@);
            return true;
        }
        j += 1;
    }
    assert forall|k: int| 0 <= k < events.deep_view().len() implies !same_statement(
        #[trigger] events.deep_view()[k],
        e@,
    ) by {
        assert(events.deep_view()[k] == events@[k]@);
    }
    false
}

/// Events that calling a summarized function produces.
fn summary_events(
    summary: &FunctionSummary,
    name: &String,
    args: &Vec<ValueId>,
    st: &ScopeState,
    location: &SourceLocation,
) -> (r: Vec<SinkEvent>)
    ensures
        r.deep_view() == summary_sink_events(
            summary@.sinks,
            name@,
            ids(args@),
            st.model().taint,
            location@,
        ),
{
    let deps = &summary.sink_dependencies;
    let mut events: Vec<SinkEvent> = Vec::new();
    let mut i: usize = 0;
    while i < deps.len()
        invariant
            i <= deps.len(),
            events.deep_view() == summary_sink_events(
                deps.deep_view().subrange(0, i as int),
                name@,
                ids(args@),
                st.model().taint,
                location@,
            ),
        decreases deps.len() - i,
    {
        let ghost before = events.deep_view();
        let dep = &deps[i];
        assert(deps.deep_view().subrange(0, i + 1).drop_last() =~= deps.deep_view().subrange(
            0,
            i as int,
        ));
        assert(deps.deep_view().subrange(0, i + 1).last() == dep@);
        if dep.parameter_index < args.len() {
            let a = args[dep.parameter_index].0;
            match st.fact(a) {
                Some(actual) => {
                    if actual.is_active_for(dep.domain) {
                        let label = join3("Passed to function `", name.as_str(), "`");
                        let mut fact = actual.propagated(label, location);
                        append_tail_steps(&mut fact.steps, &dep.steps);
                        let event = SinkEvent {
                            domain: dep.domain,
                            sink: dep.sink.copy(),
                            fact,
                            location: location.copy(),
                        };
                        if !already_reported(&events, &event) {
                            events.push(event);
                            assert(events.deep_view() =~= before.push(event@));
                        }
                    }
                },
                None => {},
            }
        }
        i += 1;
    }
    assert(deps.deep_view().subrange(0, deps.len() as int) =~= deps.deep_view());
    events
}


/// The fact of the value that a call to a summarized function return_deps.
fn summary_return(
    summary: &FunctionSummary,
    name: &String,
    args: &Vec<ValueId>,
    st: &ScopeState,
    location: &SourceLocation,
) -> (r: Option<TaintFact>)
    ensures
        opt_fact(r) == summary_return_fact(
            summary@,
            name@,
            ids(args@),
            st.model().taint,
            location@,
        ),
{
    let deps = &summary.return_dependencies;
    let mut candidates: Vec<TaintFact> = Vec::new();
    let mut i: usize = 0;
    while i < deps.len()
        invariant
            i <= deps.len(),
            candidates.deep_view() == return_candidates(
                deps.deep_view().subrange(0, i as int),
                name@,
                ids(args@),
                st.model().taint,
                location@,
            ),
        decreases deps.len() - i,
    {
        let ghost before = candidates.deep_view();
        let dep = &deps[i];
        assert(deps.deep_view().subrange(0, i + 1).drop_last() =~= deps.deep_view().subrange(
            0,
            i as int,
        ));
        assert(deps.deep_view().subrange(0, i + 1).last() == dep@);
        if dep.parameter_index < args.len() {
            let a = args[dep.parameter_index].0;
            match st.fact(a) {
                Some(actual) => {
                    let mut fact = actual.copy();
                    append_tail_steps(&mut fact.steps, &dep.steps);
                    fact.sanitized_for = fact.sanitized_for.join(&dep.sanitized_for);
                    let label = join3("Returned from function `", name.as_str(), "`");
                    let ghost fs = fact.steps.deep_view();
                    fact.steps.push(DataflowStep { label, location: location.copy() });
                    assert(fact.steps.deep_view() =~= fs.push(
                        step(quoted("Returned from function `"@, name@), location@),
                    ));
                    candidates.push(fact);
                    assert(candidates.deep_view() =~= before.push(fact@));
                },
                None => {},
            }
        }
        i += 1;
    }
    assert(deps.deep_view().subrange(0, deps.len() as int) =~= deps.deep_view());
    let ghost from_deps = candidates.deep_view();
    let intrinsic = &summary.intrinsic_returns;
    let mut j: usize = 0;
    while j < intrinsic.len()
        invariant
            j <= intrinsic.len(),
            candidates.deep_view() == from_deps + intrinsic_candidates(
                intrinsic.deep_view().subrange(0, j as int),
                name@,
                location@,
            ),
        decreases intrinsic.len() - j,
    {
        let ghost before = candidates.deep_view();
        let label = join3("Returned from function `", name.as_str(), "`");
        let fact = intrinsic[j].propagated(label, location);
        candidates.push(fact);
        assert(candidates.deep_view() =~= before.push(fact@));
        assert(intrinsic_candidates(intrinsic.deep_view().subrange(0, j + 1), name@, location@)
            =~= intrinsic_candidates(intrinsic.deep_view().subrange(0, j as int), name@, location@).push(
            fact@,
        ));
        j += 1;
        assert(candidates.deep_view() =~= from_deps + intrinsic_candidates(
            intrinsic.deep_view().subrange(0, j as int),
            name@,
            location@,
        ));
    }
    assert(intrinsic.deep_view().subrange(0, intrinsic.len() as int) =~= intrinsic.deep_view());
    TaintFact::merge(candidates)
}

/// The facts of the operands that carry one, in order.
fn operand_facts_exec(operands: &Vec<ValueId>, st: &ScopeState) -> (r: Vec<TaintFact>)
    ensures
        r.deep_view() == operand_facts(ids(operands@), st.model().taint),
{
    let mut facts: Vec<TaintFact> = Vec::new();
    let mut i: usize = 0;
    while i < operands.len()
        invariant
            i <= operands.len(),
            facts.deep_view() == operand_facts(
                ids(operands@).subrange(0, i as int),
                st.model().taint,
            ),
        decreases operands.len() - i,
    {
        let ghost before = facts.deep_view();
        assert(ids(operands@).subrange(0, i + 1).drop_last() =~= ids(operands@).subrange(
            0,
            i as int,
        ));
        match st.fact(operands[i].0) {
            Some(f) => {
                facts.push(f.copy());
                assert(facts.deep_view() =~= before.push(st.model().taint[operands@[i as int].0]));
            },
            None => {},
        }
        i += 1;
    }
    assert(ids(operands@).subrange(0, operands.len() as int) =~= ids(operands@));
    facts
}

/// The fact of the first output value that is dangerous in HTML.
fn first_html_fact_exec<'a>(values: &Vec<ValueId>, st: &'a ScopeState) -> (r: Option<&'a TaintFact>)
    ensures
        match r {
            Some(f) => first_html_fact(ids(values@), st.model().taint) == Some(f@),
            None => first_html_fact(ids(values@), st.model().taint) is None,
        },
{
    let ghost vs = ids(values@);
    let mut i: usize = 0;
    assert(vs.subrange(0, vs.len() as int) =~= vs);
    while i < values.len()
        invariant
            i <= values.len(),
            vs == ids(values@),
            first_html_fact(vs, st.model().taint) == first_html_fact(
                vs.subrange(i as int, vs.len() as int),
                st.model().taint,
            ),
        decreases values.len() - i,
    {
        let ghost rest = vs.subrange(i as int, vs.len() as int);
        assert(rest.drop_first() =~= vs.subrange(i + 1, vs.len() as int));
        match st.fact(values[i].0) {
            Some(f) => {
                if f.is_active_for(TaintDomain::Html) {
                    return Some(f);
                }
            },
            None => {},
        }
        i += 1;
    }
    None
}


/// Inserts the sanitized copy of the fact of `argument`, if it has one.
fn sanitize_into(
    st: &mut ScopeState,
    output: u32,
    argument: u32,
    domain: TaintDomain,
    label: String,
    location: &SourceLocation,
)
    ensures
        final(st).model() == (ScopeModel {
            taint: if old(st).model().taint.contains_key(argument) {
                old(st).model().taint.insert(
                    output,
                    sanitize(old(st).model().taint[argument], domain, label@, location@),
                )
            } else {
                old(st).model().taint
            },
            ..old(st).model()
        }),
{
    let fact = match st.fact(argument) {
        Some(f) => Some(f.sanitized(domain, label, location)),
        None => None,
    };
    match fact {
        Some(f) => st.set_fact(output, f),
        None => {
            assert(old(st).model() == st.model());
        },
    }
}

/// The effect of a direct function call.
fn apply_call(
    st: &mut ScopeState,
    output: u32,
    target: &String,
    arguments: &Vec<ValueId>,
    location: &SourceLocation,
    summaries: &StringHashMap<FunctionSummary>,
)
    ensures
        final(st).model() == call_step(
            old(st).model(),
            output,
            target@,
            ids(arguments@),
            location@,
            summaries_view(summaries@),
        ),
{
    let ghost start = st.model();
    let name = normalize_call_exec(target.as_str());
    let commands = command_function_list();
    match first_argument_exec(target.as_str(), &commands, arguments) {
        Some(a) => {
            match create_sink_event(
                st.fact(a),
                TaintDomain::Command,
                SinkKind::Command(name.clone()),
                location,
            ) {
                Some(e) => st.push_event(e),
                None => {},
            }
        },
        None => {},
    }
    let ghost after_command = st.model();
    assert(after_command.events =~= start.events + opt_events(
        match first_argument_of(target@, command_functions(), ids(arguments@)) {
            Some(a) => sink_event(
                if start.taint.contains_key(a) {
                    Some(start.taint[a])
                } else {
                    None
                },
                TaintDomain::Command,
                SinkView::Command(normalize_call(target@)),
                location@,
            ),
            None => None,
        },
    ));
    match sql_sink_argument_exec(target.as_str(), arguments) {
        Some(a) => {
            match create_sink_event(
                st.fact(a),
                TaintDomain::Sql,
                SinkKind::Sql(name.clone()),
                location,
            ) {
                Some(e) => st.push_event(e),
                None => {},
            }
        },
        None => {},
    }
    let ghost after_sql = st.model();
    assert(after_sql.events =~= after_command.events + opt_events(
        match sql_sink_argument(target@, ids(arguments@)) {
            Some(a) => sink_event(
                if start.taint.contains_key(a) {
                    Some(start.taint[a])
                } else {
                    None
                },
                TaintDomain::Sql,
                SinkView::Sql(normalize_call(target@)),
                location@,
            ),
            None => None,
        },
    ));
    let shell = command_sanitizer_list();
    let html = html_sanitizer_list();
    if let Some(a) = first_argument_exec(target.as_str(), &shell, arguments) {
        let label = join3("Sanitized for shell command use by `", name.as_str(), "`");
        sanitize_into(st, output, a, TaintDomain::Command, label, location);
    } else if let Some(a) = first_argument_exec(target.as_str(), &html, arguments) {
        let label = join3("Encoded for HTML output by `", name.as_str(), "`");
        sanitize_into(st, output, a, TaintDomain::Html, label, location);
    } else if let Some(a) = sql_sanitizer_argument_exec(target.as_str(), arguments) {
        let label = join3("Sanitized for SQL string use by `", name.as_str(), "`");
        sanitize_into(st, output, a, TaintDomain::Sql, label, location);
    } else {
        let key = lowercase(name.as_str());
        match summaries.get(key.as_str()) {
            Some(summary) => {
                let events = summary_events(summary, &name, arguments, st, location);
                let returned = summary_return(summary, &name, arguments, st, location);
                st.append_events(events);
                match returned {
                    Some(f) => st.set_fact(output, f),
                    None => {},
                }
            },
            None => {},
        }
    }
}


/// The effect of one instruction on the state of a scope.
fn apply_instruction(
    st: &mut ScopeState,
    instruction: &Instruction,
    summaries: &StringHashMap<FunctionSummary>,
    initial: &StringHashMap<TaintFact>,
)
    ensures
        final(st).model() == scope_step(
            old(st).model(),
            *instruction,
            summaries_view(summaries@),
            facts_view(initial@),
        ),
{
    match instruction {
        Instruction::VariableRead { output, name, location } => {
            if untrusted_superglobal(name.as_str()) {
                st.set_fact(output.0, TaintFact::input(name, location));
            } else {
                let assigned = match st.assignments.get(name.as_str()) {
                    Some(v) => Some(*v),
                    None => None,
                };
                match assigned {
                    Some(v) => {
                        st.aliases.insert(output.0, v);
                        let fact = match st.fact(v) {
                            Some(f) => Some(
                                f.propagated(join3("Read from `", name.as_str(), "`"), location),
                            ),
                            None => None,
                        };
                        match fact {
                            Some(f) => st.set_fact(output.0, f),
                            None => {},
                        }
                    },
                    None => {
                        match initial.get(name.as_str()) {
                            Some(f) => {
                                let g = f.propagated(
                                    join3("Read from parameter `", name.as_str(), "`"),
                                    location,
                                );
                                st.set_fact(output.0, g);
                            },
                            None => {},
                        }
                    },
                }
            }
        },
        Instruction::Assignment { target, value, location } => {
            st.assignments.insert(target.clone(), value.0);
            let fact = match st.fact(value.0) {
                Some(f) => Some(
                    f.propagated(join3("Assigned to `", target.as_str(), "`"), location),
                ),
                None => None,
            };
            match fact {
                Some(f) => st.set_fact(value.0, f),
                None => {},
            }
        },
        Instruction::Concatenate { output, operands, location } => {
            let facts = operand_facts_exec(operands, st);
            match TaintFact::merge(facts) {
                Some(f) => {
                    let g = f.propagated(owned("String concatenation"), location);
                    st.set_fact(output.0, g);
                },
                None => {},
            }
        },
        Instruction::IndexRead { output, collection, location, .. } => {
            let fact = match st.fact(collection.0) {
                Some(f) => Some(f.propagated(owned("Indexed value read"), location)),
                None => None,
            };
            match fact {
                Some(f) => st.set_fact(output.0, f),
                None => {},
            }
        },
        Instruction::Call { output, target, call_kind, arguments, location } => {
            if *call_kind == CallKind::Function {
                apply_call(st, output.0, target, arguments, location, summaries);
            }
        },
        Instruction::Output { output_kind, values, location, .. } => {
            let event = create_sink_event(
                first_html_fact_exec(values, st),
                TaintDomain::Html,
                SinkKind::Html(*output_kind),
                location,
            );
            match event {
                Some(e) => st.push_event(e),
                None => {},
            }
        },
        _ => {},
    }
}

/// Analyzes the instructions of one scope in order.
pub fn analyze_scope(
    instructions: &Vec<&Instruction>,
    summaries: &StringHashMap<FunctionSummary>,
    initial: &StringHashMap<TaintFact>,
) -> (r: ScopeState)
    ensures
        r.model() == scope_run(
            deref_all(instructions@),
            summaries_view(summaries@),
            facts_view(initial@),
        ),
{
    let mut st = ScopeState::new();
    let ghost all = deref_all(instructions@);
    let mut i: usize = 0;
    while i < instructions.len()
        invariant
            i <= instructions.len(),
            all == deref_all(instructions@),
            st.model() == scope_run(
                all.subrange(0, i as int),
                summaries_view(summaries@),
                facts_view(initial@),
            ),
        decreases instructions.len() - i,
    {
        assert(all.subrange(0, i + 1).drop_last() =~= all.subrange(0, i as int));
        apply_instruction(&mut st, instructions[i], summaries, initial);
        i += 1;
    }
    assert(all.subrange(0, instructions.len() as int) =~= all);
    st
}

/// The instructions behind a list of references.
pub open spec fn deref_all(s: Seq<&Instruction>) -> Seq<Instruction> {
    s.map_values(|i: &Instruction| *i)
}

} // verus!
