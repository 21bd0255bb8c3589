//! Function scopes, same-file function summaries and the per-module taint analysis.
use crate::findings::{copy_steps, LocationView, SourceLocation};
use crate::ir::{defined_value, instruction_output, Instruction, LiteralValue, ModuleIr};
use crate::scope::{
    analyze_scope, deref_all, facts_view, scope_run, summaries_view, FunctionSummary,
    ReturnDependency, ReturnView, ScopeModel, ScopeState, SinkDepView, SinkDependency,
    SummaryView,
};
use crate::taint::{
    common_domains, parameter_fact, parameter_source, DomainSet, EventView, FactView, TaintFact,
};
use crate::text::{chars_of, has_prefix, lower, normalize_call, starts_with, string_from, trim, trim_exec};
use std::collections::HashMap;
use vstd::hash_map::StringHashMap;
use vstd::prelude::*;

verus! {

broadcast use vstd::std_specs::hash::group_hash_axioms;

/// The body of a named function, separated from the rest of its module.
pub struct FunctionRegion<'a> {
    pub name: String,
    pub parameters: Vec<String>,
    pub instructions: Vec<&'a Instruction>,
    pub location: SourceLocation,
}

/// The mathematical value of a [`FunctionRegion`].
pub struct RegionView {
    pub name: Seq<char>,
    pub parameters: Seq<Seq<char>>,
    pub instructions: Seq<Instruction>,
    pub location: LocationView,
}

impl<'a> View for FunctionRegion<'a> {
    type V = RegionView;

    open spec fn view(&self) -> RegionView {
        RegionView {
            name: self.name@,
            parameters: self.parameters.deep_view(),
            instructions: deref_all(self.instructions@),
            location: self.location@,
        }
    }
}

impl<'a> DeepView for FunctionRegion<'a> {
    type V = RegionView;

    open spec fn deep_view(&self) -> RegionView {
        self@
    }
}

/// The top-level instructions, the finished functions and the open functions.
pub struct SplitModel {
    pub top: Seq<Instruction>,
    pub functions: Seq<RegionView>,
    pub stack: Seq<RegionView>,
}

/// The effect of one instruction on the separation of scopes.
pub open spec fn split_step(m: SplitModel, instruction: Instruction) -> SplitModel {
    match instruction {
        Instruction::FunctionStart { name, parameters, location } => SplitModel {
            stack: m.stack.push(
                RegionView {
                    name: name@,
                    parameters: parameters.deep_view(),
                    instructions: seq![],
                    location: location@,
                },
            ),
            ..m
        },
        Instruction::FunctionEnd { .. } => if m.stack.len() > 0 {
            SplitModel {
                stack: m.stack.drop_last(),
                functions: m.functions.push(m.stack.last()),
                ..m
            }
        } else {
            m
        },
        _ => if m.stack.len() > 0 {
            let open = m.stack.last();
            SplitModel {
                stack: m.stack.drop_last().push(
                    RegionView { instructions: open.instructions.push(instruction), ..open },
                ),
                ..m
            }
        } else {
            SplitModel { top: m.top.push(instruction), ..m }
        },
    }
}

/// The separation of scopes after a sequence of instructions.
pub open spec fn split_run(instructions: Seq<Instruction>) -> SplitModel
    decreases instructions.len(),
{
    if instructions.len() == 0 {
        SplitModel { top: seq![], functions: seq![], stack: seq![] }
    } else {
        split_step(split_run(instructions.drop_last()), instructions.last())
    }
}

/// The top-level instructions of a module.
pub open spec fn top_level(instructions: Seq<Instruction>) -> Seq<Instruction> {
    split_run(instructions).top
}

/// The completed named functions of a module, last completed first.
pub open spec fn function_regions(instructions: Seq<Instruction>) -> Seq<RegionView> {
    split_run(instructions).functions.reverse()
}

/// The facts of the returned values, in instruction order.
pub open spec fn returned_facts(instructions: Seq<Instruction>, taint: Map<u32, FactView>) -> Seq<
    FactView,
>
    decreases instructions.len(),
{
    if instructions.len() == 0 {
        seq![]
    } else {
        let prev = returned_facts(instructions.drop_last(), taint);
        match instructions.last() {
            Instruction::Return { value: Some(v), .. } => if taint.contains_key(v.0) {
                prev.push(taint[v.0])
            } else {
                prev
            },
            _ => prev,
        }
    }
}

/// The facts whose source is `source`, in order.
pub open spec fn from_source(facts: Seq<FactView>, source: Seq<char>) -> Seq<FactView>
    decreases facts.len(),
{
    if facts.len() == 0 {
        seq![]
    } else {
        let prev = from_source(facts.drop_last(), source);
        if facts.last().source == source {
            prev.push(facts.last())
        } else {
            prev
        }
    }
}

/// The analysis of a function body while its `index`th parameter carries a parameter fact.
pub open spec fn parameter_run(
    region: RegionView,
    summaries: Map<Seq<char>, SummaryView>,
    index: int,
) -> ScopeModel {
    scope_run(
        region.instructions,
        summaries,
        Map::empty().insert(
            region.parameters[index],
            parameter_fact(index as nat, region.parameters[index], region.location),
        ),
    )
}

/// The return dependency of a parameter given the facts it return_deps.
pub open spec fn return_dependency(index: int, facts: Seq<FactView>) -> Option<ReturnView> {
    if facts.len() == 0 {
        None
    } else {
        Some(
            ReturnView {
                parameter_index: index as usize,
                sanitized_for: common_domains(facts),
                steps: facts[0].steps,
            },
        )
    }
}

/// `deps` with `d` added unless it is already there.
pub open spec fn add_unique(deps: Seq<SinkDepView>, d: SinkDepView) -> Seq<SinkDepView> {
    if deps.contains(d) {
        deps
    } else {
        deps.push(d)
    }
}

/// `deps` extended by the events of the `index`th parameter.
pub open spec fn add_sink_events(
    deps: Seq<SinkDepView>,
    events: Seq<EventView>,
    index: int,
) -> Seq<SinkDepView>
    decreases events.len(),
{
    if events.len() == 0 {
        deps
    } else {
        let prev = add_sink_events(deps, events.drop_last(), index);
        let e = events.last();
        if e.fact.source == parameter_source(index as nat) {
            add_unique(
                prev,
                SinkDepView {
                    parameter_index: index as usize,
                    domain: e.domain,
                    sink: e.sink,
                    steps: e.fact.steps,
                },
            )
        } else {
            prev
        }
    }
}

/// The return dependencies of the first `k` parameters.
pub open spec fn return_dependencies_upto(
    region: RegionView,
    summaries: Map<Seq<char>, SummaryView>,
    k: int,
) -> Seq<ReturnView>
    decreases k,
{
    if k <= 0 {
        seq![]
    } else {
        let prev = return_dependencies_upto(region, summaries, k - 1);
        let run = parameter_run(region, summaries, k - 1);
        match return_dependency(
            k - 1,
            from_source(
                returned_facts(region.instructions, run.taint),
                parameter_source((k - 1) as nat),
            ),
        ) {
            Some(d) => prev.push(d),
            None => prev,
        }
    }
}

/// The sink dependencies of the first `k` parameters.
pub open spec fn sink_dependencies_upto(
    region: RegionView,
    summaries: Map<Seq<char>, SummaryView>,
    k: int,
) -> Seq<SinkDepView>
    decreases k,
{
    if k <= 0 {
        seq![]
    } else {
        add_sink_events(
            sink_dependencies_upto(region, summaries, k - 1),
            parameter_run(region, summaries, k - 1).events,
            k - 1,
        )
    }
}

/// The facts returned without depending on a parameter, one per source.
pub open spec fn distinct_intrinsic(facts: Seq<FactView>) -> Seq<FactView>
    decreases facts.len(),
{
    if facts.len() == 0 {
        seq![]
    } else {
        let prev = distinct_intrinsic(facts.drop_last());
        let f = facts.last();
        if has_prefix(f.source, "__fermio_parameter_"@) || exists|j: int|
            0 <= j < prev.len() && (#[trigger] prev[j]).source == f.source {
            prev
        } else {
            prev.push(f)
        }
    }
}

/// The summary of a function given the summaries known so far.
pub open spec fn summarize(region: RegionView, summaries: Map<Seq<char>, SummaryView>) -> SummaryView {
    SummaryView {
        return_deps: return_dependencies_upto(region, summaries, region.parameters.len() as int),
        intrinsic: distinct_intrinsic(
            returned_facts(region.instructions, scope_run(region.instructions, summaries, Map::empty()).taint),
        ),
        sinks: sink_dependencies_upto(region, summaries, region.parameters.len() as int),
    }
}

/// The key under which a function's summary is stored.
pub open spec fn summary_key(name: Seq<char>) -> Seq<char> {
    lower(normalize_call(name))
}

/// One pass over the first `k` functions: the updated summaries and whether any changed.
pub open spec fn summary_pass(
    functions: Seq<RegionView>,
    summaries: Map<Seq<char>, SummaryView>,
    k: int,
) -> (Map<Seq<char>, SummaryView>, bool)
    decreases k,
{
    if k <= 0 {
        (summaries, false)
    } else {
        let (m, changed) = summary_pass(functions, summaries, k - 1);
        let f = functions[k - 1];
        let key = summary_key(f.name);
        let s = summarize(f, m);
        if m.contains_key(key) && m[key] == s {
            (m, changed)
        } else {
            (m.insert(key, s), true)
        }
    }
}

/// Passes repeated until nothing changes, at most `rounds` times.
pub open spec fn summary_rounds(
    functions: Seq<RegionView>,
    summaries: Map<Seq<char>, SummaryView>,
    rounds: nat,
) -> Map<Seq<char>, SummaryView>
    decreases rounds,
{
    if rounds == 0 {
        summaries
    } else {
        let (m, changed) = summary_pass(functions, summaries, functions.len() as int);
        if !changed {
            m
        } else {
            summary_rounds(functions, m, (rounds - 1) as nat)
        }
    }
}

/// The summaries of the functions of a module: one pass more than there are functions,
/// stopping early at a fixed point.
pub open spec fn module_summaries(functions: Seq<RegionView>) -> Map<Seq<char>, SummaryView> {
    summary_rounds(functions, Map::empty(), (functions.len() + 1) as nat)
}

/// The analysis of every scope of a module: the top level first, then each function.
pub open spec fn scope_results(instructions: Seq<Instruction>) -> Seq<ScopeModel> {
    let functions = function_regions(instructions);
    let summaries = module_summaries(functions);
    seq![scope_run(top_level(instructions), summaries, Map::empty())] + functions.map_values(
        |f: RegionView| scope_run(f.instructions, summaries, Map::empty()),
    )
}

/// The union of the maps of several scopes, later scopes taking precedence.
pub open spec fn merged_taint(results: Seq<ScopeModel>) -> Map<u32, FactView>
    decreases results.len(),
{
    if results.len() == 0 {
        Map::empty()
    } else {
        merged_taint(results.drop_last()).union_prefer_right(results.last().taint)
    }
}

/// The union of the aliases of several scopes, later scopes taking precedence.
pub open spec fn merged_aliases(results: Seq<ScopeModel>) -> Map<u32, u32>
    decreases results.len(),
{
    if results.len() == 0 {
        Map::empty()
    } else {
        merged_aliases(results.drop_last()).union_prefer_right(results.last().aliases)
    }
}

/// The sink events of several scopes, in order.
pub open spec fn merged_events(results: Seq<ScopeModel>) -> Seq<EventView>
    decreases results.len(),
{
    if results.len() == 0 {
        seq![]
    } else {
        merged_events(results.drop_last()) + results.last().events
    }
}

/// The sink events of a module.
pub open spec fn module_events(module: ModuleIr) -> Seq<EventView> {
    merged_events(scope_results(module.instructions@))
}

/// The facts of the values of a module.
pub open spec fn module_taint(module: ModuleIr) -> Map<u32, FactView> {
    merged_taint(scope_results(module.instructions@))
}

/// The values that read a variable, mapped to the value last assigned to it.
pub open spec fn module_aliases(module: ModuleIr) -> Map<u32, u32> {
    merged_aliases(scope_results(module.instructions@))
}

/// The index of the last instruction that defines each value.
pub open spec fn producers(instructions: Seq<Instruction>) -> Map<u32, int>
    decreases instructions.len(),
{
    if instructions.len() == 0 {
        Map::empty()
    } else {
        let prev = producers(instructions.drop_last());
        match defined_value(instructions.last()) {
            Some(v) => prev.insert(v, instructions.len() - 1),
            None => prev,
        }
    }
}


/// An equal copy of a list of texts.
pub fn copy_strings(v: &Vec<String>) -> (r: Vec<String>)
    ensures
        r.deep_view() == v.deep_view(),
{
    let mut r: Vec<String> = Vec::new();
    let mut i: usize = 0;
    while i < v.len()
        invariant
            i <= v.len(),
            r.len() == i,
            forall|j: int| 0 <= j < i ==> #[trigger] r@[j]@ == v@[j]@,
        decreases v.len() - i,
    {
        r.push(v[i].clone());
        i += 1;
    }
    assert(r.deep_view() =~= v.deep_view());
    r
}

/// Separates the top-level instructions from the bodies of named functions.
pub fn split_scopes<'a>(module: &'a ModuleIr) -> (r: (Vec<&'a Instruction>, Vec<FunctionRegion<'a>>))
    ensures
        deref_all(r.0@) == top_level(module.instructions@),
        r.1.deep_view() == function_regions(module.instructions@),
{
    let ghost all = module.instructions@;
    let mut top: Vec<&'a Instruction> = Vec::new();
    let mut functions: Vec<FunctionRegion<'a>> = Vec::new();
    let mut stack: Vec<FunctionRegion<'a>> = Vec::new();
    let mut i: usize = 0;
    while i < module.instructions.len()
        invariant
            i <= module.instructions.len(),
            all == module.instructions@,
            deref_all(top@) == split_run(all.subrange(0, i as int)).top,
            functions.deep_view() == split_run(all.subrange(0, i as int)).functions,
            stack.deep_view() == split_run(all.subrange(0, i as int)).stack,
        decreases module.instructions.len() - i,
    {
        assert(all.subrange(0, i + 1).drop_last() =~= all.subrange(0, i as int));
        let instruction = &module.instructions[i];
        let ghost m = split_run(all.subrange(0, i as int));
        match instruction {
            Instruction::FunctionStart { name, parameters, location } => {
                let region = FunctionRegion {
                    name: name.clone(),
                    parameters: copy_strings(parameters),
                    instructions: Vec::new(),
                    location: location.copy(),
                };
                stack.push(region);
                assert(deref_all(region.instructions@) =~= Seq::<Instruction>::empty());
                assert(stack.deep_view() =~= m.stack.push(region@));
            },
            Instruction::FunctionEnd { .. } => {
                match stack.pop() {
                    Some(region) => {
                        assert(stack.deep_view() =~= m.stack.drop_last());
                        functions.push(region);
                        assert(functions.deep_view() =~= m.functions.push(m.stack.last()));
                    },
                    None => {},
                }
            },
            _ => {
                match stack.pop() {
                    Some(region) => {
                        let mut region = region;
                        let ghost before = region@;
                        region.instructions.push(instruction);
                        assert(deref_all(region.instructions@) =~= before.instructions.push(
                            *instruction,
                        ));
                        stack.push(region);
                        assert(stack.deep_view() =~= m.stack.drop_last().push(
                            RegionView {
                                instructions: m.stack.last().instructions.push(*instruction),
                                ..m.stack.last()
                            },
                        ));
                    },
                    None => {
                        top.push(instruction);
                        assert(deref_all(top@) =~= m.top.push(*instruction));
                    },
                }
            },
        }
        i += 1;
    }
    assert(all.subrange(0, module.instructions.len() as int) =~= all);
    let ghost finished = functions.deep_view();
    let mut reversed: Vec<FunctionRegion<'a>> = Vec::new();
    while functions.len() > 0
        invariant
            functions.deep_view() == finished.subrange(0, functions.len() as int),
            functions.len() <= finished.len(),
            reversed.deep_view() == finished.reverse().subrange(
                0,
                finished.len() - functions.len(),
            ),
        decreases functions.len(),
    {
        let ghost n = functions.len();
        let ghost last = functions@[n - 1];
        assert(last@ == functions.deep_view()[n - 1]);
        match functions.pop() {
            Some(region) => {
                let ghost before = reversed.deep_view();
                assert(region@ == finished[n - 1]);
                reversed.push(region);
                assert(reversed.deep_view() =~= before.push(finished[n - 1]));
                assert(functions.deep_view() =~= finished.subrange(0, functions.len() as int));
                assert(reversed.deep_view() =~= finished.reverse().subrange(
                    0,
                    finished.len() - functions.len(),
                ));
            },
            None => {},
        }
    }
    assert(finished.reverse().subrange(0, finished.len() as int) =~= finished.reverse());
    (top, reversed)
}


fn returned_facts_exec(instructions: &Vec<&Instruction>, st: &ScopeState) -> (r: Vec<TaintFact>)
    ensures
        r.deep_view() == returned_facts(deref_all(instructions@), st.model().taint),
{
    let ghost all = deref_all(instructions@);
    let mut facts: Vec<TaintFact> = Vec::new();
    let mut i: usize = 0;
    while i < instructions.len()
        invariant
            i <= instructions.len(),
            all == deref_all(instructions@),
            facts.deep_view() == returned_facts(all.subrange(0, i as int), st.model().taint),
        decreases instructions.len() - i,
    {
        assert(all.subrange(0, i + 1).drop_last() =~= all.subrange(0, i as int));
        let ghost before = facts.deep_view();
        match instructions[i] {
            Instruction::Return { value: Some(v), .. } => {
                match st.taint.get(&v.0) {
                    Some(f) => {
                        facts.push(f.copy());
                        assert(facts.deep_view() =~= before.push(st.model().taint[v.0]));
                    },
                    None => {},
                }
            },
            _ => {},
        }
        i += 1;
    }
    assert(all.subrange(0, instructions.len() as int) =~= all);
    facts
}

fn from_source_exec(facts: &Vec<TaintFact>, source: &String) -> (r: Vec<TaintFact>)
    ensures
        r.deep_view() == from_source(facts.deep_view(), source@),
{
    let mut r: Vec<TaintFact> = Vec::new();
    let mut i: usize = 0;
    while i < facts.len()
        invariant
            i <= facts.len(),
            r.deep_view() == from_source(facts.deep_view().subrange(0, i as int), source@),
        decreases facts.len() - i,
    {
        assert(facts.deep_view().subrange(0, i + 1).drop_last() =~= facts.deep_view().subrange(
            0,
            i as int,
        ));
        let ghost before = r.deep_view();
        if facts[i].source == *source {
            r.push(facts[i].copy());
            assert(r.deep_view() =~= before.push(facts@[i as int]@));
        }
        i += 1;
    }
    assert(facts.deep_view().subrange(0, facts.len() as int) =~= facts.deep_view());
    r
}

fn parameter_analysis(
    function: &FunctionRegion,
    summaries: &StringHashMap<FunctionSummary>,
    index: usize,
) -> (r: ScopeState)
    requires
        index < function.parameters.len(),
    ensures
        r.model() == parameter_run(function@, summaries_view(summaries@), index as int),
{
    let name = &function.parameters[index];
    let fact = TaintFact::parameter(index, name, &function.location);
    let mut initial: StringHashMap<TaintFact> = StringHashMap::new();
    initial.insert(name.clone(), fact);
    assert(function@.parameters[index as int] == name@);
    assert(facts_view(initial@) =~= Map::<Seq<char>, FactView>::empty().insert(
        name@,
        parameter_fact(index as nat, name@, function.location@),
    ));
    analyze_scope(&function.instructions, summaries, &initial)
}

fn add_sink_events_exec(deps: &mut Vec<SinkDependency>, events: &Vec<crate::taint::SinkEvent>, index: usize)
    ensures
        final(deps).deep_view() == add_sink_events(
            old(deps).deep_view(),
            events.deep_view(),
            index as int,
        ),
{
    let source = parameter_source_exec(index);
    let ghost start = deps.deep_view();
    let mut i: usize = 0;
    while i < events.len()
        invariant
            i <= events.len(),
            source@ == parameter_source(index as nat),
            deps.deep_view() == add_sink_events(
                start,
                events.deep_view().subrange(0, i as int),
                index as int,
            ),
        decreases events.len() - i,
    {
        assert(events.deep_view().subrange(0, i + 1).drop_last() =~= events.deep_view().subrange(
            0,
            i as int,
        ));
        let e = &events[i];
        if e.fact.source == source {
            let dep = SinkDependency {
                parameter_index: index,
                domain: e.domain,
                sink: e.sink.copy(),
                steps: copy_steps(&e.fact.steps),
            };
            let mut found = false;
            let mut k: usize = 0;
            while k < deps.len()
                invariant
                    k <= deps.len(),
                    !found ==> forall|j: int| 0 <= j < k ==> deps.deep_view()[j] != dep@,
                    found ==> deps.deep_view().contains(dep@),
                decreases deps.len() - k,
            {
                if !found && deps[k].equals(&dep) {
                    assert(deps.deep_view()[k as int] == dep@);
                    found = true;
                }
                k += 1;
            }
            if !found {
                let ghost before = deps.deep_view();
                deps.push(dep);
                assert(deps.deep_view() =~= before.push(dep@));
            }
        }
        i += 1;
    }
    assert(events.deep_view().subrange(0, events.len() as int) =~= events.deep_view());
}

/// The source name used for a parameter while summarizing a function.
fn parameter_source_exec(index: usize) -> (r: String)
    ensures
        r@ == parameter_source(index as nat),
{
    let digits = crate::text::decimal_exec(index);
    crate::text::join2("__fermio_parameter_", digits.as_str())
}

fn distinct_intrinsic_exec(facts: &Vec<TaintFact>) -> (r: Vec<TaintFact>)
    ensures
        r.deep_view() == distinct_intrinsic(facts.deep_view()),
{
    let mut r: Vec<TaintFact> = Vec::new();
    let mut i: usize = 0;
    while i < facts.len()
        invariant
            i <= facts.len(),
            r.deep_view() == distinct_intrinsic(facts.deep_view().subrange(0, i as int)),
        decreases facts.len() - i,
    {
        assert(facts.deep_view().subrange(0, i + 1).drop_last() =~= facts.deep_view().subrange(
            0,
            i as int,
        ));
        let f = &facts[i];
        let ghost prev = r.deep_view();
        let mut seen = starts_with(f.source.as_str(), "__fermio_parameter_");
        let mut k: usize = 0;
        while k < r.len()
            invariant
                k <= r.len(),
                prev == r.deep_view(),
                seen == (has_prefix(f.source@, "__fermio_parameter_"@) || exists|j: int|
                    0 <= j < k && (#[trigger] prev[j]).source == f.source@),
            decreases r.len() - k,
        {
            if r[k].source == f.source {
                assert(prev[k as int].source == f.source@);
                seen = true;
            }
            k += 1;
        }
        if !seen {
            r.push(f.copy());
            assert(r.deep_view() =~= prev.push(f@));
        }
        i += 1;
    }
    assert(facts.deep_view().subrange(0, facts.len() as int) =~= facts.deep_view());
    r
}

/// The summary of a named function given the summaries known so far.
pub fn summarize_function(
    function: &FunctionRegion,
    summaries: &StringHashMap<FunctionSummary>,
) -> (r: FunctionSummary)
    ensures
        r@ == summarize(function@, summaries_view(summaries@)),
{
    let ghost region = function@;
    let ghost sv = summaries_view(summaries@);
    let mut return_deps: Vec<ReturnDependency> = Vec::new();
    let mut sinks: Vec<SinkDependency> = Vec::new();
    let mut index: usize = 0;
    while index < function.parameters.len()
        invariant
            index <= function.parameters.len(),
            region == function@,
            sv == summaries_view(summaries@),
            return_deps.deep_view() == return_dependencies_upto(region, sv, index as int),
            sinks.deep_view() == sink_dependencies_upto(region, sv, index as int),
        decreases function.parameters.len() - index,
    {
        let st = parameter_analysis(function, summaries, index);
        let source = parameter_source_exec(index);
        let returned = returned_facts_exec(&function.instructions, &st);
        let own = from_source_exec(&returned, &source);
        match TaintFact::merge(own) {
            Some(merged) => {
                let ghost before = return_deps.deep_view();
                let dep = ReturnDependency {
                    parameter_index: index,
                    sanitized_for: merged.sanitized_for,
                    steps: merged.steps,
                };
                return_deps.push(dep);
                assert(return_deps.deep_view() =~= before.push(dep@));
            },
            None => {},
        }
        add_sink_events_exec(&mut sinks, &st.events, index);
        index += 1;
    }
    let empty: StringHashMap<TaintFact> = StringHashMap::new();
    assert(facts_view(empty@) =~= Map::<Seq<char>, FactView>::empty());
    let intrinsic_run = analyze_scope(&function.instructions, summaries, &empty);
    let intrinsic_facts = returned_facts_exec(&function.instructions, &intrinsic_run);
    let intrinsic = distinct_intrinsic_exec(&intrinsic_facts);
    FunctionSummary {
        return_dependencies: return_deps,
        intrinsic_returns: intrinsic,
        sink_dependencies: sinks,
    }
}


/// One pass over all functions, updating the summaries; whether any summary changed.
fn summary_pass_exec(
    functions: &Vec<FunctionRegion>,
    summaries: &mut StringHashMap<FunctionSummary>,
) -> (changed: bool)
    ensures
        (summaries_view(final(summaries)@), changed) == summary_pass(
            functions.deep_view(),
            summaries_view(old(summaries)@),
            functions.len() as int,
        ),
{
    let ghost fs = functions.deep_view();
    let ghost start = summaries_view(summaries@);
    let mut changed = false;
    let mut i: usize = 0;
    while i < functions.len()
        invariant
            i <= functions.len(),
            fs == functions.deep_view(),
            (summaries_view(summaries@), changed) == summary_pass(fs, start, i as int),
        decreases functions.len() - i,
    {
        let function = &functions[i];
        assert(fs[i as int] == function@);
        let key = crate::taint::normalized_call_name(function.name.as_str());
        let summary = summarize_function(function, summaries);
        let same = match summaries.get(key.as_str()) {
            Some(existing) => existing.equals(&summary),
            None => false,
        };
        if !same {
            let ghost before = summaries_view(summaries@);
            summaries.insert(key, summary);
            assert(summaries_view(summaries@) =~= before.insert(key@, summary@));
            changed = true;
        }
        i += 1;
    }
    changed
}

/// The summaries of the named functions of a module, keyed by lower-cased name.
pub fn build_function_summaries(functions: &Vec<FunctionRegion>) -> (r: StringHashMap<
    FunctionSummary,
>)
    ensures
        summaries_view(r@) == module_summaries(functions.deep_view()),
{
    let ghost fs = functions.deep_view();
    let mut summaries: StringHashMap<FunctionSummary> = StringHashMap::new();
    assert(summaries_view(summaries@) =~= Map::<Seq<char>, SummaryView>::empty());
    let mut remaining: usize = functions.len();
    loop
        invariant
            fs == functions.deep_view(),
            remaining <= functions.len(),
            module_summaries(fs) == summary_rounds(
                fs,
                summaries_view(summaries@),
                (remaining + 1) as nat,
            ),
        decreases remaining,
    {
        let ghost before = summaries_view(summaries@);
        let changed = summary_pass_exec(functions, &mut summaries);
        assert(summary_rounds(fs, before, (remaining + 1) as nat) == (if !changed {
            summaries_view(summaries@)
        } else {
            summary_rounds(fs, summaries_view(summaries@), remaining as nat)
        }));
        if !changed || remaining == 0 {
            return summaries;
        }
        remaining -= 1;
    }
}


/// The text a string literal denotes: quotes and a binary prefix removed; heredocs unknown.
pub open spec fn literal_text(value: Seq<char>) -> Option<Seq<char>> {
    let v = trim(value);
    let v = if has_prefix(v, "b'"@) || has_prefix(v, "B'"@) || has_prefix(v, "b\""@) || has_prefix(
        v,
        "B\""@,
    ) {
        v.drop_first()
    } else {
        v
    };
    if v.len() >= 2 && ((v[0] == '\'' && v.last() == '\'') || (v[0] == '"' && v.last() == '"')) {
        Some(v.subrange(1, v.len() - 1))
    } else if has_prefix(v, "<<<"@) {
        None
    } else {
        Some(v)
    }
}

/// The text a string literal denotes: quotes and a binary prefix removed; heredocs unknown.
pub fn normalize_string_literal(value: &str) -> (r: Option<String>)
    ensures
        match r {
            Some(t) => literal_text(value@) == Some(t@),
            None => literal_text(value@) is None,
        },
{
    let trimmed = trim_exec(value);
    let t = trimmed.as_str();
    let binary = starts_with(t, "b'") || starts_with(t, "B'") || starts_with(t, "b\"") || starts_with(
        t,
        "B\"",
    );
    let cs = chars_of(t);
    proof {
        reveal_strlit("b'");
        reveal_strlit("B'");
        reveal_strlit("b\"");
        reveal_strlit("B\"");
    }
    let start: usize = if binary {
        1
    } else {
        0
    };
    let ghost v = if binary {
        cs@.drop_first()
    } else {
        cs@
    };
    assert(v =~= cs@.subrange(start as int, cs@.len() as int));
    let n = cs.len() - start;
    if n >= 2 && ((cs[start] == '\'' && cs[cs.len() - 1] == '\'') || (cs[start] == '"' && cs[cs.len()
        - 1] == '"')) {
        let r = string_from(&cs, start + 1, cs.len() - 1);
        assert(r@ =~= v.subrange(1, v.len() - 1));
        Some(r)
    } else {
        let rest = string_from(&cs, start, cs.len());
        if starts_with(rest.as_str(), "<<<") {
            None
        } else {
            Some(rest)
        }
    }
}

/// The constant text of a value: resolved through variable reads, string literals and
/// concatenations, at most 33 levels deep and without cycles.
pub open spec fn resolve_constant(module: ModuleIr, value: u32, visiting: Seq<u32>, depth: int) -> Option<
    Seq<char>,
>
    decreases 33 - depth, 0int,
{
    if depth > 32 || depth < 0 || visiting.contains(value) {
        None
    } else {
        let aliases = module_aliases(module);
        let defs = producers(module.instructions@);
        if aliases.contains_key(value) {
            resolve_constant(module, aliases[value], visiting.push(value), depth + 1)
        } else if defs.contains_key(value) && 0 <= defs[value] < module.instructions@.len() {
            match module.instructions@[defs[value]] {
                Instruction::Literal { value: LiteralValue::String(text), .. } => literal_text(
                    text@,
                ),
                Instruction::Concatenate { operands, .. } => resolve_all(
                    module,
                    crate::ir::ids(operands@),
                    visiting.push(value),
                    depth + 1,
                ),
                _ => None,
            }
        } else {
            None
        }
    }
}

/// The concatenated constant texts of several values, if all have one.
pub open spec fn resolve_all(module: ModuleIr, values: Seq<u32>, visiting: Seq<u32>, depth: int) -> Option<
    Seq<char>,
>
    decreases 33 - depth, values.len(),
{
    if values.len() == 0 {
        Some(seq![])
    } else {
        match resolve_all(module, values.drop_last(), visiting, depth) {
            Some(prefix) => match resolve_constant(module, values.last(), visiting, depth) {
                Some(text) => Some(prefix + text),
                None => None,
            },
            None => None,
        }
    }
}


fn copy_events(src: &Vec<crate::taint::SinkEvent>, dst: &mut Vec<crate::taint::SinkEvent>)
    ensures
        final(dst).deep_view() == old(dst).deep_view() + src.deep_view(),
{
    let ghost start = dst.deep_view();
    let mut k: usize = 0;
    while k < src.len()
        invariant
            k <= src.len(),
            dst.deep_view() == start + src.deep_view().subrange(0, k as int),
        decreases src.len() - k,
    {
        let e = src[k].copy();
        let ghost prev = dst.deep_view();
        dst.push(e);
        assert(dst.deep_view() =~= prev.push(src.deep_view()[k as int]));
        k += 1;
        assert(dst.deep_view() =~= start + src.deep_view().subrange(0, k as int));
    }
    assert(src.deep_view().subrange(0, src.len() as int) =~= src.deep_view());
}

proof fn lemma_merged_taint_suffix(results: Seq<ScopeModel>, k: int, v: u32)
    requires
        0 <= k <= results.len(),
        forall|j: int| k <= j < results.len() ==> !(#[trigger] results[j]).taint.contains_key(v),
    ensures
        merged_taint(results).contains_key(v) == merged_taint(results.subrange(0, k)).contains_key(
            v,
        ),
        merged_taint(results).contains_key(v) ==> merged_taint(results)[v] == merged_taint(
            results.subrange(0, k),
        )[v],
    decreases results.len(),
{
    if results.len() > k {
        assert(results.drop_last().subrange(0, k) =~= results.subrange(0, k));
        lemma_merged_taint_suffix(results.drop_last(), k, v);
    } else {
        assert(results.subrange(0, k) =~= results);
    }
}

proof fn lemma_merged_aliases_suffix(results: Seq<ScopeModel>, k: int, v: u32)
    requires
        0 <= k <= results.len(),
        forall|j: int| k <= j < results.len() ==> !(#[trigger] results[j]).aliases.contains_key(v),
    ensures
        merged_aliases(results).contains_key(v) == merged_aliases(
            results.subrange(0, k),
        ).contains_key(v),
        merged_aliases(results).contains_key(v) ==> merged_aliases(results)[v] == merged_aliases(
            results.subrange(0, k),
        )[v],
    decreases results.len(),
{
    if results.len() > k {
        assert(results.drop_last().subrange(0, k) =~= results.subrange(0, k));
        lemma_merged_aliases_suffix(results.drop_last(), k, v);
    } else {
        assert(results.subrange(0, k) =~= results);
    }
}

/// The taint analysis of one module: facts of values, sink events and constant strings.
pub struct ModuleAnalysis<'a> {
    module: &'a ModuleIr,
    producers: HashMap<u32, usize>,
    scopes: Vec<ScopeState>,
    sink_events: Vec<crate::taint::SinkEvent>,
}

impl<'a> ModuleAnalysis<'a> {
    #[verifier::type_invariant]
    spec fn consistent(self) -> bool {
        let ins = self.module.instructions@;
        let results = scope_results(ins);
        &&& self.scopes.len() == results.len()
        &&& forall|i: int| 0 <= i < results.len() ==> (#[trigger] self.scopes@[i]).model() == results[i]
        &&& self.sink_events.deep_view() == merged_events(results)
        &&& forall|v: u32| #[trigger] self.producers@.contains_key(v) <==> producers(ins).contains_key(v)
        &&& forall|v: u32| #[trigger] producers(ins).contains_key(v) ==> self.producers@[v] as int
            == producers(ins)[v] && producers(ins)[v] < ins.len()
    }

    /// The analyzed module.
    pub closed spec fn analyzed(&self) -> ModuleIr {
        *self.module
    }

    /// Analyzes every scope of a module, with summaries of its named functions.
    pub fn new(module: &'a ModuleIr) -> (r: Self)
        ensures
            r.analyzed() == *module,
    {
        let ghost ins = module.instructions@;
        let (top_level_instructions, functions) = split_scopes(module);
        let summaries = build_function_summaries(&functions);
        let mut producer_map: HashMap<u32, usize> = HashMap::new();
        let mut i: usize = 0;
        while i < module.instructions.len()
            invariant
                i <= module.instructions.len(),
                ins == module.instructions@,
                forall|v: u32| #[trigger] producer_map@.contains_key(v) <==> producers(
                    ins.subrange(0, i as int),
                ).contains_key(v),
                forall|v: u32| #[trigger] producers(ins.subrange(0, i as int)).contains_key(v)
                    ==> producer_map@[v] as int == producers(ins.subrange(0, i as int))[v]
                    && producers(ins.subrange(0, i as int))[v] < i,
            decreases module.instructions.len() - i,
        {
            assert(ins.subrange(0, i + 1).drop_last() =~= ins.subrange(0, i as int));
            assert(ins.subrange(0, i + 1).last() == ins[i as int]);
            let ghost prev = producers(ins.subrange(0, i as int));
            match instruction_output(&module.instructions[i]) {
                Some(v) => {
                    producer_map.insert(v, i);
                    assert(producers(ins.subrange(0, i + 1)) == prev.insert(v, i as int));
                },
                None => {
                    assert(producers(ins.subrange(0, i + 1)) == prev);
                },
            }
            i += 1;
        }
        assert(ins.subrange(0, module.instructions.len() as int) =~= ins);
        let empty: StringHashMap<TaintFact> = StringHashMap::new();
        assert(facts_view(empty@) =~= Map::<Seq<char>, FactView>::empty());
        let ghost results = scope_results(ins);
        let ghost fs = functions.deep_view();
        let mut scopes: Vec<ScopeState> = Vec::new();
        let mut events: Vec<crate::taint::SinkEvent> = Vec::new();
        let top = analyze_scope(&top_level_instructions, &summaries, &empty);
        copy_events(&top.events, &mut events);
        assert(events.deep_view() =~= top.events.deep_view());
        assert(results[0] == top.model());
        scopes.push(top);
        assert(merged_events(results.subrange(0, 1)) =~= results[0].events) by {
            assert(results.subrange(0, 1).drop_last() =~= Seq::<ScopeModel>::empty());
            assert(results.subrange(0, 1).last() == results[0]);
            assert(merged_events(Seq::<ScopeModel>::empty()) =~= Seq::<EventView>::empty());
        }
        let mut f: usize = 0;
        while f < functions.len()
            invariant
                f <= functions.len(),
                fs == functions.deep_view(),
                results == scope_results(ins),
                ins == module.instructions@,
                fs == function_regions(ins),
                summaries_view(summaries@) == module_summaries(fs),
                facts_view(empty@) == Map::<Seq<char>, FactView>::empty(),
                results.len() == functions.len() + 1,
                scopes.len() == f + 1,
                forall|j: int| 0 <= j <= f ==> (#[trigger] scopes@[j]).model() == results[j],
                events.deep_view() == merged_events(results.subrange(0, f + 1)),
            decreases functions.len() - f,
        {
            let st = analyze_scope(&functions[f].instructions, &summaries, &empty);
            assert(functions@[f as int]@ == fs[f as int]);
            assert(results[f + 1] == fs.map_values(
                |g: RegionView| scope_run(g.instructions, module_summaries(fs), Map::empty()),
            )[f as int]);
            assert(results[f + 1] == scope_run(
                fs[f as int].instructions,
                module_summaries(fs),
                Map::empty(),
            ));
            assert(st.model() == results[f + 1]);
            let ghost before = events.deep_view();
            copy_events(&st.events, &mut events);
            scopes.push(st);
            f += 1;
            assert(results.subrange(0, f + 1).drop_last() =~= results.subrange(0, f as int));
            assert(results.subrange(0, f + 1).last() == results[f as int]);
        }
        assert(results.subrange(0, functions.len() + 1) =~= results);
        ModuleAnalysis { module, producers: producer_map, scopes, sink_events: events }
    }

    /// The analyzed module.
    pub fn module(&self) -> (r: &'a ModuleIr)
        ensures
            *r == self.analyzed(),
    {
        self.module
    }

    /// The sink events of the module: its top level first, then each function.
    pub fn sink_events(&self) -> (r: &Vec<crate::taint::SinkEvent>)
        ensures
            r.deep_view() == module_events(self.analyzed()),
    {
        proof {
            use_type_invariant(self);
        }
        &self.sink_events
    }

    /// The fact of a value, if untrusted data reaches it.
    pub fn taint(&self, value: crate::ir::ValueId) -> (r: Option<&TaintFact>)
        ensures
            match r {
                Some(f) => module_taint(self.analyzed()).contains_key(value.0) && module_taint(
                    self.analyzed(),
                )[value.0] == f@,
                None => !module_taint(self.analyzed()).contains_key(value.0),
            },
    {
        proof {
            use_type_invariant(self);
        }
        let ghost results = scope_results(self.module.instructions@);
        let mut i: usize = self.scopes.len();
        while i > 0
            invariant
                results == scope_results(self.module.instructions@),
                i <= self.scopes.len(),
                self.scopes.len() == results.len(),
                forall|j: int| 0 <= j < results.len() ==> (#[trigger] self.scopes@[j]).model() == results[j],
                forall|j: int| i <= j < results.len() ==> !(#[trigger] results[j]).taint.contains_key(
                    value.0,
                ),
            decreases i,
        {
            match self.scopes[i - 1].taint.get(&value.0) {
                Some(f) => {
                    proof {
                        lemma_merged_taint_suffix(results, i as int, value.0);
                        assert(results.subrange(0, i as int).last() == results[i - 1]);
                        assert(results.subrange(0, i as int).drop_last() =~= results.subrange(
                            0,
                            i - 1,
                        ));
                        assert(results[i - 1] == self.scopes@[i - 1].model());
                        assert(results[i - 1].taint.contains_key(value.0));
                        assert(results[i - 1].taint[value.0] == f@);
                        assert(merged_taint(results.subrange(0, i as int)) == merged_taint(
                            results.subrange(0, i - 1),
                        ).union_prefer_right(results[i - 1].taint));
                        assert(merged_taint(results.subrange(0, i as int)).contains_key(value.0));
                        assert(merged_taint(results.subrange(0, i as int))[value.0] == f@);
                        assert(merged_taint(results).contains_key(value.0));
                        assert(merged_taint(results)[value.0] == f@);

                    }
                    return Some(f);
                },
                None => {
                    assert(results[i - 1] == self.scopes@[i - 1].model());
                },
            }
            i -= 1;
        }
        proof {
            lemma_merged_taint_suffix(results, 0, value.0);
            assert(results.subrange(0, 0) =~= Seq::<ScopeModel>::empty());
        }
        None
    }

    fn alias(&self, value: u32) -> (r: Option<u32>)
        ensures
            match r {
                Some(a) => module_aliases(self.analyzed()).contains_key(value) && module_aliases(
                    self.analyzed(),
                )[value] == a,
                None => !module_aliases(self.analyzed()).contains_key(value),
            },
    {
        proof {
            use_type_invariant(self);
        }
        let ghost results = scope_results(self.module.instructions@);
        let mut i: usize = self.scopes.len();
        while i > 0
            invariant
                results == scope_results(self.module.instructions@),
                i <= self.scopes.len(),
                self.scopes.len() == results.len(),
                forall|j: int| 0 <= j < results.len() ==> (#[trigger] self.scopes@[j]).model() == results[j],
                forall|j: int| i <= j < results.len() ==> !(#[trigger] results[j]).aliases.contains_key(
                    value,
                ),
            decreases i,
        {
            assert(results[i - 1] == self.scopes@[i - 1].model());
            match self.scopes[i - 1].aliases.get(&value) {
                Some(a) => {
                    proof {
                        lemma_merged_aliases_suffix(results, i as int, value);
                        assert(results.subrange(0, i as int).last() == results[i - 1]);
                        assert(results.subrange(0, i as int).drop_last() =~= results.subrange(
                            0,
                            i - 1,
                        ));
                    }
                    return Some(*a);
                },
                None => {},
            }
            i -= 1;
        }
        proof {
            lemma_merged_aliases_suffix(results, 0, value);
            assert(results.subrange(0, 0) =~= Seq::<ScopeModel>::empty());
        }
        None
    }

    /// The constant text of a value, if it is built from string literals only.
    pub fn resolve_constant_string(&self, value: crate::ir::ValueId) -> (r: Option<String>)
        ensures
            match r {
                Some(t) => resolve_constant(self.analyzed(), value.0, seq![], 0) == Some(t@),
                None => resolve_constant(self.analyzed(), value.0, seq![], 0) is None,
            },
    {
        let mut visiting: Vec<u32> = Vec::new();
        self.resolve_inner(value.0, &mut visiting, 0)
    }

    fn resolve_inner(&self, value: u32, visiting: &mut Vec<u32>, depth: usize) -> (r: Option<String>)
        requires
            depth <= 33,
        ensures
            final(visiting)@ == old(visiting)@,
            match r {
                Some(t) => resolve_constant(self.analyzed(), value, old(visiting)@, depth as int)
                    == Some(t@),
                None => resolve_constant(self.analyzed(), value, old(visiting)@, depth as int) is None,
            },
        decreases 33 - depth,
    {
        proof {
            use_type_invariant(self);
        }
        if depth > 32 {
            return None;
        }
        if contains_value(visiting, value) {
            return None;
        }
        let ghost vis = visiting@;
        match self.alias(value) {
            Some(a) => {
                visiting.push(value);
                let r = self.resolve_inner(a, visiting, depth + 1);
                visiting.pop();
                assert(visiting@ =~= vis);
                return r;
            },
            None => {},
        }
        let index = match self.producers.get(&value) {
            Some(index) => *index,
            None => return None,
        };
        let ghost defs = producers(self.module.instructions@);
        assert(defs.contains_key(value) && defs[value] == index as int);
        match &self.module.instructions[index] {
            Instruction::Literal { value: LiteralValue::String(text), .. } => {
                assert(self.module.instructions@[index as int] == self.module.instructions[index as int]);
                assert(!module_aliases(self.analyzed()).contains_key(value));
                assert(resolve_constant(self.analyzed(), value, vis, depth as int) == literal_text(
                    text@,
                ));
                normalize_string_literal(text.as_str())
            },
            Instruction::Concatenate { operands, .. } => {
                assert(self.module.instructions@[index as int] == self.module.instructions[index as int]);
                assert(!module_aliases(self.analyzed()).contains_key(value));
                assert(resolve_constant(self.analyzed(), value, vis, depth as int) == resolve_all(
                    self.analyzed(),
                    crate::ir::ids(operands@),
                    vis.push(value),
                    depth + 1,
                ));
                visiting.push(value);
                let ghost inner = visiting@;
                let mut combined = String::new();
                let mut i: usize = 0;
                let mut failed = false;
                while i < operands.len()
                    invariant
                        i <= operands.len(),
                        depth <= 32,
                        visiting@ == inner,
                        inner == vis.push(value),
                        resolve_constant(self.analyzed(), value, vis, depth as int) == resolve_all(
                            self.analyzed(),
                            crate::ir::ids(operands@),
                            inner,
                            depth + 1,
                        ),
                        !failed ==> resolve_all(
                            self.analyzed(),
                            crate::ir::ids(operands@).subrange(0, i as int),
                            inner,
                            depth + 1,
                        ) == Some(combined@),
                        failed ==> resolve_all(
                            self.analyzed(),
                            crate::ir::ids(operands@),
                            inner,
                            depth + 1,
                        ) is None,
                    ensures
                        !failed ==> i == operands.len(),
                        !failed ==> resolve_all(
                            self.analyzed(),
                            crate::ir::ids(operands@).subrange(0, i as int),
                            inner,
                            depth + 1,
                        ) == Some(combined@),
                        failed ==> resolve_all(
                            self.analyzed(),
                            crate::ir::ids(operands@),
                            inner,
                            depth + 1,
                        ) is None,
                        visiting@ == inner,
                    decreases operands.len() - i,
                {
                    let ghost prefix = crate::ir::ids(operands@).subrange(0, i as int);
                    assert(crate::ir::ids(operands@).subrange(0, i + 1).drop_last() =~= prefix);
                    match self.resolve_inner(operands[i].0, visiting, depth + 1) {
                        Some(t) => {
                            let ghost before = combined@;
                            combined.append(t.as_str());
                            proof {
                                let ids = crate::ir::ids(operands@);
                                assert(ids[i as int] == operands@[i as int].0);
                                assert(ids.subrange(0, i + 1).last() == ids[i as int]);
                                assert(combined@ == before + t@);
                            }
                            i += 1;
                        },
                        None => {
                            proof {
                                lemma_resolve_all_fails(
                                    self.analyzed(),
                                    crate::ir::ids(operands@),
                                    inner,
                                    depth + 1,
                                    i as int,
                                );
                            }
                            failed = true;
                            break;
                        },
                    }
                }
                visiting.pop();
                assert(visiting@ =~= vis);
                if failed {
                    None
                } else {
                    assert(crate::ir::ids(operands@).subrange(0, operands.len() as int)
                        =~= crate::ir::ids(operands@));
                    Some(combined)
                }
            },
            _ => {
                assert(self.module.instructions@[index as int] == self.module.instructions[index as int]);
                assert(!module_aliases(self.analyzed()).contains_key(value));
                None
            },
        }
    }
}

fn contains_value(v: &Vec<u32>, x: u32) -> (r: bool)
    ensures
        r == v@.contains(x),
{
    let mut k: usize = 0;
    while k < v.len()
        invariant
            k <= v.len(),
            forall|j: int| 0 <= j < k ==> v@[j] != x,
        decreases v.len() - k,
    {
        if v[k] == x {
            assert(v@[k as int] == x);
            return true;
        }
        k += 1;
    }
    false
}

proof fn lemma_resolve_all_fails(
    module: ModuleIr,
    values: Seq<u32>,
    visiting: Seq<u32>,
    depth: int,
    i: int,
)
    requires
        0 <= i < values.len(),
        resolve_constant(module, values[i], visiting, depth) is None,
    ensures
        resolve_all(module, values, visiting, depth) is None,
    decreases values.len(),
{
    if i < values.len() - 1 {
        assert(values.drop_last()[i] == values[i]);
        lemma_resolve_all_fails(module, values.drop_last(), visiting, depth, i);
    }
}

} // verus!
