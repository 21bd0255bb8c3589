//! Untrusted data reaching the query text of PDO and mysqli objects.
use crate::analysis::ModuleAnalysis;
use crate::findings::{
    copy_steps, Confidence, DataflowStep, Finding, FindingView, LocationView, Severity,
    SourceLocation, StepView,
};
use crate::fingerprint::{fingerprint, fingerprint_text};
use crate::ir::{ids, CallKind, Instruction, ModuleIr, ValueId};
use crate::rules::Rule;
use crate::taint::{
    normalized_call_name, quoted, sql_sanitizer_argument, sql_sanitizer_argument_exec, step,
    untrusted_superglobal, is_untrusted_superglobal,
};
use crate::text::{join2, join3, lower, normalize_call, normalize_call_exec, owned, same};
use std::collections::HashMap;
use vstd::hash_map::StringHashMap;
use vstd::prelude::*;

verus! {

broadcast use vstd::std_specs::hash::group_hash_axioms;

/// Untrusted data on its way to an SQL query, with its redacted trace.
#[derive(Debug, Clone)]
pub struct SqlTaintFact {
    pub source: String,
    pub steps: Vec<DataflowStep>,
    pub sanitized: bool,
}

/// The mathematical value of a [`SqlTaintFact`].
pub struct SqlFactView {
    pub source: Seq<char>,
    pub steps: Seq<StepView>,
    pub sanitized: bool,
}

impl View for SqlTaintFact {
    type V = SqlFactView;

    open spec fn view(&self) -> SqlFactView {
        SqlFactView { source: self.source@, steps: self.steps.deep_view(), sanitized: self.sanitized }
    }
}

/// The fact that untrusted input `source` creates.
pub open spec fn sql_source_fact(source: Seq<char>, location: LocationView) -> SqlFactView {
    SqlFactView {
        source,
        steps: seq![step(quoted("Untrusted input from `"@, source), location)],
        sanitized: false,
    }
}

/// A fact with one more trace step.
pub open spec fn sql_extend(fact: SqlFactView, label: Seq<char>, location: LocationView) -> SqlFactView {
    SqlFactView { steps: fact.steps.push(step(label, location)), ..fact }
}

/// The facts of the tainted operands, in order.
pub open spec fn tainted_operands(operands: Seq<u32>, taint: Map<u32, SqlFactView>) -> Seq<
    SqlFactView,
>
    decreases operands.len(),
{
    if operands.len() == 0 {
        seq![]
    } else {
        let p = tainted_operands(operands.drop_last(), taint);
        if taint.contains_key(operands.last()) {
            p.push(taint[operands.last()])
        } else {
            p
        }
    }
}

/// The fact of a concatenation: the first tainted operand's, sanitized only if all are.
pub open spec fn concat_fact(facts: Seq<SqlFactView>, location: LocationView) -> Option<SqlFactView> {
    if facts.len() == 0 {
        None
    } else {
        Some(
            sql_extend(
                SqlFactView {
                    sanitized: forall|i: int| 0 <= i < facts.len() ==> #[trigger] facts[i].sanitized,
                    ..facts[0]
                },
                "String concatenation"@,
                location,
            ),
        )
    }
}

/// A method call through an object, plain or null-safe.
pub open spec fn is_method(kind: CallKind) -> bool {
    kind == CallKind::Method || kind == CallKind::NullsafeMethod
}

/// The display name of an object SQL sink, for a lower-cased normalized target.
pub open spec fn object_sink_name(n: Seq<char>) -> Option<Seq<char>> {
    if n == "pdo::exec"@ {
        Some("PDO::exec"@)
    } else if n == "pdo::prepare"@ {
        Some("PDO::prepare"@)
    } else if n == "pdo::query"@ {
        Some("PDO::query"@)
    } else if n == "mysqli::execute_query"@ {
        Some("mysqli::execute_query"@)
    } else if n == "mysqli::multi_query"@ {
        Some("mysqli::multi_query"@)
    } else if n == "mysqli::prepare"@ {
        Some("mysqli::prepare"@)
    } else if n == "mysqli::query"@ {
        Some("mysqli::query"@)
    } else if n == "mysqli::real_query"@ {
        Some("mysqli::real_query"@)
    } else {
        None
    }
}

/// The sink name and query-text argument of a PDO or mysqli query method call.
pub open spec fn object_sql_sink(target: Seq<char>, kind: CallKind, args: Seq<u32>) -> Option<
    (Seq<char>, u32),
> {
    if !is_method(kind) {
        None
    } else {
        match object_sink_name(lower(normalize_call(target))) {
            Some(sink) => if args.len() > 0 {
                Some((sink, args[0]))
            } else {
                None
            },
            None => None,
        }
    }
}

/// The argument that an SQL escaping method or function makes safe.
pub open spec fn object_sanitizer_argument(target: Seq<char>, kind: CallKind, args: Seq<u32>) -> Option<
    u32,
> {
    let n = lower(normalize_call(target));
    if is_method(kind) {
        if (n == "pdo::quote"@ || n == "mysqli::escape_string"@ || n
            == "mysqli::real_escape_string"@) && args.len() > 0 {
            Some(args[0])
        } else {
            None
        }
    } else if kind == CallKind::Function {
        sql_sanitizer_argument(target, args)
    } else {
        None
    }
}

/// The argument that a shell or HTML encoder passes through unchanged for SQL purposes.
pub open spec fn passthrough_argument(target: Seq<char>, kind: CallKind, args: Seq<u32>) -> Option<
    u32,
> {
    let n = lower(normalize_call(target));
    if kind == CallKind::Function && (n == "escapeshellarg"@ || n == "escapeshellcmd"@ || n
        == "htmlentities"@ || n == "htmlspecialchars"@) && args.len() > 0 {
        Some(args[0])
    } else {
        None
    }
}

/// The identifier of the object SQL rule.
pub open spec fn object_sql_rule_id() -> Seq<char> {
    "FERMIO-PHP-TAINT-SQL-OO-001"@
}

/// The finding of `fact` reaching the object SQL sink `sink` at `location`.
pub open spec fn object_sql_finding(fact: SqlFactView, sink: Seq<char>, location: LocationView) -> FindingView {
    FindingView {
        rule_id: object_sql_rule_id(),
        title: "User-controlled object SQL query"@,
        description: "Data originating from `"@ + fact.source + "` reaches `"@ + sink
            + "` without recognized SQL sanitization or a fixed query boundary."@,
        severity: Severity::Critical,
        confidence: Confidence::High,
        location,
        fingerprint: fingerprint_text(object_sql_rule_id(), sink + ":"@ + fact.source, location.path),
        cwe: Some("CWE-89"@),
        framework: None,
        dataflow: fact.steps.push(step(quoted("Object SQL query sink `"@, sink), location)),
    }
}

/// The state of the object SQL analysis of a module.
pub struct ObjectSqlModel {
    pub variables: Map<Seq<char>, SqlFactView>,
    pub saved: Seq<Map<Seq<char>, SqlFactView>>,
    pub taint: Map<u32, SqlFactView>,
    pub findings: Seq<FindingView>,
}

/// The state before the first instruction.
pub open spec fn object_sql_start() -> ObjectSqlModel {
    ObjectSqlModel {
        variables: Map::empty(),
        saved: seq![],
        taint: Map::empty(),
        findings: seq![],
    }
}

/// The effect of a call on the object SQL analysis.
pub open spec fn object_sql_call(
    st: ObjectSqlModel,
    output: u32,
    target: Seq<char>,
    kind: CallKind,
    args: Seq<u32>,
    location: LocationView,
) -> ObjectSqlModel {
    let display = normalize_call(target);
    match object_sanitizer_argument(target, kind, args) {
        Some(a) => if st.taint.contains_key(a) {
            let f = sql_extend(st.taint[a], quoted("Sanitized for SQL use by `"@, display), location);
            ObjectSqlModel {
                taint: st.taint.insert(output, SqlFactView { sanitized: true, ..f }),
                ..st
            }
        } else {
            st
        },
        None => {
            let st1 = match passthrough_argument(target, kind, args) {
                Some(a) => if st.taint.contains_key(a) {
                    ObjectSqlModel {
                        taint: st.taint.insert(
                            output,
                            sql_extend(st.taint[a], quoted("Passed through `"@, display), location),
                        ),
                        ..st
                    }
                } else {
                    st
                },
                None => st,
            };
            match object_sql_sink(target, kind, args) {
                Some((sink, a)) => if st1.taint.contains_key(a) && !st1.taint[a].sanitized {
                    ObjectSqlModel {
                        findings: st1.findings.push(object_sql_finding(st1.taint[a], sink, location)),
                        ..st1
                    }
                } else {
                    st1
                },
                None => st1,
            }
        },
    }
}

/// Entering a function: the caller's variables are saved and the function starts without any.
pub open spec fn object_sql_enter(st: ObjectSqlModel) -> ObjectSqlModel {
    ObjectSqlModel { variables: Map::empty(), saved: st.saved.push(st.variables), ..st }
}

/// Leaving a function: the most recently saved variables are restored, or none if none were saved.
pub open spec fn object_sql_leave(st: ObjectSqlModel) -> ObjectSqlModel {
    if st.saved.len() > 0 {
        ObjectSqlModel { variables: st.saved.last(), saved: st.saved.drop_last(), ..st }
    } else {
        ObjectSqlModel { variables: Map::empty(), ..st }
    }
}

/// The effect of one instruction on the object SQL analysis.
pub open spec fn object_sql_step(st: ObjectSqlModel, instruction: Instruction) -> ObjectSqlModel {
    match instruction {
        Instruction::FunctionStart { .. } => object_sql_enter(st),
        Instruction::FunctionEnd { .. } => object_sql_leave(st),
        Instruction::VariableRead { output, name, location } => if is_untrusted_superglobal(name@) {
            ObjectSqlModel {
                taint: st.taint.insert(output.0, sql_source_fact(name@, location@)),
                ..st
            }
        } else if st.variables.contains_key(name@) {
            ObjectSqlModel {
                taint: st.taint.insert(
                    output.0,
                    sql_extend(st.variables[name@], quoted("Read from `"@, name@), location@),
                ),
                ..st
            }
        } else {
            st
        },
        Instruction::Assignment { target, value, location } => if st.taint.contains_key(value.0) {
            ObjectSqlModel {
                variables: st.variables.insert(
                    target@,
                    sql_extend(st.taint[value.0], quoted("Assigned to `"@, target@), location@),
                ),
                ..st
            }
        } else {
            ObjectSqlModel { variables: st.variables.remove(target@), ..st }
        },
        Instruction::Concatenate { output, operands, location } => match concat_fact(
            tainted_operands(ids(operands@), st.taint),
            location@,
        ) {
            Some(f) => ObjectSqlModel { taint: st.taint.insert(output.0, f), ..st },
            None => st,
        },
        Instruction::IndexRead { output, collection, location, .. } => if st.taint.contains_key(
            collection.0,
        ) {
            ObjectSqlModel {
                taint: st.taint.insert(
                    output.0,
                    sql_extend(st.taint[collection.0], "Indexed value read"@, location@),
                ),
                ..st
            }
        } else {
            st
        },
        Instruction::Call { output, target, call_kind, arguments, location } => object_sql_call(
            st,
            output.0,
            target@,
            call_kind,
            ids(arguments@),
            location@,
        ),
        _ => st,
    }
}

/// The object SQL analysis after a list of instructions.
pub open spec fn object_sql_run(instructions: Seq<Instruction>) -> ObjectSqlModel
    decreases instructions.len(),
{
    if instructions.len() == 0 {
        object_sql_start()
    } else {
        object_sql_step(object_sql_run(instructions.drop_last()), instructions.last())
    }
}


/// The views of a map of facts.
pub open spec fn sql_facts_view<K>(m: Map<K, SqlTaintFact>) -> Map<K, SqlFactView> {
    m.map_values(|f: SqlTaintFact| f@)
}

impl SqlTaintFact {
    fn copy(&self) -> (r: Self)
        ensures
            r@ == self@,
    {
        SqlTaintFact { source: self.source.clone(), steps: copy_steps(&self.steps), sanitized: self.sanitized }
    }

    fn source_fact(source: &String, location: &SourceLocation) -> (r: Self)
        ensures
            r@ == sql_source_fact(source@, location@),
    {
        let mut steps: Vec<DataflowStep> = Vec::new();
        steps.push(
            DataflowStep {
                label: join3("Untrusted input from `", source.as_str(), "`"),
                location: location.copy(),
            },
        );
        let r = SqlTaintFact { source: source.clone(), steps, sanitized: false };
        assert(r@.steps =~= sql_source_fact(source@, location@).steps);
        r
    }

    fn propagated(&self, label: String, location: &SourceLocation) -> (r: Self)
        ensures
            r@ == sql_extend(self@, label@, location@),
    {
        let mut r = self.copy();
        r.steps.push(DataflowStep { label, location: location.copy() });
        assert(r@.steps =~= sql_extend(self@, label@, location@).steps);
        r
    }
}

struct ObjectSqlState {
    variables: StringHashMap<SqlTaintFact>,
    saved: Vec<StringHashMap<SqlTaintFact>>,
    taint: HashMap<u32, SqlTaintFact>,
    findings: Vec<Finding>,
}

impl ObjectSqlState {
    spec fn model(&self) -> ObjectSqlModel {
        ObjectSqlModel {
            variables: sql_facts_view(self.variables@),
            saved: self.saved@.map_values(|m: StringHashMap<SqlTaintFact>| sql_facts_view(m@)),
            taint: sql_facts_view(self.taint@),
            findings: self.findings.deep_view(),
        }
    }

    fn new() -> (r: Self)
        ensures
            r.model() == object_sql_start(),
    {
        let r = ObjectSqlState {
            variables: StringHashMap::new(),
            saved: Vec::new(),
            taint: HashMap::new(),
            findings: Vec::new(),
        };
        assert(r.model().variables =~= Map::<Seq<char>, SqlFactView>::empty());
        assert(r.model().saved =~= Seq::<Map<Seq<char>, SqlFactView>>::empty());
        assert(r.model().taint =~= Map::<u32, SqlFactView>::empty());
        assert(r.model().findings =~= Seq::<FindingView>::empty());
        r
    }

    fn set_taint(&mut self, value: u32, fact: SqlTaintFact)
        ensures
            final(self).model() == (ObjectSqlModel {
                taint: old(self).model().taint.insert(value, fact@),
                ..old(self).model()
            }),
    {
        self.taint.insert(value, fact);
        assert(sql_facts_view(self.taint@) =~= sql_facts_view(old(self).taint@).insert(value, fact@));
    }

    fn enter_function(&mut self)
        ensures
            final(self).model() == object_sql_enter(old(self).model()),
    {
        let mut fresh: StringHashMap<SqlTaintFact> = StringHashMap::new();
        std::mem::swap(&mut fresh, &mut self.variables);
        self.saved.push(fresh);
        assert(sql_facts_view(self.variables@) =~= Map::<Seq<char>, SqlFactView>::empty());
        assert(self.model().saved =~= old(self).model().saved.push(old(self).model().variables));
    }

    fn leave_function(&mut self)
        ensures
            final(self).model() == object_sql_leave(old(self).model()),
    {
        match self.saved.pop() {
            Some(m) => {
                self.variables = m;
                assert(self.model().saved =~= old(self).model().saved.drop_last());
            },
            None => {
                self.variables = StringHashMap::new();
                assert(sql_facts_view(self.variables@) =~= Map::<Seq<char>, SqlFactView>::empty());
            },
        }
    }

    fn read_variable(&mut self, output: u32, name: &String, location: &SourceLocation)
        ensures
            final(self).model() == object_sql_step(
                old(self).model(),
                Instruction::VariableRead { output: ValueId(output), name: *name, location: *location },
            ),
    {
        if untrusted_superglobal(name.as_str()) {
            self.set_taint(output, SqlTaintFact::source_fact(name, location));
        } else {
            match self.variables.get(name.as_str()) {
                Some(f) => {
                    let g = f.propagated(join3("Read from `", name.as_str(), "`"), location);
                    self.set_taint(output, g);
                },
                None => {},
            }
        }
    }

    fn assign(&mut self, target: &String, value: u32, location: &SourceLocation)
        ensures
            final(self).model() == object_sql_step(
                old(self).model(),
                Instruction::Assignment { target: *target, value: ValueId(value), location: *location },
            ),
    {
        match self.taint.get(&value) {
            Some(f) => {
                let g = f.propagated(join3("Assigned to `", target.as_str(), "`"), location);
                let ghost gv = g@;
                self.variables.insert(target.clone(), g);
                assert(sql_facts_view(self.variables@) =~= sql_facts_view(old(self).variables@).insert(
                    target@,
                    gv,
                ));
            },
            None => {
                self.variables.remove(target.as_str());
                assert(sql_facts_view(self.variables@) =~= sql_facts_view(old(self).variables@).remove(
                    target@,
                ));
            },
        }
    }

    fn index_read(&mut self, output: u32, collection: u32, location: &SourceLocation)
        ensures
            final(self).model() == (if old(self).model().taint.contains_key(collection) {
                ObjectSqlModel {
                    taint: old(self).model().taint.insert(
                        output,
                        sql_extend(
                            old(self).model().taint[collection],
                            "Indexed value read"@,
                            location@,
                        ),
                    ),
                    ..old(self).model()
                }
            } else {
                old(self).model()
            }),
    {
        match self.taint.get(&collection) {
            Some(f) => {
                let g = f.propagated(owned("Indexed value read"), location);
                self.set_taint(output, g);
            },
            None => {},
        }
    }

    fn concatenate(&mut self, output: u32, operands: &Vec<ValueId>, location: &SourceLocation)
        ensures
            final(self).model() == object_sql_step(
                old(self).model(),
                Instruction::Concatenate {
                    output: ValueId(output),
                    operands: *operands,
                    location: *location,
                },
            ),
    {
        let ghost ops = ids(operands@);
        let ghost taint = self.model().taint;
        let mut first: Option<SqlTaintFact> = None;
        let mut all_sanitized = true;
        let mut i: usize = 0;
        while i < operands.len()
            invariant
                i <= operands.len(),
                ops == ids(operands@),
                taint == self.model().taint,
                self.model() == old(self).model(),
                ({
                    let facts = tainted_operands(ops.subrange(0, i as int), taint);
                    &&& match first {
                        Some(f) => facts.len() > 0 && f@ == facts[0],
                        None => facts.len() == 0,
                    }
                    &&& all_sanitized == forall|j: int|
                        0 <= j < facts.len() ==> #[trigger] facts[j].sanitized
                }),
            decreases operands.len() - i,
        {
            let ghost prev = tainted_operands(ops.subrange(0, i as int), taint);
            let ghost s = ops.subrange(0, i + 1);
            assert(s.drop_last() =~= ops.subrange(0, i as int));
            assert(s.last() == operands@[i as int].0);
            match self.taint.get(&operands[i].0) {
                Some(f) => {
                    let ghost next = prev.push(f@);
                    assert(tainted_operands(s, taint) == next);
                    if first.is_none() {
                        first = Some(f.copy());
                    }
                    all_sanitized = all_sanitized && f.sanitized;
                    assert(all_sanitized == forall|j: int|
                        0 <= j < next.len() ==> #[trigger] next[j].sanitized) by {
                        if all_sanitized {
                            assert forall|j: int| 0 <= j < next.len() implies #[trigger] next[j].sanitized by {
                                if j < prev.len() {
                                    assert(next[j] == prev[j]);
                                }
                            }
                        } else if !f.sanitized {
                            assert(!next[next.len() - 1].sanitized);
                        } else {
                            let k = choose|k: int| 0 <= k < prev.len() && !(#[trigger] prev[k].sanitized);
                            assert(next[k] == prev[k]);
                        }
                    }
                },
                None => {
                    assert(tainted_operands(s, taint) == prev);
                },
            }
            i += 1;
        }
        assert(ops.subrange(0, operands.len() as int) =~= ops);
        match first {
            Some(f) => {
                let mut merged = f;
                merged.sanitized = all_sanitized;
                let g = merged.propagated(owned("String concatenation"), location);
                self.set_taint(output, g);
            },
            None => {},
        }
    }
}

fn object_sink_name_exec(n: &str) -> (r: Option<&'static str>)
    ensures
        match r {
            Some(s) => object_sink_name(n@) == Some(s@),
            None => object_sink_name(n@) is None,
        },
{
    if same(n, "pdo::exec") {
        Some("PDO::exec")
    } else if same(n, "pdo::prepare") {
        Some("PDO::prepare")
    } else if same(n, "pdo::query") {
        Some("PDO::query")
    } else if same(n, "mysqli::execute_query") {
        Some("mysqli::execute_query")
    } else if same(n, "mysqli::multi_query") {
        Some("mysqli::multi_query")
    } else if same(n, "mysqli::prepare") {
        Some("mysqli::prepare")
    } else if same(n, "mysqli::query") {
        Some("mysqli::query")
    } else if same(n, "mysqli::real_query") {
        Some("mysqli::real_query")
    } else {
        None
    }
}

fn is_method_exec(kind: CallKind) -> (r: bool)
    ensures
        r == is_method(kind),
{
    kind == CallKind::Method || kind == CallKind::NullsafeMethod
}

fn object_sql_sink_exec(target: &str, kind: CallKind, args: &Vec<ValueId>) -> (r: Option<
    (&'static str, u32),
>)
    ensures
        match r {
            Some((s, a)) => object_sql_sink(target@, kind, ids(args@)) == Some((s@, a)),
            None => object_sql_sink(target@, kind, ids(args@)) is None,
        },
{
    if !is_method_exec(kind) {
        return None;
    }
    let n = normalized_call_name(target);
    match object_sink_name_exec(n.as_str()) {
        Some(sink) => if args.len() > 0 {
            Some((sink, args[0].0))
        } else {
            None
        },
        None => None,
    }
}

fn object_sanitizer_argument_exec(target: &str, kind: CallKind, args: &Vec<ValueId>) -> (r: Option<u32>)
    ensures
        r == object_sanitizer_argument(target@, kind, ids(args@)),
{
    let n = normalized_call_name(target);
    let n = n.as_str();
    if is_method_exec(kind) {
        if (same(n, "pdo::quote") || same(n, "mysqli::escape_string") || same(
            n,
            "mysqli::real_escape_string",
        )) && args.len() > 0 {
            Some(args[0].0)
        } else {
            None
        }
    } else if kind == CallKind::Function {
        sql_sanitizer_argument_exec(target, args)
    } else {
        None
    }
}

fn passthrough_argument_exec(target: &str, kind: CallKind, args: &Vec<ValueId>) -> (r: Option<u32>)
    ensures
        r == passthrough_argument(target@, kind, ids(args@)),
{
    let n = normalized_call_name(target);
    let n = n.as_str();
    if kind == CallKind::Function && (same(n, "escapeshellarg") || same(n, "escapeshellcmd") || same(
        n,
        "htmlentities",
    ) || same(n, "htmlspecialchars")) && args.len() > 0 {
        Some(args[0].0)
    } else {
        None
    }
}

fn object_sql_finding_exec(fact: &SqlTaintFact, sink: &str, location: &SourceLocation) -> (r: Finding)
    ensures
        r@ == object_sql_finding(fact@, sink@, location@),
{
    let mut dataflow = copy_steps(&fact.steps);
    dataflow.push(
        DataflowStep { label: join3("Object SQL query sink `", sink, "`"), location: location.copy() },
    );
    let mut description = join3("Data originating from `", fact.source.as_str(), "` reaches `");
    description.append(sink);
    description.append("` without recognized SQL sanitization or a fixed query boundary.");
    let anchor = join3(sink, ":", fact.source.as_str());
    let r = Finding {
        rule_id: owned("FERMIO-PHP-TAINT-SQL-OO-001"),
        title: owned("User-controlled object SQL query"),
        description,
        severity: Severity::Critical,
        confidence: Confidence::High,
        location: location.copy(),
        fingerprint: fingerprint("FERMIO-PHP-TAINT-SQL-OO-001", anchor.as_str(), location),
        cwe: Some(owned("CWE-89")),
        framework: None,
        dataflow,
    };
    assert(r@.dataflow =~= object_sql_finding(fact@, sink@, location@).dataflow);
    r
}

impl ObjectSqlState {
    fn call(
        &mut self,
        output: u32,
        target: &String,
        kind: CallKind,
        args: &Vec<ValueId>,
        location: &SourceLocation,
    )
        ensures
            final(self).model() == object_sql_call(
                old(self).model(),
                output,
                target@,
                kind,
                ids(args@),
                location@,
            ),
    {
        let display = normalize_call_exec(target.as_str());
        match object_sanitizer_argument_exec(target.as_str(), kind, args) {
            Some(a) => {
                match self.taint.get(&a) {
                    Some(f) => {
                        let mut g = f.propagated(
                            join3("Sanitized for SQL use by `", display.as_str(), "`"),
                            location,
                        );
                        g.sanitized = true;
                        self.set_taint(output, g);
                    },
                    None => {},
                }
                return;
            },
            None => {},
        }
        match passthrough_argument_exec(target.as_str(), kind, args) {
            Some(a) => {
                match self.taint.get(&a) {
                    Some(f) => {
                        let g = f.propagated(join3("Passed through `", display.as_str(), "`"), location);
                        self.set_taint(output, g);
                    },
                    None => {},
                }
            },
            None => {},
        }
        match object_sql_sink_exec(target.as_str(), kind, args) {
            Some((sink, a)) => {
                match self.taint.get(&a) {
                    Some(f) => {
                        if !f.sanitized {
                            let finding = object_sql_finding_exec(f, sink, location);
                            let ghost before = self.findings.deep_view();
                            self.findings.push(finding);
                            assert(self.findings.deep_view() =~= before.push(finding@));
                        }
                    },
                    None => {},
                }
            },
            None => {},
        }
    }

    fn step(&mut self, instruction: &Instruction)
        ensures
            final(self).model() == object_sql_step(old(self).model(), *instruction),
    {
        match instruction {
            Instruction::FunctionStart { .. } => self.enter_function(),
            Instruction::FunctionEnd { .. } => self.leave_function(),
            Instruction::VariableRead { output, name, location } => self.read_variable(
                output.0,
                name,
                location,
            ),
            Instruction::Assignment { target, value, location } => self.assign(
                target,
                value.0,
                location,
            ),
            Instruction::Concatenate { output, operands, location } => self.concatenate(
                output.0,
                operands,
                location,
            ),
            Instruction::IndexRead { output, collection, location, .. } => self.index_read(
                output.0,
                collection.0,
                location,
            ),
            Instruction::Call { output, target, call_kind, arguments, location } => self.call(
                output.0,
                target,
                *call_kind,
                arguments,
                location,
            ),
            _ => {},
        }
    }
}

/// The object SQL findings of a module, in the order of its instructions.
pub fn analyze_module(module: &ModuleIr) -> (r: Vec<Finding>)
    ensures
        r.deep_view() == object_sql_run(module.instructions@).findings,
{
    let mut st = ObjectSqlState::new();
    let mut i: usize = 0;
    while i < module.instructions.len()
        invariant
            i <= module.instructions.len(),
            st.model() == object_sql_run(module.instructions@.subrange(0, i as int)),
        decreases module.instructions.len() - i,
    {
        st.step(&module.instructions[i]);
        proof {
            let s = module.instructions@.subrange(0, i + 1);
            assert(s.drop_last() =~= module.instructions@.subrange(0, i as int));
            assert(s.last() == module.instructions@[i as int]);
        }
        i += 1;
    }
    assert(module.instructions@.subrange(0, module.instructions@.len() as int)
        =~= module.instructions@);
    st.findings
}

/// Untrusted data reaching the query text of a PDO or mysqli object.
pub struct ObjectSqlTaintRule;

impl Rule for ObjectSqlTaintRule {
    open spec fn rule_id(&self) -> Seq<char> {
        object_sql_rule_id()
    }

    open spec fn findings_on(&self, module: ModuleIr) -> Seq<FindingView> {
        object_sql_run(module.instructions@).findings
    }

    fn id(&self) -> (r: &'static str) {
        "FERMIO-PHP-TAINT-SQL-OO-001"
    }

    fn evaluate(&self, analysis: &ModuleAnalysis<'_>) -> (r: Vec<Finding>) {
        analyze_module(analysis.module())
    }
}

/// The object SQL rule, as the rule list of this module.
pub fn built_in_rules() -> (r: Vec<crate::rules::AnyRule>)
    ensures
        r@.len() == 1,
        r@[0] is ObjectSql,
{
    let mut r: Vec<crate::rules::AnyRule> = Vec::new();
    r.push(crate::rules::AnyRule::ObjectSql(ObjectSqlTaintRule));
    r
}

} // verus!
