//! Properties that relate several operations of the library: baselines, severity overrides,
//! fingerprints, failure thresholds, the taint analyses, declarative rules and the lowering.
use crate::cli::{override_for, overridden_all, reaches_threshold, stable_arrangement};
use crate::findings::{
    fingerprints_of, severity_rank, unknown_findings, Finding, FindingView, Severity,
    SourceLocation,
};
use crate::fingerprint::fingerprint_text;
use crate::ir::{
    ids, CallKind, Instruction, InstructionView, LiteralValue, ModuleIr, OutputKind, ValueId,
};
use crate::object_sql::{
    object_sanitizer_argument, object_sql_call, object_sql_finding, object_sql_sink,
    object_sql_step, passthrough_argument, ObjectSqlModel,
};
use crate::php::{
    assignment_model, call_target_of, echo_model, field_child, field_text, function_model,
    first_where, framework_list, inferred_class, simple_variable_name, text_of, LowerState,
};
use crate::analysis::resolve_constant;
use crate::rulepack::{
    declarative_findings, instantiated, matcher_accepts, ArgumentMatcher, DeclarativeCallRule,
    RuleDefView,
};
use crate::rules::{
    is_likely_secret, is_secret_name, secret_finding, secret_findings, secret_name_patterns,
    secret_step, word_chars, HardcodedSecretRule, Rule,
};
use crate::scope::{
    call_step, operand_facts, same_statement, scope_step, summary_sink_events, ScopeModel,
    SinkDepView, SummaryView,
};
use crate::syntax::{SyntaxChild, SyntaxNode};
use crate::findings::LocationView;
use crate::taint::{
    active, command_functions, command_sanitizers, common_domains, extend, first_argument_of,
    first_match, has_domain, html_sanitizers, sink_event, sink_label, sql_sanitizer_argument,
    sql_sink_argument, EventView, FactView, SinkView, TaintDomain,
};
use crate::text::{eq_ignore_case, has_infix, lower, normalize_call, slashes};
use vstd::prelude::*;

verus! {

// ---------------------------------------------------------------------------------------------
// Baselines
/// A baseline that knows the fingerprint of every finding suppresses all of them. In particular
/// the baseline that `FindingBaseline::from_result` makes of a result, applied to that result,
/// leaves no finding.
pub proof fn law_baseline_suppresses_known_findings(findings: Seq<Finding>, known: Seq<Seq<char>>)
    requires
        forall|i: int| 0 <= i < findings.len() ==> known.contains(#[trigger] findings[i].fingerprint@),
    ensures
        unknown_findings(findings, known) == Seq::<Finding>::empty(),
    decreases findings.len(),
{
    if findings.len() > 0 {
        let prefix = findings.drop_last();
        assert forall|i: int| 0 <= i < prefix.len() implies known.contains(
            #[trigger] prefix[i].fingerprint@,
        ) by {
            assert(prefix[i] == findings[i]);
        }
        law_baseline_suppresses_known_findings(prefix, known);
        assert(known.contains(findings[findings.len() - 1].fingerprint@));
    }
}

/// The baseline that `FindingBaseline::from_result` makes of some findings knows every one of
/// them: its fingerprints are exactly theirs.
pub proof fn law_baseline_of_findings_knows_them(findings: Seq<Finding>, known: Seq<Seq<char>>)
    requires
        forall|t: Seq<char>| #[trigger] known.contains(t) <==> fingerprints_of(findings).contains(t),
    ensures
        unknown_findings(findings, known) == Seq::<Finding>::empty(),
{
    assert forall|i: int| 0 <= i < findings.len() implies known.contains(
        #[trigger] findings[i].fingerprint@,
    ) by {
        assert(fingerprints_of(findings)[i] == findings[i].fingerprint@);
        assert(fingerprints_of(findings).contains(findings[i].fingerprint@));
    }
    law_baseline_suppresses_known_findings(findings, known);
}

/// Applying a baseline keeps exactly the findings whose fingerprint it does not know, and
/// applying it a second time changes nothing.
pub proof fn law_baseline_keeps_new_findings(findings: Seq<Finding>, known: Seq<Seq<char>>)
    ensures
        forall|f: Finding|
            #[trigger] unknown_findings(findings, known).contains(f) <==> (findings.contains(f)
                && !known.contains(f.fingerprint@)),
        unknown_findings(unknown_findings(findings, known), known) == unknown_findings(
            findings,
            known,
        ),
        unknown_findings(findings, known).len() <= findings.len(),
    decreases findings.len(),
{
    if findings.len() > 0 {
        let prefix = findings.drop_last();
        let last = findings.last();
        law_baseline_keeps_new_findings(prefix, known);
        let rest = unknown_findings(prefix, known);
        assert forall|f: Finding| #[trigger]
            unknown_findings(findings, known).contains(f) <==> (findings.contains(f)
                && !known.contains(f.fingerprint@)) by {
            if findings.contains(f) {
                let k = choose|k: int| 0 <= k < findings.len() && findings[k] == f;
                if k < prefix.len() {
                    assert(prefix[k] == f);
                }
            }
            if prefix.contains(f) {
                let k = choose|k: int| 0 <= k < prefix.len() && prefix[k] == f;
                assert(findings[k] == f);
            }
            if !known.contains(last.fingerprint@) {
                assert(rest.push(last)[rest.len() as int] == last);
                if rest.push(last).contains(f) {
                    let k = choose|k: int| 0 <= k < rest.len() + 1 && rest.push(last)[k] == f;
                    if k < rest.len() {
                        assert(rest[k] == f);
                    }
                }
                if rest.contains(f) {
                    let k = choose|k: int| 0 <= k < rest.len() && rest[k] == f;
                    assert(rest.push(last)[k] == f);
                }
            }
            assert(findings[findings.len() - 1] == last);
        }
        if !known.contains(last.fingerprint@) {
            let pushed = rest.push(last);
            assert(pushed.drop_last() =~= rest);
            assert(pushed.last() == last);
        }
    }
}

// ---------------------------------------------------------------------------------------------
// Severity overrides
/// Severity overrides change nothing of a finding but its severity: each reported finding is an
/// input finding, with the same rule, location and fingerprint, and with the severity that the
/// first override of its rule names, if any. Fingerprints, and so baselines, are unaffected.
pub proof fn law_overrides_keep_fingerprints(
    out: Seq<Finding>,
    input: Seq<Finding>,
    overrides: Seq<(String, Severity)>,
    perm: Seq<int>,
)
    requires
        stable_arrangement(out, overridden_all(input, overrides), perm),
    ensures
        out.len() == input.len(),
        forall|i: int|
            0 <= i < out.len() ==> #[trigger] out[i] == (Finding {
                severity: override_for(overrides, input[perm[i]].rule_id@, input[perm[i]].severity),
                ..input[perm[i]]
            }),
        forall|i: int|
            0 <= i < out.len() ==> (#[trigger] out[i]).fingerprint@ == input[perm[i]].fingerprint@,
        forall|t: Seq<char>| #[trigger]
            fingerprints_of(out).contains(t) ==> fingerprints_of(input).contains(t),
{
    let all = overridden_all(input, overrides);
    assert forall|i: int| 0 <= i < out.len() implies #[trigger] out[i] == (Finding {
        severity: override_for(overrides, input[perm[i]].rule_id@, input[perm[i]].severity),
        ..input[perm[i]]
    }) by {
        assert(out[i] == all[perm[i]]);
    }
    assert forall|t: Seq<char>| #[trigger]
        fingerprints_of(out).contains(t) implies fingerprints_of(input).contains(t) by {
        let k = choose|k: int| 0 <= k < fingerprints_of(out).len() && fingerprints_of(out)[k] == t;
        assert(out[k] == all[perm[k]]);
        assert(fingerprints_of(input)[perm[k]] == t);
    }
}

/// With rule identifiers that occur once, as a valid configuration's do, the overrides act as
/// a map from rule to severity: a rule listed with a severity gets that severity, and a rule
/// not listed keeps its own.
pub proof fn law_overrides_act_as_map(
    overrides: Seq<(String, Severity)>,
    id: Seq<char>,
    own: Severity,
)
    requires
        forall|a: int, b: int|
            0 <= a < b < overrides.len() ==> (#[trigger] overrides[a]).0@ != (
            #[trigger] overrides[b]).0@,
    ensures
        forall|k: int|
            0 <= k < overrides.len() && (#[trigger] overrides[k]).0@ == id ==> override_for(
                overrides,
                id,
                own,
            ) == overrides[k].1,
        (forall|k: int| 0 <= k < overrides.len() ==> (#[trigger] overrides[k]).0@ != id)
            ==> override_for(overrides, id, own) == own,
    decreases overrides.len(),
{
    if overrides.len() > 0 {
        let rest = overrides.drop_first();
        assert forall|a: int, b: int| 0 <= a < b < rest.len() implies (#[trigger] rest[a]).0@
            != (#[trigger] rest[b]).0@ by {
            assert(rest[a] == overrides[a + 1] && rest[b] == overrides[b + 1]);
        }
        law_overrides_act_as_map(rest, id, own);
        assert forall|k: int|
            0 <= k < overrides.len() && (#[trigger] overrides[k]).0@ == id implies override_for(
                overrides,
                id,
                own,
            ) == overrides[k].1 by {
            if k > 0 {
                assert(rest[k - 1] == overrides[k]);
                assert(overrides[0].0@ != overrides[k].0@);
            }
        }
        if forall|k: int| 0 <= k < overrides.len() ==> (#[trigger] overrides[k]).0@ != id {
            assert(overrides[0].0@ != id);
            assert forall|k: int| 0 <= k < rest.len() implies (#[trigger] rest[k]).0@ != id by {
                assert(rest[k] == overrides[k + 1]);
            }
        }
    }
}

// ---------------------------------------------------------------------------------------------
// Fingerprints
/// A fingerprint depends on the rule, the anchor and the path with backslashes read as
/// slashes: not on line or column, and not on the path separator the platform wrote.
pub proof fn law_fingerprint_ignores_separators(
    rule_id: Seq<char>,
    anchor: Seq<char>,
    path: Seq<char>,
    other_path: Seq<char>,
)
    requires
        slashes(path) == slashes(other_path),
    ensures
        fingerprint_text(rule_id, anchor, path) == fingerprint_text(rule_id, anchor, other_path),
{
}

// ---------------------------------------------------------------------------------------------
// Failure thresholds
/// A scan that fails a threshold also fails every lower threshold, and findings that a baseline
/// suppresses can no longer make a scan fail: only new findings reach the threshold.
pub proof fn law_threshold_monotone(
    findings: Seq<Finding>,
    known: Seq<Seq<char>>,
    threshold: Severity,
    lower: Severity,
)
    ensures
        reaches_threshold(findings, threshold) && severity_rank(lower) <= severity_rank(threshold)
            ==> reaches_threshold(findings, lower),
        reaches_threshold(unknown_findings(findings, known), threshold) ==> reaches_threshold(
            findings,
            threshold,
        ),
{
    law_baseline_keeps_new_findings(findings, known);
    let kept = unknown_findings(findings, known);
    if reaches_threshold(kept, threshold) {
        let i = choose|i: int|
            0 <= i < kept.len() && severity_rank(#[trigger] kept[i].severity) >= severity_rank(
                threshold,
            );
        assert(kept.contains(kept[i]));
        let k = choose|k: int| 0 <= k < findings.len() && findings[k] == kept[i];
        assert(severity_rank(findings[k].severity) >= severity_rank(threshold));
    }
}

// ---------------------------------------------------------------------------------------------
// Taint analysis
/// The argument that a direct call makes safe for `domain`, as the analysis reads calls: a
/// shell escaping function first, then an HTML encoder, then an SQL escaping function.
pub open spec fn sanitized_argument(target: Seq<char>, args: Seq<u32>, domain: TaintDomain) -> Option<
    u32,
> {
    match first_argument_of(target, command_sanitizers(), args) {
        Some(a) => if domain == TaintDomain::Command {
            Some(a)
        } else {
            None
        },
        None => match first_argument_of(target, html_sanitizers(), args) {
            Some(a) => if domain == TaintDomain::Html {
                Some(a)
            } else {
                None
            },
            None => if domain == TaintDomain::Sql {
                sql_sanitizer_argument(target, args)
            } else {
                None
            },
        },
    }
}

/// Sanitization is specific to its domain: the result of a sanitizing call on tainted data is
/// tainted data from the same source, safe in the sanitizer's domain and exactly as dangerous
/// as the argument in every other domain.
pub proof fn law_sanitization_is_domain_specific(
    st: ScopeModel,
    output: u32,
    target: Seq<char>,
    args: Seq<u32>,
    location: crate::findings::LocationView,
    summaries: Map<Seq<char>, SummaryView>,
    domain: TaintDomain,
    other: TaintDomain,
)
    requires
        sanitized_argument(target, args, domain) is Some,
        st.taint.contains_key(sanitized_argument(target, args, domain)->0),
        other != domain,
    ensures
        call_step(st, output, target, args, location, summaries).taint.contains_key(output),
        !active(call_step(st, output, target, args, location, summaries).taint[output], domain),
        active(call_step(st, output, target, args, location, summaries).taint[output], other)
            == active(st.taint[sanitized_argument(target, args, domain)->0], other),
        call_step(st, output, target, args, location, summaries).taint[output].source
            == st.taint[sanitized_argument(target, args, domain)->0].source,
{
}

/// An `echo` or `print` statement reports at most one HTML event, however many values it
/// writes, and changes no taint: the value that `print` returns is not tainted by what it
/// printed.
pub proof fn law_output_reports_at_most_once(
    st: ScopeModel,
    output: Option<ValueId>,
    output_kind: OutputKind,
    values: Vec<ValueId>,
    location: SourceLocation,
    summaries: Map<Seq<char>, SummaryView>,
    initial: Map<Seq<char>, FactView>,
)
    ensures
        scope_step(
            st,
            Instruction::Output { output, output_kind, values, location },
            summaries,
            initial,
        ).taint == st.taint,
        scope_step(
            st,
            Instruction::Output { output, output_kind, values, location },
            summaries,
            initial,
        ).events.len() <= st.events.len() + 1,
        scope_step(
            st,
            Instruction::Output { output, output_kind, values, location },
            summaries,
            initial,
        ).events.subrange(0, st.events.len() as int) == st.events,
{
    let r = scope_step(
        st,
        Instruction::Output { output, output_kind, values, location },
        summaries,
        initial,
    );
    assert(r.events.subrange(0, st.events.len() as int) =~= st.events);
}

/// A call to a summarized function reports each sink statement inside the function at most
/// once, however many of its parameters reach it: no two events of the call have the same
/// domain, sink and statement. With the rule for direct `echo` and `print` above, an output
/// statement gives at most one finding per call, also when it is reached through a helper.
pub proof fn law_summary_reports_each_statement_once(
    deps: Seq<SinkDepView>,
    name: Seq<char>,
    args: Seq<u32>,
    taint: Map<u32, FactView>,
    location: crate::findings::LocationView,
)
    ensures
        forall|i: int, j: int|
            0 <= i < j < summary_sink_events(deps, name, args, taint, location).len()
                ==> !same_statement(
                #[trigger] summary_sink_events(deps, name, args, taint, location)[i],
                #[trigger] summary_sink_events(deps, name, args, taint, location)[j],
            ),
    decreases deps.len(),
{
    if deps.len() > 0 {
        law_summary_reports_each_statement_once(deps.drop_last(), name, args, taint, location);
        let prev = summary_sink_events(deps.drop_last(), name, args, taint, location);
        let evs = summary_sink_events(deps, name, args, taint, location);
        assert forall|i: int, j: int| 0 <= i < j < evs.len() implies !same_statement(
            #[trigger] evs[i],
            #[trigger] evs[j],
        ) by {
            if j < prev.len() {
                assert(evs[i] == prev[i] && evs[j] == prev[j]);
            } else {
                assert(evs[i] == prev[i]);
            }
        }
    }
}

proof fn lemma_common_domains(facts: Seq<FactView>, domain: TaintDomain)
    ensures
        has_domain(common_domains(facts), domain) <==> forall|i: int|
            0 <= i < facts.len() ==> has_domain(#[trigger] facts[i].sanitized_for, domain),
    decreases facts.len(),
{
    if facts.len() > 0 {
        let prefix = facts.drop_last();
        lemma_common_domains(prefix, domain);
        if forall|i: int| 0 <= i < prefix.len() ==> has_domain(#[trigger] prefix[i].sanitized_for, domain) {
            assert forall|i: int| 0 <= i < facts.len() - 1 implies has_domain(
                #[trigger] facts[i].sanitized_for,
                domain,
            ) by {
                assert(prefix[i] == facts[i]);
            }
        } else {
            let k = choose|k: int|
                0 <= k < prefix.len() && !has_domain(#[trigger] prefix[k].sanitized_for, domain);
            assert(facts[k] == prefix[k]);
        }
        assert(facts.last() == facts[facts.len() - 1]);
    }
}

/// A concatenation with a tainted operand is tainted, and it is dangerous in a domain as soon
/// as one of its tainted operands is: it counts as sanitized for a domain only when every
/// tainted operand is.
pub proof fn law_concatenation_keeps_danger(
    st: ScopeModel,
    output: ValueId,
    operands: Vec<ValueId>,
    location: SourceLocation,
    summaries: Map<Seq<char>, SummaryView>,
    initial: Map<Seq<char>, FactView>,
    domain: TaintDomain,
)
    requires
        operand_facts(ids(operands@), st.taint).len() > 0,
    ensures
        scope_step(
            st,
            Instruction::Concatenate { output, operands, location },
            summaries,
            initial,
        ).taint.contains_key(output.0),
        active(
            scope_step(
                st,
                Instruction::Concatenate { output, operands, location },
                summaries,
                initial,
            ).taint[output.0],
            domain,
        ) <==> exists|i: int|
            0 <= i < operand_facts(ids(operands@), st.taint).len() && active(
                #[trigger] operand_facts(ids(operands@), st.taint)[i],
                domain,
            ),
{
    let facts = operand_facts(ids(operands@), st.taint);
    lemma_common_domains(facts, domain);
    if !has_domain(common_domains(facts), domain) {
        let k = choose|k: int| 0 <= k < facts.len() && !has_domain(#[trigger] facts[k].sanitized_for, domain);
        assert(active(facts[k], domain));
    }
}

// ---------------------------------------------------------------------------------------------
// Object SQL analysis
/// Shell escaping and HTML encoding do not make data safe for SQL: the result of such a call on
/// tainted data is exactly as dangerous for object SQL sinks as its argument.
pub proof fn law_other_escaping_keeps_sql_taint(
    st: ObjectSqlModel,
    output: u32,
    target: Seq<char>,
    kind: CallKind,
    args: Seq<u32>,
    location: crate::findings::LocationView,
)
    requires
        passthrough_argument(target, kind, args) is Some,
        st.taint.contains_key(passthrough_argument(target, kind, args)->0),
    ensures
        object_sql_call(st, output, target, kind, args, location).taint.contains_key(output),
        object_sql_call(st, output, target, kind, args, location).taint[output].sanitized
            == st.taint[passthrough_argument(target, kind, args)->0].sanitized,
{
    let n = crate::text::lower(crate::text::normalize_call(target));
    assert(n[0] == 'e' || n[0] == 'h') by {
        reveal_strlit("escapeshellarg");
        reveal_strlit("escapeshellcmd");
        reveal_strlit("htmlentities");
        reveal_strlit("htmlspecialchars");
    }
    assert(sql_sanitizer_argument(target, args) is None) by {
        reveal_strlit("mysql_real_escape_string");
        reveal_strlit("mysqli_escape_string");
        reveal_strlit("mysqli_real_escape_string");
        reveal_strlit("pg_escape_identifier");
        reveal_strlit("pg_escape_literal");
        reveal_strlit("pg_escape_string");
    }
}

// ---------------------------------------------------------------------------------------------
// SQL query functions and methods
/// The lower-cased name of a direct PostgreSQL query function whose SQL text is its last
/// argument.
pub open spec fn postgres_last_argument_query(n: Seq<char>) -> bool {
    n == "pg_prepare"@ || n == "pg_query"@ || n == "pg_send_query"@
}

/// A direct call of `pg_query`, `pg_prepare` or `pg_send_query` (in any ASCII case, with or
/// without leading backslashes) checks its last argument as the SQL text: when that argument
/// carries taint not made safe for SQL, the call reports that taint at the call as an SQL sink
/// event right after the events before it, and, unless the project defines a function of that
/// name, that event is the only one the call adds.
pub proof fn law_postgres_query_checks_last_argument(
    st: ScopeModel,
    output: u32,
    target: Seq<char>,
    args: Seq<u32>,
    location: LocationView,
    summaries: Map<Seq<char>, SummaryView>,
)
    requires
        postgres_last_argument_query(lower(normalize_call(target))),
        args.len() > 0,
        st.taint.contains_key(args.last()),
        active(st.taint[args.last()], TaintDomain::Sql),
    ensures
        ({
            let after = call_step(st, output, target, args, location, summaries).events;
            let reported = EventView {
                domain: TaintDomain::Sql,
                sink: SinkView::Sql(normalize_call(target)),
                fact: extend(
                    st.taint[args.last()],
                    sink_label(SinkView::Sql(normalize_call(target))),
                    location,
                ),
                location,
            };
            &&& after.len() > st.events.len()
            &&& after.subrange(0, st.events.len() + 1int) == st.events.push(reported)
            &&& !summaries.contains_key(lower(normalize_call(target))) ==> after == st.events.push(
                reported,
            )
        }),
{
    let n = lower(normalize_call(target));
    reveal_strlit("pg_prepare");
    reveal_strlit("pg_query");
    reveal_strlit("pg_send_query");
    reveal_strlit("mysql_query");
    reveal_strlit("mysqli_execute_query");
    reveal_strlit("mysqli_multi_query");
    reveal_strlit("mysqli_query");
    reveal_strlit("mysqli_real_query");
    reveal_strlit("odbc_exec");
    reveal_strlit("sqlsrv_prepare");
    reveal_strlit("sqlsrv_query");
    assert(n[0] == 'p' && n[1] == 'g');
    assert(sql_sink_argument(target, args) == Some(args.last()));
    assert(first_argument_of(target, command_functions(), args) is None) by {
        reveal_strlit("exec");
        reveal_strlit("passthru");
        reveal_strlit("popen");
        reveal_strlit("proc_open");
        reveal_strlit("shell_exec");
        reveal_strlit("system");
        let names = command_functions();
        assert(lower(names[0]) != n) by { assert(lower(names[0]).len() == 4); }
        assert(lower(names[1]) != n) by { assert(lower(names[1])[1] == 'a'); }
        assert(lower(names[2]) != n) by { assert(lower(names[2])[1] == 'o'); }
        assert(lower(names[3]) != n) by { assert(lower(names[3])[1] == 'r'); }
        assert(lower(names[4]) != n) by { assert(lower(names[4])[0] == 's'); }
        assert(lower(names[5]) != n) by { assert(lower(names[5])[0] == 's'); }
        reveal_with_fuel(first_match, 7);
    }
    let after = call_step(st, output, target, args, location, summaries).events;
    assert(after.subrange(0, st.events.len() + 1int) =~= st.events.push(
        sink_event(Some(st.taint[args.last()]), TaintDomain::Sql, SinkView::Sql(normalize_call(target)), location)->0,
    ));
}

/// The object SQL sinks, each as the lower-cased normalized method target and the name the
/// finding gives it.
pub open spec fn object_query_method(n: Seq<char>, sink: Seq<char>) -> bool {
    ||| n == "pdo::exec"@ && sink == "PDO::exec"@
    ||| n == "pdo::prepare"@ && sink == "PDO::prepare"@
    ||| n == "pdo::query"@ && sink == "PDO::query"@
    ||| n == "mysqli::execute_query"@ && sink == "mysqli::execute_query"@
    ||| n == "mysqli::multi_query"@ && sink == "mysqli::multi_query"@
    ||| n == "mysqli::prepare"@ && sink == "mysqli::prepare"@
    ||| n == "mysqli::query"@ && sink == "mysqli::query"@
    ||| n == "mysqli::real_query"@ && sink == "mysqli::real_query"@
}

/// A method or null-safe method call of one of the PDO and mysqli query methods, whose first
/// argument carries untrusted data that no SQL escaping has made safe, adds exactly one object
/// SQL finding, naming that method, and changes nothing else.
pub proof fn law_object_query_methods_report(
    st: ObjectSqlModel,
    output: u32,
    target: Seq<char>,
    kind: CallKind,
    args: Seq<u32>,
    location: LocationView,
    sink: Seq<char>,
)
    requires
        kind == CallKind::Method || kind == CallKind::NullsafeMethod,
        object_query_method(lower(normalize_call(target)), sink),
        args.len() > 0,
        st.taint.contains_key(args[0]),
        !st.taint[args[0]].sanitized,
    ensures
        object_sql_call(st, output, target, kind, args, location) == (ObjectSqlModel {
            findings: st.findings.push(object_sql_finding(st.taint[args[0]], sink, location)),
            ..st
        }),
{
    let n = lower(normalize_call(target));
    reveal_strlit("pdo::exec");
    reveal_strlit("pdo::prepare");
    reveal_strlit("pdo::query");
    reveal_strlit("mysqli::execute_query");
    reveal_strlit("mysqli::multi_query");
    reveal_strlit("mysqli::prepare");
    reveal_strlit("mysqli::query");
    reveal_strlit("mysqli::real_query");
    reveal_strlit("PDO::exec");
    reveal_strlit("PDO::prepare");
    reveal_strlit("PDO::query");
    reveal_strlit("pdo::quote");
    reveal_strlit("mysqli::escape_string");
    reveal_strlit("mysqli::real_escape_string");
    let quote = "pdo::quote"@;
    let escape = "mysqli::escape_string"@;
    let real_escape = "mysqli::real_escape_string"@;
    if n == "pdo::query"@ {
        assert(n[7] != quote[7]);
    } else if n == "mysqli::execute_query"@ {
        assert(n[10] != escape[10]);
    } else {
        assert(n.len() != quote.len() && n.len() != escape.len() && n.len() != real_escape.len());
    }
    assert(object_sanitizer_argument(target, kind, args) is None);
    assert(crate::object_sql::object_sink_name(n) == Some(sink));
    assert(object_sql_sink(target, kind, args) == Some((sink, args[0])));
}

// ---------------------------------------------------------------------------------------------
// Declarative rules
/// A declarative rule that names frameworks, none of which the project uses, reports nothing;
/// one that names no framework always runs.
pub proof fn law_framework_rules_follow_detection(
    d: DeclarativeCallRule,
    def: RuleDefView,
    frameworks: Seq<Seq<char>>,
    module: ModuleIr,
)
    requires
        instantiated(d, def, frameworks),
    ensures
        def.frameworks.len() > 0 && (forall|i: int, j: int|
            0 <= i < def.frameworks.len() && 0 <= j < frameworks.len() ==> !eq_ignore_case(
                #[trigger] frameworks[j],
                #[trigger] def.frameworks[i],
            )) ==> d.findings_on(module) == Seq::<FindingView>::empty(),
        def.frameworks.len() == 0 ==> d.findings_on(module) == declarative_findings(
            &d,
            module,
            module.instructions@,
        ),
{
}

/// An argument matcher that leaves `case_sensitive` out compares case-sensitively: it accepts
/// exactly what the same matcher with `case_sensitive = true` accepts, that is, with
/// `string_equals` exactly that text, and otherwise with `string_prefix` exactly the texts that
/// begin with that prefix, character for character.
pub proof fn law_matcher_case_sensitive_by_default(m: ArgumentMatcher, actual: Seq<char>)
    requires
        m.case_sensitive is None,
    ensures
        matcher_accepts(m, actual) == matcher_accepts(
            ArgumentMatcher { case_sensitive: Some(true), ..m },
            actual,
        ),
        m.string_equals matches Some(e) ==> (matcher_accepts(m, actual) <==> actual == e@),
        m.string_equals is None ==> (m.string_prefix matches Some(p) ==> (matcher_accepts(
            m,
            actual,
        ) <==> p@.len() <= actual.len() && actual.subrange(0, p@.len() as int) == p@)),
{
}

// ---------------------------------------------------------------------------------------------
// Framework detection
/// Laravel is detected exactly when the Composer packages include `laravel/framework`, Symfony
/// exactly when they include `symfony/framework-bundle`, and WordPress exactly when its files
/// exist; nothing else is ever detected. Other packages of those vendors, such as
/// `symfony/console`, detect nothing.
pub proof fn law_frameworks_come_from_framework_packages(packages: Seq<Seq<char>>, wordpress: bool)
    ensures
        framework_list(packages, wordpress).contains("laravel"@) <==> packages.contains(
            "laravel/framework"@,
        ),
        framework_list(packages, wordpress).contains("symfony"@) <==> packages.contains(
            "symfony/framework-bundle"@,
        ),
        framework_list(packages, wordpress).contains("wordpress"@) <==> wordpress,
        forall|f: Seq<char>|
            #[trigger] framework_list(packages, wordpress).contains(f) ==> f == "laravel"@ || f
                == "symfony"@ || f == "wordpress"@,
{
    reveal_strlit("laravel");
    reveal_strlit("symfony");
    reveal_strlit("wordpress");
    let l = "laravel"@;
    let y = "symfony"@;
    let w = "wordpress"@;
    assert(l[0] != y[0] && l.len() != w.len() && y.len() != w.len());
    let fs = framework_list(packages, wordpress);
    let a: Seq<Seq<char>> = if packages.contains("laravel/framework"@) { seq![l] } else { seq![] };
    let b: Seq<Seq<char>> = if packages.contains("symfony/framework-bundle"@) { seq![y] } else { seq![] };
    let c: Seq<Seq<char>> = if wordpress { seq![w] } else { seq![] };
    assert(fs == a + b + c);
    assert forall|f: Seq<char>| #[trigger] fs.contains(f) implies (a.contains(f) || b.contains(f)
        || c.contains(f)) by {
        let i = choose|i: int| 0 <= i < fs.len() && fs[i] == f;
        if i < a.len() {
            assert(a[i] == f);
        } else if i < a.len() + b.len() {
            assert(b[i - a.len()] == f);
        } else {
            assert(c[i - a.len() - b.len()] == f);
        }
    }
    if packages.contains("laravel/framework"@) {
        assert(fs[0] == l);
    }
    if packages.contains("symfony/framework-bundle"@) {
        assert(fs[a.len() as int] == y);
    }
    if wordpress {
        assert(fs[a.len() + b.len() as int] == w);
    }
}

// ---------------------------------------------------------------------------------------------
// Lowering
/// Assigning to a plain variable decides its database class anew: it takes the class of the
/// assigned expression when that is a database object, and loses any class it had otherwise.
pub proof fn law_assignment_decides_class(st: LowerState, node: SyntaxNode, path: Seq<char>)
    requires
        simple_variable_name(field_text(node, "left"@, "<unknown>"@)),
    ensures
        ({
            let target = field_text(node, "left"@, "<unknown>"@);
            let inferred = match field_child(node.children@, "right"@) {
                Some(i) => inferred_class(st.types, node.children@[i].node),
                None => None,
            };
            let after = assignment_model(st, node, path).0.types;
            &&& inferred is None ==> !after.contains_key(target)
            &&& inferred matches Some(c) ==> after.contains_key(target) && after[target] == c
        }),
{
}

/// Variable classes do not cross function boundaries: a function body starts with none known,
/// and after the function the caller's classes are as they were.
pub proof fn law_function_keeps_caller_classes(st: LowerState, node: SyntaxNode, path: Seq<char>)
    ensures
        function_model(st, node, path).types == st.types,
{
}

/// An `echo` statement is lowered to its values followed by a single echo output instruction
/// that writes all of them.
pub proof fn law_echo_ends_in_one_output(st: LowerState, node: SyntaxNode, path: Seq<char>)
    ensures
        !echo_model(st, node, path).exhausted ==> echo_model(st, node, path).instructions.last()
            matches InstructionView::Output { output: None, output_kind: OutputKind::Echo, .. },
{
}

proof fn lemma_first_where_in_range(cs: Seq<SyntaxChild>, p: spec_fn(SyntaxChild) -> bool)
    ensures
        first_where(cs, p) matches Some(i) ==> 0 <= i < cs.len() && p(cs[i]),
    decreases cs.len(),
{
    if cs.len() > 0 {
        lemma_first_where_in_range(cs.drop_last(), p);
        if first_where(cs.drop_last(), p) is Some {
            let i = first_where(cs.drop_last(), p)->0;
            assert(cs.drop_last()[i] == cs[i]);
        }
    }
}

/// A method called on a variable known to hold a database object is qualified with the
/// object's class, so that the object SQL analysis recognizes it; on any other receiver it
/// keeps its bare name.
pub proof fn law_receiver_class_qualifies_method(
    types: Map<Seq<char>, Seq<char>>,
    node: SyntaxNode,
    receiver: int,
)
    requires
        node.kind@ == "member_call_expression"@,
        field_child(node.children@, "object"@) == Some(receiver),
        node.children@[receiver].node.kind@ == "variable_name"@,
    ensures
        ({
            let name = text_of(node.children@[receiver].node);
            let method = field_text(node, "name"@, "<dynamic>"@);
            &&& (name is Some && types.contains_key(name->0)) ==> call_target_of(types, node) == (
                types[name->0] + "::"@ + method,
                CallKind::Method,
            )
            &&& (name is None || !types.contains_key(name->0)) ==> call_target_of(types, node) == (
                method,
                CallKind::Method,
            )
        }),
{
    lemma_first_where_in_range(node.children@, crate::php::field_test("object"@));
    reveal_strlit("member_call_expression");
    reveal_strlit("function_call_expression");
    reveal_strlit("object_creation_expression");
    reveal_strlit("variable_name");
    assert("variable_name"@.len() == 13);
    assert("object_creation_expression"@.len() == 26);
    assert("member_call_expression"@.len() == 22);
    assert("function_call_expression"@.len() == 24);
}

// ---------------------------------------------------------------------------------------------
// Secrets
/// The finding of the secret rule for an assignment: built from the assigned variable's name and
/// the assignment's location alone.
pub open spec fn secret_finding_of(instruction: Instruction, f: FindingView) -> bool {
    match instruction {
        Instruction::Assignment { target, location, .. } => f == secret_finding(target@, location@),
        _ => false,
    }
}

/// The position of the instruction whose finding is the `i`-th of the secret rule.
pub open spec fn secret_origin(module: ModuleIr, instructions: Seq<Instruction>, i: int) -> int
    decreases instructions.len(),
{
    if instructions.len() == 0 {
        0
    } else if i < secret_findings(module, instructions.drop_last()).len() {
        secret_origin(module, instructions.drop_last(), i)
    } else {
        instructions.len() - 1
    }
}

proof fn lemma_secret_origin(module: ModuleIr, instructions: Seq<Instruction>, i: int)
    requires
        0 <= i < secret_findings(module, instructions).len(),
    ensures
        0 <= secret_origin(module, instructions, i) < instructions.len(),
        secret_finding_of(
            instructions[secret_origin(module, instructions, i)],
            secret_findings(module, instructions)[i],
        ),
    decreases instructions.len(),
{
    let all = secret_findings(module, instructions);
    let prefix = instructions.drop_last();
    let prev = secret_findings(module, prefix);
    let step = secret_step(module, instructions[instructions.len() - 1]);
    assert(all == prev + step);
    if i < prev.len() {
        lemma_secret_origin(module, prefix, i);
        assert(all[i] == prev[i]);
        assert(instructions[secret_origin(module, prefix, i)] == prefix[secret_origin(
            module,
            prefix,
            i,
        )]);
    } else {
        assert(all[i] == step[i - prev.len()]);
    }
}

/// A secret value never reaches a finding: every finding of the hard-coded secret rule is the
/// finding of an assignment of the module, made of the assigned variable's name and the
/// assignment's location alone, and it carries no trace.
pub proof fn law_secret_findings_hold_no_value(module: ModuleIr, i: int)
    requires
        0 <= i < HardcodedSecretRule.findings_on(module).len(),
    ensures
        0 <= secret_origin(module, module.instructions@, i) < module.instructions@.len(),
        secret_finding_of(
            module.instructions@[secret_origin(module, module.instructions@, i)],
            HardcodedSecretRule.findings_on(module)[i],
        ),
        HardcodedSecretRule.findings_on(module)[i].dataflow.len() == 0,
{
    lemma_secret_origin(module, module.instructions@, i);
}

/// Two instructions that are the same but for the text of a string literal.
pub open spec fn same_but_literal_text(a: Instruction, b: Instruction) -> bool {
    match a {
        Instruction::Literal { output, value: LiteralValue::String(_), location } => match b {
            Instruction::Literal { output: o, value: LiteralValue::String(_), location: l } => output
                == o && location == l,
            _ => false,
        },
        _ => a == b,
    }
}

proof fn lemma_secret_prefixes_agree(m1: ModuleIr, m2: ModuleIr, n: int)
    requires
        0 <= n <= m1.instructions@.len(),
        m1.instructions@.len() == m2.instructions@.len(),
        forall|k: int|
            0 <= k < m1.instructions@.len() ==> same_but_literal_text(
                #[trigger] m1.instructions@[k],
                m2.instructions@[k],
            ),
        forall|k: int|
            0 <= k < m1.instructions@.len() ==> secret_step(m1, #[trigger] m1.instructions@[k]).len()
                == secret_step(m2, m2.instructions@[k]).len(),
    ensures
        secret_findings(m1, m1.instructions@.subrange(0, n)) == secret_findings(
            m2,
            m2.instructions@.subrange(0, n),
        ),
    decreases n,
{
    let s1 = m1.instructions@.subrange(0, n);
    let s2 = m2.instructions@.subrange(0, n);
    if n > 0 {
        lemma_secret_prefixes_agree(m1, m2, n - 1);
        assert(s1.drop_last() =~= m1.instructions@.subrange(0, n - 1));
        assert(s2.drop_last() =~= m2.instructions@.subrange(0, n - 1));
        let a = m1.instructions@[n - 1];
        let b = m2.instructions@[n - 1];
        assert(s1.last() == a);
        assert(s2.last() == b);
        assert(same_but_literal_text(a, b));
        assert(secret_step(m1, a).len() == secret_step(m2, b).len());
        assert(secret_step(m1, a) =~= secret_step(m2, b));
    } else {
        assert(s1 =~= Seq::<Instruction>::empty());
        assert(s2 =~= Seq::<Instruction>::empty());
    }
}

/// The secret rule's findings do not depend on the texts of string literals: two modules
/// that differ only in those texts, and in which each assignment is reported by both or by
/// neither, have the same findings, so no secret value reaches a finding.
pub proof fn law_secret_findings_ignore_literal_texts(m1: ModuleIr, m2: ModuleIr)
    requires
        m1.instructions@.len() == m2.instructions@.len(),
        forall|k: int|
            0 <= k < m1.instructions@.len() ==> same_but_literal_text(
                #[trigger] m1.instructions@[k],
                m2.instructions@[k],
            ),
        forall|k: int|
            0 <= k < m1.instructions@.len() ==> secret_step(m1, #[trigger] m1.instructions@[k]).len()
                == secret_step(m2, m2.instructions@[k]).len(),
    ensures
        HardcodedSecretRule.findings_on(m1) == HardcodedSecretRule.findings_on(m2),
{
    lemma_secret_prefixes_agree(m1, m2, m1.instructions@.len() as int);
    assert(m1.instructions@.subrange(0, m1.instructions@.len() as int) =~= m1.instructions@);
    assert(m2.instructions@.subrange(0, m2.instructions@.len() as int) =~= m2.instructions@);
}

/// Literal values never enter the analyses: a literal changes neither the taint analysis of a
/// scope nor the object SQL analysis, so no trace or finding carries a value written in the
/// source.
pub proof fn law_literals_never_enter_traces(
    st: ScopeModel,
    sql: ObjectSqlModel,
    output: ValueId,
    value: LiteralValue,
    location: SourceLocation,
    summaries: Map<Seq<char>, SummaryView>,
    initial: Map<Seq<char>, FactView>,
)
    ensures
        scope_step(st, Instruction::Literal { output, value, location }, summaries, initial)
            == st,
        object_sql_step(sql, Instruction::Literal { output, value, location }) == sql,
{
}

// ---------------------------------------------------------------------------------------------
// Hard-coded secrets
/// Whether a text contains one of the fragments of credential names.
pub open spec fn names_credential(w: Seq<char>) -> bool {
    ||| has_infix(w, "access_token"@)
    ||| has_infix(w, "apikey"@)
    ||| has_infix(w, "api_key"@)
    ||| has_infix(w, "auth_token"@)
    ||| has_infix(w, "client_secret"@)
    ||| has_infix(w, "password"@)
    ||| has_infix(w, "passwd"@)
    ||| has_infix(w, "private_key"@)
    ||| has_infix(w, "secret"@)
}

/// A variable name is a secret name exactly when its ASCII letters, digits and underscores,
/// lower-cased, contain `access_token`, `apikey`, `api_key`, `auth_token`, `client_secret`,
/// `password`, `passwd`, `private_key` or `secret`.
pub proof fn law_secret_names(target: Seq<char>)
    ensures
        is_secret_name(target) <==> names_credential(lower(word_chars(target))),
{
    let w = lower(word_chars(target));
    let ps = secret_name_patterns();
    if names_credential(w) {
        if has_infix(w, "access_token"@) {
            assert(has_infix(w, ps[0]));
        } else if has_infix(w, "apikey"@) {
            assert(has_infix(w, ps[1]));
        } else if has_infix(w, "api_key"@) {
            assert(has_infix(w, ps[2]));
        } else if has_infix(w, "auth_token"@) {
            assert(has_infix(w, ps[3]));
        } else if has_infix(w, "client_secret"@) {
            assert(has_infix(w, ps[4]));
        } else if has_infix(w, "password"@) {
            assert(has_infix(w, ps[5]));
        } else if has_infix(w, "passwd"@) {
            assert(has_infix(w, ps[6]));
        } else if has_infix(w, "private_key"@) {
            assert(has_infix(w, ps[7]));
        } else {
            assert(has_infix(w, ps[8]));
        }
    }
}

/// An assignment to a secret name of a constant that is at least four bytes long once trimmed
/// and no placeholder gets exactly one finding of the hard-coded secret rule, naming the
/// variable at the assignment; an assignment to any other name gets none.
pub proof fn law_secret_assignment_reported(module: ModuleIr, instruction: Instruction)
    requires
        instruction is Assignment,
    ensures
        match instruction {
            Instruction::Assignment { target, value, location } => {
                &&& (names_credential(lower(word_chars(target@))) && (resolve_constant(
                    module,
                    value.0,
                    seq![],
                    0,
                ) matches Some(text) && is_likely_secret(text))) ==> secret_step(module, instruction)
                    == seq![secret_finding(target@, location@)]
                &&& !names_credential(lower(word_chars(target@))) ==> secret_step(
                    module,
                    instruction,
                ) == Seq::<FindingView>::empty()
            },
            _ => true,
        },
{
    if let Instruction::Assignment { target, value, location } = instruction {
        law_secret_names(target@);
    }
}

} // verus!
