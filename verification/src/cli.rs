//! The decisions of the command line: which rules run, which settings apply, how findings are
//! ordered and when a scan fails.
use crate::config::{enabled_ids, override_ids, FermioConfig};
use crate::findings::{
    lemma_text_less_irreflexive, lemma_text_less_total, lemma_text_less_transitive,
    severity_rank, text_less, text_less_exec, Finding, ScanResult, Severity,
};
use crate::rules::{core_rule_list, AnyRule, Rule};
use crate::text::{chars_of, join3};
use vstd::prelude::*;

verus! {

/// The file limit of a scan when neither the command line nor the configuration sets one.
pub const DEFAULT_MAX_FILES: usize = 100000;

/// The file size limit of a scan, in bytes, when neither the command line nor the configuration
/// sets one.
pub const DEFAULT_MAX_FILE_SIZE: u64 = 2097152;

/// The compiled rules: the core PHP rules followed by the object SQL rule.
pub fn registered_rules() -> (r: Vec<AnyRule>)
    ensures
        r@.len() == 9,
        core_rule_list(r@.subrange(0, 8)),
        r@[8] is ObjectSql,
{
    let mut rules = crate::rules::built_in_rules();
    let ghost core = rules@;
    let mut extra = crate::object_sql::built_in_rules();
    rules.append(&mut extra);
    assert(rules@.subrange(0, 8) =~= core);
    rules
}

// ---------------------------------------------------------------------------------------------
// Rule selection
/// The identifiers of a list of rules.
pub open spec fn rule_ids(rules: Seq<AnyRule>) -> Seq<Seq<char>> {
    rules.map_values(|r: AnyRule| r.rule_id())
}

/// The rule identifiers a configuration mentions: enabled, disabled, then overridden.
pub open spec fn referenced_ids(config: FermioConfig) -> Seq<Seq<char>> {
    enabled_ids(config) + config.rules.disabled.deep_view() + override_ids(config.rules.severity@)
}

/// The first of the first `n` referenced identifiers that names no known rule.
pub open spec fn first_unknown(refs: Seq<Seq<char>>, known: Seq<Seq<char>>, n: int) -> Option<
    Seq<char>,
>
    decreases n,
{
    if n <= 0 {
        None
    } else {
        match first_unknown(refs, known, n - 1) {
            Some(u) => Some(u),
            None => if known.contains(refs[n - 1]) {
                None
            } else {
                Some(refs[n - 1])
            },
        }
    }
}

/// The rule `id` runs: it is enabled (or no list of enabled rules is given) and not disabled.
pub open spec fn is_selected(config: FermioConfig, id: Seq<char>) -> bool {
    (config.rules.enabled is None || enabled_ids(config).contains(id))
        && !config.rules.disabled.deep_view().contains(id)
}

/// The selected rules, in their original order.
pub open spec fn selected_rules(config: FermioConfig, rules: Seq<AnyRule>) -> Seq<AnyRule>
    decreases rules.len(),
{
    if rules.len() == 0 {
        seq![]
    } else if is_selected(config, rules.last().rule_id()) {
        selected_rules(config, rules.drop_last()).push(rules.last())
    } else {
        selected_rules(config, rules.drop_last())
    }
}

/// Why a rule selection is refused.
#[derive(Debug, Clone)]
pub enum SelectionError {
    UnknownRule(String),
}

impl SelectionError {
    /// The message of this problem.
    pub fn message(&self) -> (r: String)
        ensures
            match self {
                SelectionError::UnknownRule(id) => r@ == "configuration references unknown rule `"@
                    + id@ + "`"@,
            },
    {
        match self {
            SelectionError::UnknownRule(id) => join3(
                "configuration references unknown rule `",
                id.as_str(),
                "`",
            ),
        }
    }
}

fn contains_id(values: &Vec<String>, id: &str) -> (r: bool)
    ensures
        r == values.deep_view().contains(id@),
{
    let mut i: usize = 0;
    while i < values.len()
        invariant
            i <= values.len(),
            forall|j: int| 0 <= j < i ==> values.deep_view()[j] != id@,
        decreases values.len() - i,
    {
        assert(values.deep_view()[i as int] == values@[i as int]@);
        if crate::text::same(values[i].as_str(), id) {
            return true;
        }
        i += 1;
    }
    false
}

fn is_known(rules: &Vec<AnyRule>, id: &str) -> (r: bool)
    ensures
        r == rule_ids(rules@).contains(id@),
{
    let mut i: usize = 0;
    while i < rules.len()
        invariant
            i <= rules.len(),
            forall|j: int| 0 <= j < i ==> rule_ids(rules@)[j] != id@,
        decreases rules.len() - i,
    {
        assert(rule_ids(rules@)[i as int] == rules@[i as int].rule_id());
        if crate::text::same(rules[i].id(), id) {
            return true;
        }
        i += 1;
    }
    false
}

proof fn lemma_first_unknown_stable(refs: Seq<Seq<char>>, known: Seq<Seq<char>>, n: int, m: int)
    requires
        n <= m,
        first_unknown(refs, known, n) is Some,
    ensures
        first_unknown(refs, known, m) == first_unknown(refs, known, n),
    decreases m - n,
{
    if n < m {
        lemma_first_unknown_stable(refs, known, n, m - 1);
    }
}

fn append_texts(dst: &mut Vec<String>, src: &Vec<String>)
    ensures
        final(dst).deep_view() == old(dst).deep_view() + src.deep_view(),
{
    let mut i: usize = 0;
    while i < src.len()
        invariant
            i <= src.len(),
            dst.deep_view() == old(dst).deep_view() + src.deep_view().subrange(0, i as int),
        decreases src.len() - i,
    {
        let ghost before = dst.deep_view();
        dst.push(src[i].clone());
        assert(dst.deep_view() =~= before.push(src@[i as int]@));
        i += 1;
        assert(dst.deep_view() =~= old(dst).deep_view() + src.deep_view().subrange(0, i as int));
    }
    assert(src.deep_view().subrange(0, i as int) =~= src.deep_view());
}

/// Checks a list of referenced identifiers, which continue the first `start` ones, against the
/// known rules.
fn check_known(
    rules: &Vec<AnyRule>,
    values: &Vec<String>,
    Ghost(refs): Ghost<Seq<Seq<char>>>,
    start: usize,
) -> (r: Result<(), SelectionError>)
    requires
        start + values@.len() <= refs.len(),
        refs.subrange(start as int, start + values@.len()) == values.deep_view(),
        first_unknown(refs, rule_ids(rules@), start as int) is None,
    ensures
        match r {
            Ok(()) => first_unknown(refs, rule_ids(rules@), start + values@.len()) is None,
            Err(SelectionError::UnknownRule(id)) => first_unknown(
                refs,
                rule_ids(rules@),
                refs.len() as int,
            ) == Some(id@),
        },
{
    let ghost known = rule_ids(rules@);
    let mut i: usize = 0;
    while i < values.len()
        invariant
            i <= values.len(),
            start + values@.len() <= refs.len(),
            refs.subrange(start as int, start + values@.len()) == values.deep_view(),
            known == rule_ids(rules@),
            first_unknown(refs, known, start + i) is None,
        decreases values.len() - i,
    {
        assert(refs[start + i] == refs.subrange(start as int, start + values@.len())[i as int]);
        assert(values.deep_view()[i as int] == values@[i as int]@);
        if !is_known(rules, values[i].as_str()) {
            proof {
                lemma_first_unknown_stable(refs, known, start + i + 1, refs.len() as int);
            }
            return Err(SelectionError::UnknownRule(values[i].clone()));
        }
        i += 1;
    }
    Ok(())
}

/// The rules that a configuration selects, after checking that every rule it mentions exists.
pub fn select_rules(config: &FermioConfig, rules: Vec<AnyRule>) -> (r: Result<
    Vec<AnyRule>,
    SelectionError,
>)
    ensures
        match r {
            Ok(selected) => first_unknown(
                referenced_ids(*config),
                rule_ids(rules@),
                referenced_ids(*config).len() as int,
            ) is None && selected@ == selected_rules(*config, rules@),
            Err(SelectionError::UnknownRule(id)) => first_unknown(
                referenced_ids(*config),
                rule_ids(rules@),
                referenced_ids(*config).len() as int,
            ) == Some(id@),
        },
{
    let ghost refs = referenced_ids(*config);
    let empty: Vec<String> = Vec::new();
    let enabled = match &config.rules.enabled {
        Some(v) => v,
        None => &empty,
    };
    assert(enabled.deep_view() =~= enabled_ids(*config));
    let mut referenced: Vec<String> = Vec::new();
    append_texts(&mut referenced, enabled);
    append_texts(&mut referenced, &config.rules.disabled);
    let mut k: usize = 0;
    while k < config.rules.severity.len()
        invariant
            k <= config.rules.severity.len(),
            referenced.deep_view() == enabled_ids(*config) + config.rules.disabled.deep_view()
                + override_ids(config.rules.severity@).subrange(0, k as int),
        decreases config.rules.severity.len() - k,
    {
        let ghost before = referenced.deep_view();
        referenced.push(config.rules.severity[k].0.clone());
        assert(referenced.deep_view() =~= before.push(config.rules.severity@[k as int].0@));
        k += 1;
        assert(referenced.deep_view() =~= enabled_ids(*config) + config.rules.disabled.deep_view()
            + override_ids(config.rules.severity@).subrange(0, k as int));
    }
    assert(override_ids(config.rules.severity@).subrange(0, k as int) =~= override_ids(
        config.rules.severity@,
    ));
    assert(refs =~= referenced.deep_view());
    assert(refs.subrange(0, referenced@.len() as int) =~= refs);
    match check_known(&rules, &referenced, Ghost(refs), 0) {
        Ok(()) => {},
        Err(e) => return Err(e),
    }
    let ghost all = rules@;
    let mut rest = rules;
    let mut out: Vec<AnyRule> = Vec::new();
    let mut i: usize = 0;
    let n = rest.len();
    while rest.len() > 0
        invariant
            all.len() == n,
            i + rest@.len() == n,
            rest@ == all.subrange(i as int, n as int),
            out@ == selected_rules(*config, all.subrange(0, i as int)),
            enabled.deep_view() == enabled_ids(*config),
        decreases rest@.len(),
    {
        let rule = rest.remove(0);
        assert(rule == all[i as int]);
        let id = rule.id();
        let keep = (config.rules.enabled.is_none() || contains_id(enabled, id)) && !contains_id(
            &config.rules.disabled,
            id,
        );
        proof {
            let s = all.subrange(0, i + 1);
            assert(s.drop_last() =~= all.subrange(0, i as int));
            assert(s.last() == rule);
        }
        if keep {
            out.push(rule);
        }
        i += 1;
        assert(rest@ =~= all.subrange(i as int, n as int));
    }
    assert(all.subrange(0, n as int) =~= all);
    Ok(out)
}

// ---------------------------------------------------------------------------------------------
// Severity overrides and ordering
/// The overriding severity of the first entry for `id`, or `default` if there is none.
pub open spec fn override_for(overrides: Seq<(String, Severity)>, id: Seq<char>, default: Severity) -> Severity
    decreases overrides.len(),
{
    if overrides.len() == 0 {
        default
    } else if overrides[0].0@ == id {
        overrides[0].1
    } else {
        override_for(overrides.drop_first(), id, default)
    }
}

/// A finding with its severity overridden as configured.
pub open spec fn overridden(f: Finding, overrides: Seq<(String, Severity)>) -> Finding {
    Finding { severity: override_for(overrides, f.rule_id@, f.severity), ..f }
}

/// Every finding with its severity overridden as configured.
pub open spec fn overridden_all(findings: Seq<Finding>, overrides: Seq<(String, Severity)>) -> Seq<
    Finding,
> {
    findings.map_values(|f: Finding| overridden(f, overrides))
}

/// `a` is reported before `b`: more severe first, then by path, then by line.
pub open spec fn reported_before(a: Finding, b: Finding) -> bool {
    ||| severity_rank(a.severity) > severity_rank(b.severity)
    ||| (a.severity == b.severity && text_less(a.location.path@, b.location.path@))
    ||| (a.severity == b.severity && a.location.path@ == b.location.path@ && a.location.start_line
        < b.location.start_line)
}

/// `a` and `b` have the same place in the report order.
pub open spec fn same_rank(a: Finding, b: Finding) -> bool {
    a.severity == b.severity && a.location.path@ == b.location.path@ && a.location.start_line
        == b.location.start_line
}

/// No finding is reported before one that precedes it.
pub open spec fn in_report_order(s: Seq<Finding>) -> bool {
    forall|i: int, j: int| 0 <= i < j < s.len() ==> !reported_before(#[trigger] s[j], #[trigger] s[i])
}

/// `out` is `input` reordered by `perm`, keeping findings of the same rank in their input order.
pub open spec fn stable_arrangement(out: Seq<Finding>, input: Seq<Finding>, perm: Seq<int>) -> bool {
    &&& out.len() == input.len()
    &&& perm.len() == out.len()
    &&& forall|i: int| 0 <= i < perm.len() ==> 0 <= #[trigger] perm[i] < input.len()
    &&& forall|i: int, j: int|
        0 <= i < j < perm.len() ==> #[trigger] perm[i] != #[trigger] perm[j]
    &&& forall|i: int| 0 <= i < out.len() ==> #[trigger] out[i] == input[perm[i]]
    &&& forall|i: int, j: int|
        0 <= i < j < out.len() && same_rank(#[trigger] out[i], #[trigger] out[j]) ==> perm[i]
            < perm[j]
}

proof fn lemma_order(a: Finding, b: Finding, c: Finding)
    ensures
        !reported_before(a, a),
        reported_before(a, b) && reported_before(b, c) ==> reported_before(a, c),
        !reported_before(a, b) && !reported_before(b, a) <==> same_rank(a, b),
        reported_before(a, b) ==> !reported_before(b, a),
{
    lemma_text_less_irreflexive(a.location.path@);
    lemma_text_less_total(a.location.path@, b.location.path@);
    if text_less(a.location.path@, b.location.path@) && text_less(
        b.location.path@,
        c.location.path@,
    ) {
        lemma_text_less_transitive(a.location.path@, b.location.path@, c.location.path@);
    }
    if text_less(a.location.path@, b.location.path@) && text_less(
        b.location.path@,
        a.location.path@,
    ) {
        lemma_text_less_transitive(a.location.path@, b.location.path@, a.location.path@);
    }
    if a.severity != b.severity {
        assert(severity_rank(a.severity) != severity_rank(b.severity));
    }
    if a.severity != c.severity && a.severity == b.severity {
        assert(severity_rank(a.severity) != severity_rank(c.severity));
    }
}

fn reported_before_exec(a: &Finding, b: &Finding) -> (r: bool)
    ensures
        r == reported_before(*a, *b),
{
    let ra = a.severity.rank();
    let rb = b.severity.rank();
    if ra != rb {
        proof {
            if a.severity == b.severity {
                assert(ra == rb);
            }
        }
        return ra > rb;
    }
    assert(a.severity == b.severity) by {
        assert(severity_rank(a.severity) == severity_rank(b.severity));
    }
    let pa = chars_of(a.location.path.as_str());
    let pb = chars_of(b.location.path.as_str());
    if text_less_exec(&pa, &pb) {
        return true;
    }
    if a.location.path == b.location.path {
        a.location.start_line < b.location.start_line
    } else {
        false
    }
}

/// The first `i` findings of `input`, stably arranged in report order.
pub open spec fn sorted_prefix(out: Seq<Finding>, input: Seq<Finding>, perm: Seq<int>, i: int) -> bool {
    &&& out.len() == i
    &&& perm.len() == i
    &&& in_report_order(out)
    &&& forall|k: int| 0 <= k < perm.len() ==> 0 <= #[trigger] perm[k] < i
    &&& forall|a: int, b: int| 0 <= a < b < perm.len() ==> #[trigger] perm[a] != #[trigger] perm[b]
    &&& forall|k: int| 0 <= k < out.len() ==> #[trigger] out[k] == input[perm[k]]
    &&& forall|a: int, b: int|
        0 <= a < b < out.len() && same_rank(#[trigger] out[a], #[trigger] out[b]) ==> perm[a]
            < perm[b]
}

proof fn lemma_insert(
    old_out: Seq<Finding>,
    old_perm: Seq<int>,
    input: Seq<Finding>,
    x: Finding,
    k: int,
    i: int,
    new_out: Seq<Finding>,
    new_perm: Seq<int>,
)
    requires
        0 <= i < input.len(),
        sorted_prefix(old_out, input, old_perm, i),
        x == input[i],
        0 <= k <= old_out.len(),
        forall|m: int| 0 <= m < k ==> !reported_before(x, #[trigger] old_out[m]),
        k < old_out.len() ==> reported_before(x, old_out[k]),
        new_out == old_out.insert(k, x),
        new_perm == old_perm.subrange(0, k).push(i) + old_perm.subrange(k, old_perm.len() as int),
    ensures
        sorted_prefix(new_out, input, new_perm, i + 1),
{
    assert forall|a: int| 0 <= a < new_out.len() implies #[trigger] new_out[a] == input[new_perm[a]]
        && 0 <= new_perm[a] < i + 1 by {
        if a < k {
            assert(new_out[a] == old_out[a]);
            assert(new_perm[a] == old_perm[a]);
        } else if a == k {
            assert(new_perm[a] == i);
        } else {
            assert(new_out[a] == old_out[a - 1]);
            assert(new_perm[a] == old_perm[a - 1]);
        }
    }
    assert forall|a: int, b: int| 0 <= a < b < new_perm.len() implies #[trigger] new_perm[a]
        != #[trigger] new_perm[b] by {
        let pa = if a < k { a } else { a - 1 };
        let pb = if b < k { b } else { b - 1 };
        if a != k && b != k {
            assert(new_perm[a] == old_perm[pa]);
            assert(new_perm[b] == old_perm[pb]);
        } else if a == k {
            assert(new_perm[b] == old_perm[pb]);
        } else {
            assert(new_perm[a] == old_perm[pa]);
        }
    }
    assert forall|a: int, b: int| 0 <= a < b < new_out.len() implies !reported_before(
        #[trigger] new_out[b],
        #[trigger] new_out[a],
    ) by {
        if a != k && b != k {
            let pa = if a < k { a } else { a - 1 };
            let pb = if b < k { b } else { b - 1 };
            assert(new_out[a] == old_out[pa]);
            assert(new_out[b] == old_out[pb]);
        } else if a == k {
            let y = old_out[b - 1];
            assert(new_out[b] == y);
            lemma_order(y, x, old_out[k]);
            lemma_order(y, old_out[k], x);
            if b - 1 > k {
                assert(!reported_before(y, old_out[k]));
            }
        } else {
            assert(new_out[a] == old_out[a]);
        }
    }
    assert forall|a: int, b: int|
        0 <= a < b < new_out.len() && same_rank(#[trigger] new_out[a], #[trigger] new_out[b])
            implies new_perm[a] < new_perm[b] by {
        if a != k && b != k {
            let pa = if a < k { a } else { a - 1 };
            let pb = if b < k { b } else { b - 1 };
            assert(new_out[a] == old_out[pa]);
            assert(new_out[b] == old_out[pb]);
            assert(new_perm[a] == old_perm[pa]);
            assert(new_perm[b] == old_perm[pb]);
        } else if a == k {
            let y = old_out[b - 1];
            assert(new_out[b] == y);
            lemma_order(x, y, old_out[k]);
            lemma_order(y, old_out[k], x);
            if b - 1 > k {
                assert(!reported_before(y, old_out[k]));
            }
            assert(false);
        } else {
            assert(new_out[a] == old_out[a]);
            assert(new_perm[a] == old_perm[a]);
            assert(new_perm[b] == i);
        }
    }
}

fn override_severity(overrides: &Vec<(String, Severity)>, id: &String, default: Severity) -> (r:
    Severity)
    ensures
        r == override_for(overrides@, id@, default),
{
    let mut j: usize = 0;
    assert(overrides@.subrange(0, overrides@.len() as int) =~= overrides@);
    while j < overrides.len()
        invariant
            j <= overrides.len(),
            override_for(overrides@, id@, default) == override_for(
                overrides@.subrange(j as int, overrides@.len() as int),
                id@,
                default,
            ),
        decreases overrides.len() - j,
    {
        let ghost rest = overrides@.subrange(j as int, overrides@.len() as int);
        assert(rest.drop_first() =~= overrides@.subrange(j + 1, overrides@.len() as int));
        assert(rest[0] == overrides@[j as int]);
        if overrides[j].0 == *id {
            return overrides[j].1;
        }
        j += 1;
    }
    default
}

/// Findings in report order: more severe first, then by path and line, keeping findings of
/// the same rank in their order.
pub fn sort_for_report(findings: Vec<Finding>) -> (r: Vec<Finding>)
    ensures
        in_report_order(r@),
        exists|perm: Seq<int>| #[trigger] stable_arrangement(r@, findings@, perm),
{
    let ghost input = findings@;
    let mut pending = findings;
    let n = pending.len();
    let mut out: Vec<Finding> = Vec::new();
    let ghost mut perm: Seq<int> = seq![];
    let mut i: usize = 0;
    while pending.len() > 0
        invariant
            i + pending@.len() == n,
            input.len() == n,
            pending@ == input.subrange(i as int, n as int),
            sorted_prefix(out@, input, perm, i as int),
        decreases pending@.len(),
    {
        let f = pending.remove(0);
        assert(f == input[i as int]);
        let mut k: usize = 0;
        while k < out.len() && !reported_before_exec(&f, &out[k])
            invariant
                k <= out@.len(),
                forall|m: int| 0 <= m < k ==> !reported_before(f, #[trigger] out@[m]),
            decreases out@.len() - k,
        {
            k += 1;
        }
        let ghost old_out = out@;
        let ghost old_perm = perm;
        out.insert(k, f);
        proof {
            perm = old_perm.subrange(0, k as int).push(i as int) + old_perm.subrange(
                k as int,
                old_perm.len() as int,
            );
            lemma_insert(old_out, old_perm, input, f, k as int, i as int, out@, perm);
        }
        i += 1;
        assert(pending@ =~= input.subrange(i as int, n as int));
    }
    assert(stable_arrangement(out@, input, perm));
    out
}

/// Severity overrides applied to every finding, then the findings put in report order: more
/// severe first, then by path and line, keeping findings of the same rank in their order.
pub fn apply_severity_overrides(result: &mut ScanResult, overrides: &Vec<(String, Severity)>)
    ensures
        final(result).project == old(result).project,
        final(result).statistics == old(result).statistics,
        final(result).diagnostics == old(result).diagnostics,
        in_report_order(final(result).findings@),
        exists|perm: Seq<int>|
            #[trigger] stable_arrangement(
                final(result).findings@,
                overridden_all(old(result).findings@, overrides@),
                perm,
            ),
{
    let ghost all = result.findings@;
    let mut pending: Vec<Finding> = Vec::new();
    std::mem::swap(&mut pending, &mut result.findings);
    let n = pending.len();
    let mut changed: Vec<Finding> = Vec::new();
    let mut i: usize = 0;
    while pending.len() > 0
        invariant
            i + pending@.len() == n,
            all.len() == n,
            pending@ == all.subrange(i as int, n as int),
            changed@ == overridden_all(all.subrange(0, i as int), overrides@),
        decreases pending@.len(),
    {
        let mut f = pending.remove(0);
        assert(f == all[i as int]);
        f.severity = override_severity(overrides, &f.rule_id, f.severity);
        let ghost before = changed@;
        changed.push(f);
        i += 1;
        assert(changed@ =~= overridden_all(all.subrange(0, i as int), overrides@)) by {
            assert(all.subrange(0, i as int).drop_last() =~= all.subrange(0, i - 1));
        }
        assert(pending@ =~= all.subrange(i as int, n as int));
    }
    assert(all.subrange(0, n as int) =~= all);
    result.findings = sort_for_report(changed);
}

// ---------------------------------------------------------------------------------------------
// Scan settings and exit status
/// The settings of one scan, from the command line and the configuration.
#[derive(Debug, Clone)]
pub struct ScanSettings {
    pub include_vendor: bool,
    pub max_files: usize,
    pub max_file_size: u64,
    pub fail_on: Option<Severity>,
    pub baseline: Option<String>,
}

/// The first of two optional values that is present.
pub open spec fn first_some<T>(a: Option<T>, b: Option<T>) -> Option<T> {
    match a {
        Some(x) => Some(x),
        None => b,
    }
}

/// The value, or `default` if there is none.
pub open spec fn or_default<T>(a: Option<T>, default: T) -> T {
    match a {
        Some(x) => x,
        None => default,
    }
}

/// The command line takes precedence over the configuration, which takes precedence over the
/// defaults; vendor code is scanned if either asks for it; a configured baseline is resolved
/// from the configuration's directory and is not read when a new baseline is written.
pub fn scan_settings(
    include_vendor: bool,
    max_files: Option<usize>,
    max_file_size: Option<u64>,
    fail_on: Option<Severity>,
    baseline: Option<String>,
    write_baseline: bool,
    loaded: &crate::config::LoadedConfig,
) -> (r: ScanSettings)
    ensures
        r.include_vendor == (include_vendor || or_default(
            loaded.config.scan.include_vendor,
            false,
        )),
        r.max_files == or_default(first_some(max_files, loaded.config.scan.max_files), DEFAULT_MAX_FILES),
        r.max_file_size == or_default(
            first_some(max_file_size, loaded.config.scan.max_file_size),
            DEFAULT_MAX_FILE_SIZE,
        ),
        r.fail_on == first_some(fail_on, loaded.config.scan.fail_on),
        r.baseline.deep_view() == if write_baseline {
            baseline.deep_view()
        } else {
            first_some(
                baseline.deep_view(),
                match loaded.config.scan.baseline {
                    Some(b) => Some(
                        crate::config::resolved_path(loaded.path.deep_view(), b@),
                    ),
                    None => None,
                },
            )
        },
{
    let scan = &loaded.config.scan;
    let include_vendor = include_vendor || match scan.include_vendor {
        Some(b) => b,
        None => false,
    };
    let max_files = match max_files {
        Some(n) => n,
        None => match scan.max_files {
            Some(n) => n,
            None => DEFAULT_MAX_FILES,
        },
    };
    let max_file_size = match max_file_size {
        Some(n) => n,
        None => match scan.max_file_size {
            Some(n) => n,
            None => DEFAULT_MAX_FILE_SIZE,
        },
    };
    let fail_on = match fail_on {
        Some(s) => Some(s),
        None => scan.fail_on,
    };
    let baseline = if write_baseline {
        baseline
    } else {
        match baseline {
            Some(b) => Some(b),
            None => match &scan.baseline {
                Some(b) => Some(loaded.resolve_path(b.as_str())),
                None => None,
            },
        }
    };
    ScanSettings { include_vendor, max_files, max_file_size, fail_on, baseline }
}

/// Some finding is at least as severe as the threshold.
pub open spec fn reaches_threshold(findings: Seq<Finding>, threshold: Severity) -> bool {
    exists|i: int|
        0 <= i < findings.len() && severity_rank(#[trigger] findings[i].severity) >= severity_rank(
            threshold,
        )
}

/// Whether a scan fails: some finding is at least as severe as the threshold.
pub fn fails_threshold(findings: &Vec<Finding>, threshold: Severity) -> (r: bool)
    ensures
        r == reaches_threshold(findings@, threshold),
{
    let t = threshold.rank();
    let mut i: usize = 0;
    while i < findings.len()
        invariant
            i <= findings.len(),
            t as nat == severity_rank(threshold),
            forall|j: int| 0 <= j < i ==> severity_rank(#[trigger] findings@[j].severity) < severity_rank(threshold),
        decreases findings.len() - i,
    {
        if findings[i].severity.rank() >= t {
            return true;
        }
        i += 1;
    }
    false
}

} // verus!
