//! The decisions of a scan: which files are analyzed, how each file's outcome is recorded and
//! how the result is assembled. Reading the file system is left to the caller, which reports
//! what it found.
use crate::analysis::ModuleAnalysis;
use crate::cli::{in_report_order, sort_for_report, stable_arrangement};
use crate::findings::{
    lemma_text_less_irreflexive, lemma_text_less_total, lemma_text_less_transitive, text_less,
    text_less_exec, Diagnostic, DiagnosticSeverity, Finding, FindingView, ProjectMetadata,
    ScanResult, ScanStatistics,
};
use crate::ir::ModuleIr;
use crate::php::{
    frontend_error_text, frontend_output_of, has_php_extension, is_parse_error,
    lowering_exhausted, lowering_of, syntax_diagnostics, FrontendError, FrontendOutput,
    LanguageFrontend, PhpFrontend, ProjectDetection, SourceFile,
};
use crate::syntax::{php_tree_of, SyntaxNode};
use crate::rules::{AnyRule, Rule};
use crate::text::{chars_of, decimal, decimal_exec, join2, join3, owned, same};
use vstd::prelude::*;

verus! {

/// Limits and options of a scan.
#[derive(Debug, Clone)]
pub struct ScanOptions {
    pub include_vendor: bool,
    pub max_files: usize,
    pub max_file_size: u64,
}

impl Default for ScanOptions {
    fn default() -> (r: Self)
        ensures
            !r.include_vendor,
            r.max_files == 100000,
            r.max_file_size == 2097152,
    {
        ScanOptions { include_vendor: false, max_files: 100000, max_file_size: 2097152 }
    }
}

/// The frontends and rules of a scan.
pub struct ScanEngine {
    pub frontends: Vec<PhpFrontend>,
    pub rules: Vec<AnyRule>,
}

/// The findings of a list of rules on a module, rule after rule.
pub open spec fn rules_findings(rules: Seq<AnyRule>, module: ModuleIr) -> Seq<FindingView>
    decreases rules.len(),
{
    if rules.len() == 0 {
        seq![]
    } else {
        rules_findings(rules.drop_last(), module) + rules.last().findings_on(module)
    }
}

/// What a scan has recorded so far.
pub struct ScanState {
    pub statistics: ScanStatistics,
    pub diagnostics: Vec<Diagnostic>,
    pub findings: Vec<Finding>,
}

/// Why a scan stops.
#[derive(Debug, Clone, Copy, PartialEq, Eq, Structural)]
pub enum EngineError {
    TooManyFiles(usize, usize),
    NoFrontend,
}

impl EngineError {
    /// The message of this error.
    pub fn message(&self) -> (r: String)
        ensures
            r@ == match self {
                EngineError::TooManyFiles(n, max) => "scan discovered "@ + decimal(*n as nat)
                    + " PHP files, exceeding the configured limit of "@ + decimal(*max as nat),
                EngineError::NoFrontend => "PHP frontend is not registered"@,
            },
    {
        match self {
            EngineError::TooManyFiles(n, max) => {
                let a = decimal_exec(*n);
                let b = decimal_exec(*max);
                let mut r = join3("scan discovered ", a.as_str(), " PHP files, exceeding the configured limit of ");
                r.append(b.as_str());
                r
            },
            EngineError::NoFrontend => owned("PHP frontend is not registered"),
        }
    }
}

// ---------------------------------------------------------------------------------------------
// Discovery
/// Some component of a `/`-separated path is exactly `vendor`.
pub open spec fn in_vendor(path: Seq<char>) -> bool {
    exists|i: int|
        0 <= i && i + 6 <= path.len() && #[trigger] path.subrange(i, i + 6) == "vendor"@ && (i == 0
            || path[i - 1] == '/') && (i + 6 == path.len() || path[i + 6] == '/')
}

/// A discovered file is scanned: it is a PHP file, and outside `vendor` unless vendor code is
/// included.
pub open spec fn is_scanned(path: Seq<char>, include_vendor: bool) -> bool {
    has_php_extension(path) && (include_vendor || !in_vendor(path))
}

/// The scanned files among the discovered ones, in order.
pub open spec fn scanned_files(paths: Seq<Seq<char>>, include_vendor: bool) -> Seq<Seq<char>>
    decreases paths.len(),
{
    if paths.len() == 0 {
        seq![]
    } else if is_scanned(paths.last(), include_vendor) {
        scanned_files(paths.drop_last(), include_vendor).push(paths.last())
    } else {
        scanned_files(paths.drop_last(), include_vendor)
    }
}

fn in_vendor_exec(path: &str) -> (r: bool)
    ensures
        r == in_vendor(path@),
{
    let cs = chars_of(path);
    let n = cs.len();
    if n < 6 {
        return false;
    }
    let mut i: usize = 0;
    while i <= n - 6
        invariant
            cs@ == path@,
            n == cs@.len(),
            6 <= n,
            i <= n - 6 + 1,
            forall|k: int|
                0 <= k < i ==> !(#[trigger] cs@.subrange(k, k + 6) == "vendor"@ && (k == 0 || cs@[k
                    - 1] == '/') && (k + 6 == n || cs@[k + 6] == '/')),
        decreases n - i,
    {
        let sub = crate::text::string_from(&cs, i, i + 6);
        let here = same(sub.as_str(), "vendor");
        let before = i == 0 || cs[i - 1] == '/';
        let after = i + 6 == n || cs[i + 6] == '/';
        if here && before && after {
            return true;
        }
        i += 1;
    }
    false
}

proof fn lemma_scanned_from(paths: Seq<Seq<char>>, include_vendor: bool)
    ensures
        forall|t: Seq<char>|
            #[trigger] scanned_files(paths, include_vendor).contains(t) ==> paths.contains(t),
    decreases paths.len(),
{
    if paths.len() > 0 {
        lemma_scanned_from(paths.drop_last(), include_vendor);
        assert forall|t: Seq<char>|
            #[trigger] scanned_files(paths, include_vendor).contains(t) implies paths.contains(t) by {
            let prev = scanned_files(paths.drop_last(), include_vendor);
            if prev.contains(t) {
                let k = choose|k: int| 0 <= k < paths.drop_last().len() && paths.drop_last()[k] == t;
                assert(paths[k] == t);
            } else {
                assert(paths[paths.len() - 1] == t);
            }
        }
    }
}

/// A path with its separators replaced by the character that sorts first, so that text order
/// on keys is the component order of paths.
pub open spec fn path_key(p: Seq<char>) -> Seq<char> {
    p.map_values(|c: char| if c == '/' { '\0' } else { c })
}

/// The path of a key.
pub open spec fn key_path(k: Seq<char>) -> Seq<char> {
    k.map_values(|c: char| if c == '\0' { '/' } else { c })
}

/// The keys of a list of paths.
pub open spec fn path_keys(s: Seq<Seq<char>>) -> Seq<Seq<char>> {
    s.map_values(|p: Seq<char>| path_key(p))
}

/// The paths of a list of keys.
pub open spec fn key_paths(s: Seq<Seq<char>>) -> Seq<Seq<char>> {
    s.map_values(|k: Seq<char>| key_path(k))
}

/// `a` comes before `b` in path order: component by component, each compared as text.
pub open spec fn path_less(a: Seq<char>, b: Seq<char>) -> bool {
    text_less(path_key(a), path_key(b))
}

/// Paths in strictly increasing path order, hence without duplicates.
pub open spec fn paths_sorted(s: Seq<Seq<char>>) -> bool {
    forall|i: int, j: int| 0 <= i < j < s.len() ==> path_less(#[trigger] s[i], #[trigger] s[j])
}

fn remap(s: &String, from: char, to: char) -> (r: String)
    ensures
        r@ == s@.map_values(|c: char| if c == from { to } else { c }),
{
    let cs = chars_of(s.as_str());
    let mut r = String::new();
    let mut i: usize = 0;
    while i < cs.len()
        invariant
            i <= cs.len(),
            cs@ == s@,
            r@ == s@.subrange(0, i as int).map_values(|c: char| if c == from { to } else { c }),
        decreases cs.len() - i,
    {
        let c = if cs[i] == from {
            to
        } else {
            cs[i]
        };
        crate::text::push_char(&mut r, c);
        i += 1;
        assert(r@ =~= s@.subrange(0, i as int).map_values(
            |c: char| if c == from { to } else { c },
        ));
    }
    assert(s@.subrange(0, i as int) =~= s@);
    r
}

/// Distinct paths in increasing path order.
fn sort_paths(files: &Vec<String>) -> (r: Vec<String>)
    requires
        forall|i: int| 0 <= i < files@.len() ==> !(#[trigger] files@[i]@).contains('\0'),
    ensures
        paths_sorted(r.deep_view()),
        forall|t: Seq<char>| r.deep_view().contains(t) <==> files.deep_view().contains(t),
{
    let ghost fs = files.deep_view();
    let mut keys: Vec<String> = Vec::new();
    let mut i: usize = 0;
    while i < files.len()
        invariant
            i <= files.len(),
            fs == files.deep_view(),
            keys.deep_view() == path_keys(fs.subrange(0, i as int)),
        decreases files.len() - i,
    {
        let k = remap(&files[i], '/', '\0');
        assert(k@ =~= path_key(files@[i as int]@));
        assert(fs[i as int] == files@[i as int]@);
        let ghost before = keys.deep_view();
        let ghost kview = k@;
        keys.push(k);
        assert(keys.deep_view() =~= before.push(kview));
        assert(path_keys(fs.subrange(0, i + 1)) =~= path_keys(fs.subrange(0, i as int)).push(
            path_key(fs[i as int]),
        ));
        i += 1;
    }
    assert(fs.subrange(0, i as int) =~= fs);
    let ghost kv = keys.deep_view();
    let sorted = crate::findings::sorted_distinct_texts(&keys);
    let ghost sv = sorted.deep_view();
    let mut out: Vec<String> = Vec::new();
    let mut j: usize = 0;
    while j < sorted.len()
        invariant
            j <= sorted.len(),
            sv == sorted.deep_view(),
            out.deep_view() == key_paths(sv.subrange(0, j as int)),
        decreases sorted.len() - j,
    {
        let p = remap(&sorted[j], '\0', '/');
        assert(p@ =~= key_path(sorted@[j as int]@));
        assert(sv[j as int] == sorted@[j as int]@);
        let ghost before = out.deep_view();
        let ghost pview = p@;
        out.push(p);
        assert(out.deep_view() =~= before.push(pview));
        assert(key_paths(sv.subrange(0, j + 1)) =~= key_paths(sv.subrange(0, j as int)).push(
            key_path(sv[j as int]),
        ));
        j += 1;
    }
    assert(sv.subrange(0, j as int) =~= sv);
    proof {
        // every sorted key is the key of a file, whose path it gives back
        assert forall|a: int| 0 <= a < sv.len() implies path_key(#[trigger] key_path(sv[a]))
            == sv[a] && fs.contains(key_path(sv[a])) by {
            assert(sv.contains(sv[a]));
            assert(kv.contains(sv[a]));
            let b = choose|b: int| 0 <= b < kv.len() && kv[b] == sv[a];
            assert(kv[b] == path_key(fs[b]));
            assert(!fs[b].contains('\0'));
            assert(key_path(path_key(fs[b])) =~= fs[b]);
            assert(fs.contains(fs[b]));
        }
        let ov = out.deep_view();
        assert forall|a: int, b: int| 0 <= a < b < ov.len() implies path_less(
            #[trigger] ov[a],
            #[trigger] ov[b],
        ) by {
            assert(ov[a] == key_path(sv[a]));
            assert(ov[b] == key_path(sv[b]));
            assert(path_key(key_path(sv[a])) == sv[a]);
            assert(path_key(key_path(sv[b])) == sv[b]);
        }
        assert forall|t: Seq<char>| ov.contains(t) <==> fs.contains(t) by {
            if ov.contains(t) {
                let a = choose|a: int| 0 <= a < ov.len() && ov[a] == t;
                assert(ov[a] == key_path(sv[a]));
                assert(path_key(key_path(sv[a])) == sv[a]);
            }
            if fs.contains(t) {
                let b = choose|b: int| 0 <= b < fs.len() && fs[b] == t;
                assert(kv[b] == path_key(t));
                assert(kv.contains(path_key(t)));
                assert(sv.contains(path_key(t)));
                let a = choose|a: int| 0 <= a < sv.len() && sv[a] == path_key(t);
                assert(!t.contains('\0'));
                assert(key_path(path_key(t)) =~= t);
                assert(ov[a] == t);
            }
        }
    }
    out
}

/// The files a scan analyzes: the discovered PHP files, without those under a `vendor`
/// directory unless vendor code is included, each once and in increasing path order; an error
/// if there are more than the limit. Paths hold no NUL character, as no file-system path does.
pub fn select_files(paths: Vec<String>, options: &ScanOptions) -> (r: Result<Vec<String>, EngineError>)
    requires
        forall|i: int| 0 <= i < paths@.len() ==> !(#[trigger] paths@[i]@).contains('\0'),
    ensures
        match r {
            Ok(files) => {
                &&& paths_sorted(files.deep_view())
                &&& forall|t: Seq<char>|
                    files.deep_view().contains(t) <==> scanned_files(
                        paths.deep_view(),
                        options.include_vendor,
                    ).contains(t)
                &&& scanned_files(paths.deep_view(), options.include_vendor).len()
                    <= options.max_files
            },
            Err(e) => e == EngineError::TooManyFiles(
                scanned_files(paths.deep_view(), options.include_vendor).len() as usize,
                options.max_files,
            ) && scanned_files(paths.deep_view(), options.include_vendor).len() > options.max_files,
        },
{
    let ghost all = paths.deep_view();
    let frontend = PhpFrontend::new();
    let mut files: Vec<String> = Vec::new();
    let mut i: usize = 0;
    while i < paths.len()
        invariant
            i <= paths.len(),
            all == paths.deep_view(),
            files.deep_view() == scanned_files(all.subrange(0, i as int), options.include_vendor),
        decreases paths.len() - i,
    {
        let ghost s = all.subrange(0, i + 1);
        assert(s.drop_last() =~= all.subrange(0, i as int));
        assert(s.last() == paths@[i as int]@);
        let p = paths[i].as_str();
        if frontend.supports_file(p) && (options.include_vendor || !in_vendor_exec(p)) {
            let ghost before = files.deep_view();
            files.push(paths[i].clone());
            assert(files.deep_view() =~= before.push(paths@[i as int]@));
        }
        i += 1;
    }
    assert(all.subrange(0, i as int) =~= all);
    if files.len() > options.max_files {
        return Err(EngineError::TooManyFiles(files.len(), options.max_files));
    }
    proof {
        lemma_scanned_from(all, options.include_vendor);
        assert forall|k: int| 0 <= k < files@.len() implies !(#[trigger] files@[k]@).contains(
            '\0',
        ) by {
            assert(files.deep_view()[k] == files@[k]@);
            assert(files.deep_view().contains(files@[k]@));
            let w = choose|w: int| 0 <= w < all.len() && all[w] == files@[k]@;
            assert(all[w] == paths@[w]@);
        }
    }
    Ok(sort_paths(&files))
}

// ---------------------------------------------------------------------------------------------
// Recording file outcomes
/// The number of syntax errors among diagnostics.
pub open spec fn parse_error_count(ds: Seq<Diagnostic>) -> nat
    decreases ds.len(),
{
    if ds.len() == 0 {
        0
    } else {
        parse_error_count(ds.drop_last()) + if ds.last().code@ == "PHP-PARSE-001"@ {
            1nat
        } else {
            0nat
        }
    }
}

/// A warning without a location.
pub open spec fn scan_warning(d: Diagnostic, code: Seq<char>, message: Seq<char>) -> bool {
    &&& d.code@ == code
    &&& d.message@ == message
    &&& d.severity == DiagnosticSeverity::Warning
    &&& d.location is None
}

impl ScanEngine {
    /// An engine with these frontends and rules.
    pub fn new(frontends: Vec<PhpFrontend>, rules: Vec<AnyRule>) -> (r: Self)
        ensures
            r.frontends@ == frontends@,
            r.rules@ == rules@,
    {
        ScanEngine { frontends, rules }
    }

    /// The PHP frontend of the engine.
    pub fn php_frontend(&self) -> (r: Result<PhpFrontend, EngineError>)
        ensures
            r is Err <==> self.frontends@.len() == 0,
    {
        if self.frontends.len() == 0 {
            Err(EngineError::NoFrontend)
        } else {
            Ok(self.frontends[0])
        }
    }

    /// The state of a scan of `files_discovered` files before any is read.
    pub fn start(&self, files_discovered: usize) -> (r: ScanState)
        ensures
            r.statistics == (ScanStatistics {
                files_discovered,
                files_parsed: 0,
                files_skipped: 0,
                parse_errors: 0,
                diagnostics: 0,
                findings: 0,
                suppressed_findings: 0,
            }),
            r.diagnostics@.len() == 0,
            r.findings@.len() == 0,
    {
        ScanState {
            statistics: ScanStatistics {
                files_discovered,
                files_parsed: 0,
                files_skipped: 0,
                parse_errors: 0,
                diagnostics: 0,
                findings: 0,
                suppressed_findings: 0,
            },
            diagnostics: Vec::new(),
            findings: Vec::new(),
        }
    }

    /// Whether a file of this size is skipped.
    pub fn exceeds_size_limit(options: &ScanOptions, size: u64) -> (r: bool)
        ensures
            r == (size > options.max_file_size),
    {
        size > options.max_file_size
    }

    fn skip(state: &mut ScanState, code: &str, message: String)
        requires
            old(state).statistics.files_skipped < usize::MAX,
        ensures
            final(state).statistics == (ScanStatistics {
                files_skipped: (old(state).statistics.files_skipped + 1) as usize,
                ..old(state).statistics
            }),
            final(state).findings == old(state).findings,
            final(state).diagnostics@.len() == old(state).diagnostics@.len() + 1,
            final(state).diagnostics@.drop_last() == old(state).diagnostics@,
            scan_warning(final(state).diagnostics@.last(), code@, message@),
    {
        state.statistics.files_skipped = state.statistics.files_skipped + 1;
        let ghost before = state.diagnostics@;
        state.diagnostics.push(
            Diagnostic {
                code: owned(code),
                message,
                severity: DiagnosticSeverity::Warning,
                location: None,
            },
        );
        assert(state.diagnostics@.drop_last() =~= before);
    }

    /// Records a file whose metadata could not be read: it is skipped with a warning.
    pub fn record_inspect_failure(state: &mut ScanState, error: &str)
        requires
            old(state).statistics.files_skipped < usize::MAX,
        ensures
            final(state).statistics == (ScanStatistics {
                files_skipped: (old(state).statistics.files_skipped + 1) as usize,
                ..old(state).statistics
            }),
            final(state).findings == old(state).findings,
            final(state).diagnostics@.drop_last() == old(state).diagnostics@,
            final(state).diagnostics@.len() == old(state).diagnostics@.len() + 1,
            scan_warning(
                final(state).diagnostics@.last(),
                "SCAN-READ-001"@,
                "Failed to inspect file: "@ + error@,
            ),
    {
        Self::skip(state, "SCAN-READ-001", join2("Failed to inspect file: ", error));
    }

    /// Records a file larger than the limit: it is skipped with a warning.
    pub fn record_oversized(state: &mut ScanState, relative: &str, limit: u64)
        requires
            old(state).statistics.files_skipped < usize::MAX,
        ensures
            final(state).statistics == (ScanStatistics {
                files_skipped: (old(state).statistics.files_skipped + 1) as usize,
                ..old(state).statistics
            }),
            final(state).findings == old(state).findings,
            final(state).diagnostics@.drop_last() == old(state).diagnostics@,
            final(state).diagnostics@.len() == old(state).diagnostics@.len() + 1,
            scan_warning(
                final(state).diagnostics@.last(),
                "SCAN-LIMIT-001"@,
                "Skipped "@ + relative@ + " because it exceeds the "@ + decimal(limit as nat)
                    + " byte file-size limit"@,
            ),
    {
        let n = decimal_u64(limit);
        let mut message = join3("Skipped ", relative, " because it exceeds the ");
        message.append(n.as_str());
        message.append(" byte file-size limit");
        Self::skip(state, "SCAN-LIMIT-001", message);
    }

    /// Records a file that could not be read: it is skipped with a warning.
    pub fn record_read_failure(state: &mut ScanState, relative: &str, error: &str)
        requires
            old(state).statistics.files_skipped < usize::MAX,
        ensures
            final(state).statistics == (ScanStatistics {
                files_skipped: (old(state).statistics.files_skipped + 1) as usize,
                ..old(state).statistics
            }),
            final(state).findings == old(state).findings,
            final(state).diagnostics@.drop_last() == old(state).diagnostics@,
            final(state).diagnostics@.len() == old(state).diagnostics@.len() + 1,
            scan_warning(
                final(state).diagnostics@.last(),
                "SCAN-READ-002"@,
                "Failed to read "@ + relative@ + ": "@ + error@,
            ),
    {
        let mut message = join3("Failed to read ", relative, ": ");
        message.append(error);
        Self::skip(state, "SCAN-READ-002", message);
    }

    /// Records a file the frontend could not lower: a parse error with an error diagnostic.
    pub fn record_lowering_failure(state: &mut ScanState, error: FrontendError)
        requires
            old(state).statistics.parse_errors < usize::MAX,
        ensures
            final(state).statistics == (ScanStatistics {
                parse_errors: (old(state).statistics.parse_errors + 1) as usize,
                ..old(state).statistics
            }),
            final(state).findings == old(state).findings,
            final(state).diagnostics@.drop_last() == old(state).diagnostics@,
            final(state).diagnostics@.len() == old(state).diagnostics@.len() + 1,
            final(state).diagnostics@.last().code@ == "PHP-PARSE-002"@,
            final(state).diagnostics@.last().severity == DiagnosticSeverity::Error,
            final(state).diagnostics@.last().location is None,
            final(state).diagnostics@.last().message@ == frontend_error_text(error),
    {
        state.statistics.parse_errors = state.statistics.parse_errors + 1;
        let ghost before = state.diagnostics@;
        state.diagnostics.push(
            Diagnostic {
                code: owned("PHP-PARSE-002"),
                message: error.message(),
                severity: DiagnosticSeverity::Error,
                location: None,
            },
        );
        assert(state.diagnostics@.drop_last() =~= before);
    }

    /// Records a lowered file: it counts as parsed, its syntax errors are counted, its
    /// diagnostics are kept and every rule's findings on it are added, rule after rule.
    pub fn record_lowering(&self, state: &mut ScanState, output: FrontendOutput)
        requires
            old(state).statistics.files_parsed < usize::MAX,
            old(state).statistics.parse_errors + output.diagnostics@.len() <= usize::MAX,
        ensures
            final(state).statistics == (ScanStatistics {
                files_parsed: (old(state).statistics.files_parsed + 1) as usize,
                parse_errors: (old(state).statistics.parse_errors + parse_error_count(
                    output.diagnostics@,
                )) as usize,
                ..old(state).statistics
            }),
            final(state).diagnostics@ == old(state).diagnostics@ + output.diagnostics@,
            final(state).findings.deep_view() == old(state).findings.deep_view() + rules_findings(
                self.rules@,
                output.module,
            ),
    {
        let module = output.module;
        let mut diagnostics = output.diagnostics;
        assert(diagnostics@ == output.diagnostics@);
        let mut count: usize = 0;
        let mut i: usize = 0;
        while i < diagnostics.len()
            invariant
                i <= diagnostics.len(),
                diagnostics@ == output.diagnostics@,
                *state == *old(state),
                count == parse_error_count(diagnostics@.subrange(0, i as int)),
                count <= i,
            decreases diagnostics.len() - i,
        {
            proof {
                let s = diagnostics@.subrange(0, i + 1);
                assert(s.drop_last() =~= diagnostics@.subrange(0, i as int));
                assert(s.last() == diagnostics@[i as int]);
            }
            if same(diagnostics[i].code.as_str(), "PHP-PARSE-001") {
                count += 1;
            }
            i += 1;
        }
        assert(diagnostics@.subrange(0, i as int) =~= diagnostics@);
        state.statistics.files_parsed = state.statistics.files_parsed + 1;
        state.statistics.parse_errors = state.statistics.parse_errors + count;
        let ghost before = state.diagnostics@;
        let ghost added = diagnostics@;
        state.diagnostics.append(&mut diagnostics);
        assert(state.diagnostics@ =~= before + added);
        let analysis = ModuleAnalysis::new(&module);
        let ghost start = state.findings.deep_view();
        let ghost stats = state.statistics;
        let ghost diags = state.diagnostics@;
        let mut k: usize = 0;
        while k < self.rules.len()
            invariant
                k <= self.rules.len(),
                state.statistics == stats,
                state.diagnostics@ == diags,
                analysis.analyzed() == module,
                state.findings.deep_view() == start + rules_findings(
                    self.rules@.subrange(0, k as int),
                    module,
                ),
            decreases self.rules.len() - k,
        {
            let mut found = self.rules[k].evaluate(&analysis);
            let ghost prev = state.findings.deep_view();
            let ghost f = found.deep_view();
            state.findings.append(&mut found);
            assert(state.findings.deep_view() =~= prev + f);
            proof {
                let s = self.rules@.subrange(0, k + 1);
                assert(s.drop_last() =~= self.rules@.subrange(0, k as int));
                assert(s.last() == self.rules@[k as int]);
            }
            k += 1;
        }
        assert(self.rules@.subrange(0, k as int) =~= self.rules@);
    }

    /// Lowers a file and records the outcome.
    pub fn process_source(&self, state: &mut ScanState, source: &SourceFile) -> (r: Result<(), EngineError>)
        requires
            old(state).statistics.files_parsed < usize::MAX,
            old(state).statistics.parse_errors < usize::MAX,
        ensures
            r is Err <==> self.frontends@.len() == 0,
            r is Err ==> *final(state) == *old(state),
            final(state).statistics.files_skipped == old(state).statistics.files_skipped,
            final(state).statistics.files_discovered == old(state).statistics.files_discovered,
            r is Ok ==> {
                ||| exists|root: SyntaxNode, module: ModuleIr|
                    {
                        &&& php_tree_of(root, source.content@)
                        &&& #[trigger] lowering_of(root, source.path@, module)
                        &&& final(state).findings.deep_view() == old(state).findings.deep_view()
                            + rules_findings(self.rules@, module)
                        &&& final(state).statistics.files_parsed == old(state).statistics.files_parsed
                            + 1
                    }
                ||| {
                    &&& final(state).findings == old(state).findings
                    &&& final(state).statistics.files_parsed == old(state).statistics.files_parsed
                    &&& final(state).statistics.parse_errors == old(state).statistics.parse_errors
                        + 1
                    &&& final(state).diagnostics@.len() == old(state).diagnostics@.len() + 1
                    &&& final(state).diagnostics@.last().code@ == "PHP-PARSE-002"@
                    &&& final(state).diagnostics@.last().message@ == frontend_error_text(
                        FrontendError::TooManyValues,
                    )
                    &&& exists|root: SyntaxNode|
                        #[trigger] php_tree_of(root, source.content@) && (lowering_exhausted(
                            root,
                            source.path@,
                        ) || old(state).statistics.parse_errors + syntax_diagnostics(
                            root,
                            source.path@,
                        ).len() > usize::MAX)
                }
            },
    {
        let frontend = match self.php_frontend() {
            Ok(f) => f,
            Err(e) => return Err(e),
        };
        match frontend.parse_and_lower(source) {
            Ok(output) => {
                if state.statistics.parse_errors <= usize::MAX - output.diagnostics.len() {
                    let ghost module = output.module;
                    let ghost root = choose|root: SyntaxNode|
                        #[trigger] php_tree_of(root, source.content@) && frontend_output_of(
                            root,
                            source.path@,
                            output,
                        );
                    self.record_lowering(state, output);
                    assert(php_tree_of(root, source.content@));
                    assert(lowering_of(root, source.path@, module));
                } else {
                    let ghost root = choose|root: SyntaxNode|
                        #[trigger] php_tree_of(root, source.content@) && frontend_output_of(
                            root,
                            source.path@,
                            output,
                        );
                    assert(output.diagnostics@.len() == syntax_diagnostics(
                        root,
                        source.path@,
                    ).len());
                    Self::record_lowering_failure(state, FrontendError::TooManyValues);
                    assert(php_tree_of(root, source.content@));
                }
            },
            Err(error) => Self::record_lowering_failure(state, error),
        }
        Ok(())
    }
}

fn decimal_u64(n: u64) -> (r: String)
    ensures
        r@ == decimal(n as nat),
    decreases n,
{
    if n < 10 {
        let mut r = String::new();
        crate::text::push_char(&mut r, digit(n));
        assert(r@ =~= decimal(n as nat));
        r
    } else {
        let mut r = decimal_u64(n / 10);
        crate::text::push_char(&mut r, digit(n % 10));
        r
    }
}

fn digit(d: u64) -> (c: char)
    requires
        d < 10,
    ensures
        c == crate::text::digit_char(d as nat),
{
    ((d as u8) + 48) as char
}

// ---------------------------------------------------------------------------------------------
// Assembling the result
/// Diagnostics ordered by code, keeping diagnostics of the same code in their order.
pub open spec fn diagnostics_in_code_order(ds: Seq<Diagnostic>) -> bool {
    forall|i: int, j: int| 0 <= i < j < ds.len() ==> !text_less(#[trigger] ds[j].code@, #[trigger] ds[i].code@)
}

/// `out` is `input` reordered by `perm`, keeping diagnostics of the same code in order.
pub open spec fn stable_code_arrangement(out: Seq<Diagnostic>, input: Seq<Diagnostic>, perm: Seq<int>) -> bool {
    &&& out.len() == input.len()
    &&& perm.len() == out.len()
    &&& forall|i: int| 0 <= i < perm.len() ==> 0 <= #[trigger] perm[i] < input.len()
    &&& forall|i: int, j: int| 0 <= i < j < perm.len() ==> #[trigger] perm[i] != #[trigger] perm[j]
    &&& forall|i: int| 0 <= i < out.len() ==> #[trigger] out[i] == input[perm[i]]
    &&& forall|i: int, j: int|
        0 <= i < j < out.len() && (#[trigger] out[i]).code@ == (#[trigger] out[j]).code@ ==> perm[i]
            < perm[j]
}

spec fn code_prefix(out: Seq<Diagnostic>, input: Seq<Diagnostic>, perm: Seq<int>, i: int) -> bool {
    &&& out.len() == i
    &&& perm.len() == i
    &&& diagnostics_in_code_order(out)
    &&& forall|k: int| 0 <= k < perm.len() ==> 0 <= #[trigger] perm[k] < i
    &&& forall|a: int, b: int| 0 <= a < b < perm.len() ==> #[trigger] perm[a] != #[trigger] perm[b]
    &&& forall|k: int| 0 <= k < out.len() ==> #[trigger] out[k] == input[perm[k]]
    &&& forall|a: int, b: int|
        0 <= a < b < out.len() && (#[trigger] out[a]).code@ == (#[trigger] out[b]).code@ ==> perm[a]
            < perm[b]
}

proof fn lemma_insert_code(
    old_out: Seq<Diagnostic>,
    old_perm: Seq<int>,
    input: Seq<Diagnostic>,
    x: Diagnostic,
    k: int,
    i: int,
    new_out: Seq<Diagnostic>,
    new_perm: Seq<int>,
)
    requires
        0 <= i < input.len(),
        code_prefix(old_out, input, old_perm, i),
        x == input[i],
        0 <= k <= old_out.len(),
        forall|m: int| 0 <= m < k ==> !text_less(x.code@, #[trigger] old_out[m].code@),
        k < old_out.len() ==> text_less(x.code@, old_out[k].code@),
        new_out == old_out.insert(k, x),
        new_perm == old_perm.subrange(0, k).push(i) + old_perm.subrange(k, old_perm.len() as int),
    ensures
        code_prefix(new_out, input, new_perm, i + 1),
{
    assert forall|a: int| 0 <= a < new_out.len() implies #[trigger] new_out[a] == input[new_perm[a]]
        && 0 <= new_perm[a] < i + 1 by {
        if a < k {
            assert(new_out[a] == old_out[a]);
            assert(new_perm[a] == old_perm[a]);
        } else if a == k {
            assert(new_perm[a] == i);
        } else {
            assert(new_out[a] == old_out[a - 1]);
            assert(new_perm[a] == old_perm[a - 1]);
        }
    }
    assert forall|a: int, b: int| 0 <= a < b < new_perm.len() implies #[trigger] new_perm[a]
        != #[trigger] new_perm[b] by {
        let pa = if a < k { a } else { a - 1 };
        let pb = if b < k { b } else { b - 1 };
        if a != k && b != k {
            assert(new_perm[a] == old_perm[pa]);
            assert(new_perm[b] == old_perm[pb]);
        } else if a == k {
            assert(new_perm[b] == old_perm[pb]);
        } else {
            assert(new_perm[a] == old_perm[pa]);
        }
    }
    assert forall|a: int, b: int| 0 <= a < b < new_out.len() implies !text_less(
        #[trigger] new_out[b].code@,
        #[trigger] new_out[a].code@,
    ) by {
        if a != k && b != k {
            let pa = if a < k { a } else { a - 1 };
            let pb = if b < k { b } else { b - 1 };
            assert(new_out[a] == old_out[pa]);
            assert(new_out[b] == old_out[pb]);
        } else if a == k {
            let y = old_out[b - 1];
            assert(new_out[b] == y);
            if text_less(y.code@, x.code@) {
                lemma_text_less_transitive(y.code@, x.code@, old_out[k].code@);
                if b - 1 > k {
                    assert(!text_less(y.code@, old_out[k].code@));
                } else {
                    lemma_text_less_irreflexive(y.code@);
                }
            }
        } else {
            assert(new_out[a] == old_out[a]);
        }
    }
    assert forall|a: int, b: int|
        0 <= a < b < new_out.len() && (#[trigger] new_out[a]).code@ == (#[trigger] new_out[b]).code@
            implies new_perm[a] < new_perm[b] by {
        if a != k && b != k {
            let pa = if a < k { a } else { a - 1 };
            let pb = if b < k { b } else { b - 1 };
            assert(new_out[a] == old_out[pa]);
            assert(new_out[b] == old_out[pb]);
            assert(new_perm[a] == old_perm[pa]);
            assert(new_perm[b] == old_perm[pb]);
        } else if a == k {
            let y = old_out[b - 1];
            assert(new_out[b] == y);
            if b - 1 > k {
                assert(!text_less(y.code@, old_out[k].code@));
                lemma_text_less_total(y.code@, old_out[k].code@);
            }
            assert(false);
        } else {
            assert(new_out[a] == old_out[a]);
            assert(new_perm[a] == old_perm[a]);
            assert(new_perm[b] == i);
        }
    }
}

/// Diagnostics ordered by code, keeping diagnostics of the same code in their order.
pub fn sort_diagnostics(diagnostics: Vec<Diagnostic>) -> (r: Vec<Diagnostic>)
    ensures
        diagnostics_in_code_order(r@),
        exists|perm: Seq<int>| #[trigger] stable_code_arrangement(r@, diagnostics@, perm),
{
    let ghost input = diagnostics@;
    let mut pending = diagnostics;
    let n = pending.len();
    let mut out: Vec<Diagnostic> = Vec::new();
    let mut keys: Vec<Vec<char>> = Vec::new();
    let ghost mut perm: Seq<int> = seq![];
    let mut i: usize = 0;
    while pending.len() > 0
        invariant
            i + pending@.len() == n,
            input.len() == n,
            pending@ == input.subrange(i as int, n as int),
            code_prefix(out@, input, perm, i as int),
            keys@.len() == out@.len(),
            forall|m: int| 0 <= m < keys@.len() ==> (#[trigger] keys@[m])@ == out@[m].code@,
        decreases pending@.len(),
    {
        let d = pending.remove(0);
        assert(d == input[i as int]);
        let key = chars_of(d.code.as_str());
        let mut k: usize = 0;
        while k < out.len() && !text_less_exec(&key, &keys[k])
            invariant
                k <= out@.len(),
                keys@.len() == out@.len(),
                forall|m: int| 0 <= m < keys@.len() ==> (#[trigger] keys@[m])@ == out@[m].code@,
                forall|m: int| 0 <= m < k ==> !text_less(key@, #[trigger] out@[m].code@),
            decreases out@.len() - k,
        {
            k += 1;
        }
        let ghost old_out = out@;
        let ghost old_perm = perm;
        let ghost old_keys = keys@;
        out.insert(k, d);
        keys.insert(k, key);
        proof {
            perm = old_perm.subrange(0, k as int).push(i as int) + old_perm.subrange(
                k as int,
                old_perm.len() as int,
            );
            lemma_insert_code(old_out, old_perm, input, d, k as int, i as int, out@, perm);
            assert forall|m: int| 0 <= m < keys@.len() implies (#[trigger] keys@[m])@
                == out@[m].code@ by {
                if m < k {
                    assert(keys@[m] == old_keys[m]);
                } else if m > k {
                    assert(keys@[m] == old_keys[m - 1]);
                }
            }
        }
        i += 1;
        assert(pending@ =~= input.subrange(i as int, n as int));
    }
    assert(stable_code_arrangement(out@, input, perm));
    out
}

impl ScanEngine {
    /// The result of a scan: the findings in report order, the diagnostics by code, their
    /// counts, and the project's language and frameworks.
    pub fn finish(state: ScanState, root: String, detection: ProjectDetection) -> (r: ScanResult)
        ensures
            r.project.root == root,
            r.project.languages@.len() == 1,
            r.project.languages@[0] == detection.language,
            r.project.frameworks == detection.frameworks,
            in_report_order(r.findings@),
            exists|perm: Seq<int>| #[trigger] stable_arrangement(r.findings@, state.findings@, perm),
            diagnostics_in_code_order(r.diagnostics@),
            exists|perm: Seq<int>|
                #[trigger] stable_code_arrangement(r.diagnostics@, state.diagnostics@, perm),
            r.statistics == (ScanStatistics {
                findings: state.findings@.len() as usize,
                diagnostics: state.diagnostics@.len() as usize,
                ..state.statistics
            }),
    {
        let ScanState { statistics, diagnostics, findings } = state;
        let findings = sort_for_report(findings);
        let diagnostics = sort_diagnostics(diagnostics);
        let mut statistics = statistics;
        statistics.findings = findings.len();
        statistics.diagnostics = diagnostics.len();
        let mut languages: Vec<String> = Vec::new();
        languages.push(detection.language);
        ScanResult {
            project: ProjectMetadata { root, languages, frameworks: detection.frameworks },
            statistics,
            diagnostics,
            findings,
        }
    }
}

} // verus!
