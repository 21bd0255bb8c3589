//! The versioned project configuration: its model, its validation and path resolution.
use crate::findings::{text_less, Severity};
use crate::rulepack::is_blank;
use crate::text::{decimal, decimal_exec, join2, join3, owned, starts_with, trim_exec};
use vstd::prelude::*;

verus! {

/// The name of the configuration file looked up at the scan root.
pub const CONFIG_FILE_NAME: &'static str = ".fermio.toml";

/// The only configuration schema version this library reads.
pub const CONFIG_SCHEMA_VERSION: u32 = 1;

/// Scan limits and defaults from the configuration.
#[derive(Debug, Clone)]
pub struct ScanConfig {
    pub include_vendor: Option<bool>,
    pub max_files: Option<usize>,
    pub max_file_size: Option<u64>,
    pub fail_on: Option<Severity>,
    pub baseline: Option<String>,
}

/// Rule selection and severity overrides. The overrides are kept in increasing order of rule
/// identifier, each identifier once.
#[derive(Debug, Clone)]
pub struct RulesConfig {
    pub enabled: Option<Vec<String>>,
    pub disabled: Vec<String>,
    pub severity: Vec<(String, Severity)>,
}

/// Which rulepacks to load besides the compiled rules.
#[derive(Debug, Clone)]
pub struct RulepacksConfig {
    pub builtins: bool,
    pub paths: Vec<String>,
}

/// The whole configuration document.
#[derive(Debug, Clone)]
pub struct FermioConfig {
    pub schema_version: u32,
    pub scan: ScanConfig,
    pub rules: RulesConfig,
    pub rulepacks: RulepacksConfig,
}

/// A configuration and the file it was read from, if any.
#[derive(Debug, Clone)]
pub struct LoadedConfig {
    pub config: FermioConfig,
    pub path: Option<String>,
}

impl Default for ScanConfig {
    fn default() -> (r: Self)
        ensures
            r.include_vendor is None,
            r.max_files is None,
            r.max_file_size is None,
            r.fail_on is None,
            r.baseline is None,
    {
        ScanConfig {
            include_vendor: None,
            max_files: None,
            max_file_size: None,
            fail_on: None,
            baseline: None,
        }
    }
}

impl Default for RulesConfig {
    fn default() -> (r: Self)
        ensures
            r.enabled is None,
            r.disabled@.len() == 0,
            r.severity@.len() == 0,
    {
        RulesConfig { enabled: None, disabled: Vec::new(), severity: Vec::new() }
    }
}

impl Default for RulepacksConfig {
    fn default() -> (r: Self)
        ensures
            r.builtins,
            r.paths@.len() == 0,
    {
        RulepacksConfig { builtins: true, paths: Vec::new() }
    }
}

impl Default for FermioConfig {
    fn default() -> (r: Self)
        ensures
            r.schema_version == CONFIG_SCHEMA_VERSION,
            r.scan.include_vendor is None,
            r.scan.max_files is None,
            r.scan.max_file_size is None,
            r.scan.fail_on is None,
            r.scan.baseline is None,
            r.rules.enabled is None,
            r.rules.disabled@.len() == 0,
            r.rules.severity@.len() == 0,
            r.rulepacks.builtins,
            r.rulepacks.paths@.len() == 0,
    {
        FermioConfig {
            schema_version: CONFIG_SCHEMA_VERSION,
            scan: ScanConfig::default(),
            rules: RulesConfig::default(),
            rulepacks: RulepacksConfig::default(),
        }
    }
}

// ---------------------------------------------------------------------------------------------
// Paths
/// A path that starts at the file-system root.
pub open spec fn is_absolute_path(p: Seq<char>) -> bool {
    p.len() > 0 && p[0] == '/'
}

/// A path without trailing separators and trailing `.` components; a leading separator stays.
pub open spec fn trim_tail(p: Seq<char>) -> Seq<char>
    decreases p.len(),
{
    if p.len() > 1 && p.last() == '/' {
        trim_tail(p.drop_last())
    } else if p.len() > 1 && p.last() == '.' && p[p.len() - 2] == '/' {
        trim_tail(p.drop_last())
    } else {
        p
    }
}

/// The position of the last separator of a path, if it has one.
pub open spec fn last_separator(p: Seq<char>) -> Option<int>
    decreases p.len(),
{
    if p.len() == 0 {
        None
    } else if p.last() == '/' {
        Some(p.len() - 1)
    } else {
        last_separator(p.drop_last())
    }
}

/// The parent directory of a file path, as `std::path::Path::parent` gives it: the path
/// without its last component, the empty path for a bare file name, and none for the empty
/// path and the root.
pub open spec fn parent_of(p: Seq<char>) -> Option<Seq<char>> {
    let q = trim_tail(p);
    if q.len() == 0 || q == seq!['/'] {
        None
    } else {
        match last_separator(q) {
            None => Some(seq![]),
            Some(k) => Some(trim_tail(q.subrange(0, k + 1))),
        }
    }
}

/// `value` joined below the directory `dir`.
pub open spec fn join_path(dir: Seq<char>, value: Seq<char>) -> Seq<char> {
    if is_absolute_path(value) || dir.len() == 0 {
        value
    } else if dir.last() == '/' {
        dir + value
    } else {
        dir + "/"@ + value
    }
}

/// A configured path resolved from the directory of the configuration file, or from the current
/// directory where no file was read; absolute paths stay as they are.
pub open spec fn resolved_path(config_path: Option<Seq<char>>, value: Seq<char>) -> Seq<char> {
    if is_absolute_path(value) {
        value
    } else {
        match config_path {
            Some(p) => match parent_of(p) {
                Some(dir) => join_path(dir, value),
                None => join_path("."@, value),
            },
            None => join_path("."@, value),
        }
    }
}

/// The length of `cs[0..end]` without trailing separators and trailing `.` components.
fn trim_tail_end(cs: &Vec<char>, end: usize) -> (r: usize)
    requires
        end <= cs.len(),
    ensures
        r <= end,
        cs@.subrange(0, r as int) == trim_tail(cs@.subrange(0, end as int)),
{
    let mut n = end;
    while n > 1 && (cs[n - 1] == '/' || (cs[n - 1] == '.' && cs[n - 2] == '/'))
        invariant
            n <= end <= cs.len(),
            trim_tail(cs@.subrange(0, end as int)) == trim_tail(cs@.subrange(0, n as int)),
        decreases n,
    {
        let ghost s = cs@.subrange(0, n as int);
        assert(s.drop_last() =~= cs@.subrange(0, n - 1));
        n -= 1;
    }
    n
}

fn parent_dir_exec(p: &str) -> (r: Option<String>)
    ensures
        r.deep_view() == parent_of(p@),
{
    let cs = crate::text::chars_of(p);
    assert(cs@.subrange(0, cs@.len() as int) =~= cs@);
    let n = trim_tail_end(&cs, cs.len());
    let ghost q = cs@.subrange(0, n as int);
    if n == 0 || (n == 1 && cs[0] == '/') {
        assert(n == 1 ==> q =~= seq!['/']);
        return None;
    }
    assert(q != seq!['/']);
    let mut k = n;
    assert(q.subrange(0, k as int) =~= q);
    while k > 0 && cs[k - 1] != '/'
        invariant
            k <= n <= cs.len(),
            last_separator(q) == last_separator(q.subrange(0, k as int)),
            q == cs@.subrange(0, n as int),
        decreases k,
    {
        let ghost s = q.subrange(0, k as int);
        assert(s.drop_last() =~= q.subrange(0, k - 1));
        k -= 1;
    }
    if k == 0 {
        assert(q.subrange(0, 0) =~= Seq::<char>::empty());
        return Some(String::new());
    }
    assert(q.subrange(0, k as int).last() == '/');
    assert(last_separator(q) == Some(k - 1));
    let m = trim_tail_end(&cs, k);
    assert(q.subrange(0, k as int) =~= cs@.subrange(0, k as int));
    Some(crate::text::string_from(&cs, 0, m))
}

fn is_absolute_exec(p: &str) -> (r: bool)
    ensures
        r == is_absolute_path(p@),
{
    let cs = crate::text::chars_of(p);
    cs.len() > 0 && cs[0] == '/'
}

fn join_path_exec(dir: &str, value: &str) -> (r: String)
    ensures
        r@ == join_path(dir@, value@),
{
    if is_absolute_exec(value) || dir.is_empty() {
        return owned(value);
    }
    let cs = crate::text::chars_of(dir);
    if cs[cs.len() - 1] == '/' {
        join2(dir, value)
    } else {
        join3(dir, "/", value)
    }
}

impl LoadedConfig {
    /// A configured path resolved from the directory of the configuration file.
    pub fn resolve_path(&self, value: &str) -> (r: String)
        ensures
            r@ == resolved_path(self.path.deep_view(), value@),
    {
        if is_absolute_exec(value) {
            return owned(value);
        }
        match &self.path {
            Some(p) => match parent_dir_exec(p.as_str()) {
                Some(dir) => join_path_exec(dir.as_str(), value),
                None => join_path_exec(".", value),
            },
            None => join_path_exec(".", value),
        }
    }
}

// ---------------------------------------------------------------------------------------------
// Validation
/// Why a configuration is refused.
#[derive(Debug, Clone)]
pub enum ConfigError {
    UnsupportedSchemaVersion(u32),
    ZeroMaxFiles,
    ZeroMaxFileSize,
    EmptyRuleId(&'static str),
    DuplicateRule(&'static str, String),
    EnabledAndDisabled(String),
    EmptySeverityRuleId,
    DuplicateSeverityRule(String),
    EmptyRulepackPath,
    DuplicateRulepack(String),
}

/// The mathematical value of a [`ConfigError`].
pub enum ConfigProblem {
    UnsupportedSchemaVersion(u32),
    ZeroMaxFiles,
    ZeroMaxFileSize,
    EmptyRuleId(Seq<char>),
    DuplicateRule(Seq<char>, Seq<char>),
    EnabledAndDisabled(Seq<char>),
    EmptySeverityRuleId,
    DuplicateSeverityRule(Seq<char>),
    EmptyRulepackPath,
    DuplicateRulepack(Seq<char>),
}

impl View for ConfigError {
    type V = ConfigProblem;

    open spec fn view(&self) -> ConfigProblem {
        match self {
            ConfigError::UnsupportedSchemaVersion(v) => ConfigProblem::UnsupportedSchemaVersion(*v),
            ConfigError::ZeroMaxFiles => ConfigProblem::ZeroMaxFiles,
            ConfigError::ZeroMaxFileSize => ConfigProblem::ZeroMaxFileSize,
            ConfigError::EmptyRuleId(name) => ConfigProblem::EmptyRuleId(name@),
            ConfigError::DuplicateRule(name, v) => ConfigProblem::DuplicateRule(name@, v@),
            ConfigError::EnabledAndDisabled(id) => ConfigProblem::EnabledAndDisabled(id@),
            ConfigError::EmptySeverityRuleId => ConfigProblem::EmptySeverityRuleId,
            ConfigError::DuplicateSeverityRule(id) => ConfigProblem::DuplicateSeverityRule(id@),
            ConfigError::EmptyRulepackPath => ConfigProblem::EmptyRulepackPath,
            ConfigError::DuplicateRulepack(p) => ConfigProblem::DuplicateRulepack(p@),
        }
    }
}

/// The first problem among the first `n` entries of a list of rule identifiers: an empty one,
/// or one listed twice.
pub open spec fn rule_list_problem(name: Seq<char>, values: Seq<Seq<char>>, n: int) -> Option<
    ConfigProblem,
>
    decreases n,
{
    if n <= 0 {
        None
    } else {
        match rule_list_problem(name, values, n - 1) {
            Some(p) => Some(p),
            None => if is_blank(values[n - 1]) {
                Some(ConfigProblem::EmptyRuleId(name))
            } else if exists|j: int| 0 <= j < n - 1 && #[trigger] values[j] == values[n - 1] {
                Some(ConfigProblem::DuplicateRule(name, values[n - 1]))
            } else {
                None
            },
        }
    }
}

/// The first of the first `n` disabled rules that is also enabled.
pub open spec fn conflict_problem(enabled: Seq<Seq<char>>, disabled: Seq<Seq<char>>, n: int) -> Option<
    ConfigProblem,
>
    decreases n,
{
    if n <= 0 {
        None
    } else {
        match conflict_problem(enabled, disabled, n - 1) {
            Some(p) => Some(p),
            None => if enabled.contains(disabled[n - 1]) {
                Some(ConfigProblem::EnabledAndDisabled(disabled[n - 1]))
            } else {
                None
            },
        }
    }
}

/// The first of the first `n` rulepack paths that is empty or listed twice.
pub open spec fn rulepack_paths_problem(paths: Seq<Seq<char>>, n: int) -> Option<ConfigProblem>
    decreases n,
{
    if n <= 0 {
        None
    } else {
        match rulepack_paths_problem(paths, n - 1) {
            Some(p) => Some(p),
            None => if is_blank(paths[n - 1]) {
                Some(ConfigProblem::EmptyRulepackPath)
            } else if exists|j: int| 0 <= j < n - 1 && #[trigger] paths[j] == paths[n - 1] {
                Some(ConfigProblem::DuplicateRulepack(paths[n - 1]))
            } else {
                None
            },
        }
    }
}

/// The severity-override identifiers of a configuration.
pub open spec fn override_ids(overrides: Seq<(String, Severity)>) -> Seq<Seq<char>> {
    overrides.map_values(|e: (String, Severity)| e.0@)
}

/// The enabled rules of a configuration, none when the list is absent.
pub open spec fn enabled_ids(config: FermioConfig) -> Seq<Seq<char>> {
    match config.rules.enabled {
        Some(v) => v.deep_view(),
        None => seq![],
    }
}

/// The first of the first `n` identifiers that repeats an earlier one.
pub open spec fn first_repeat(ids: Seq<Seq<char>>, n: int) -> Option<Seq<char>>
    decreases n,
{
    if n <= 0 {
        None
    } else {
        match first_repeat(ids, n - 1) {
            Some(id) => Some(id),
            None => if exists|j: int| 0 <= j < n - 1 && #[trigger] ids[j] == ids[n - 1] {
                Some(ids[n - 1])
            } else {
                None
            },
        }
    }
}

proof fn lemma_first_repeat_stable(ids: Seq<Seq<char>>, n: int, m: int)
    requires
        n <= m,
        first_repeat(ids, n) is Some,
    ensures
        first_repeat(ids, m) == first_repeat(ids, n),
    decreases m - n,
{
    if n < m {
        lemma_first_repeat_stable(ids, n, m - 1);
    }
}

/// The first problem of a configuration, in the order the checks are made.
pub open spec fn config_problem(config: FermioConfig) -> Option<ConfigProblem> {
    let enabled = enabled_ids(config);
    let disabled = config.rules.disabled.deep_view();
    let severities = override_ids(config.rules.severity@);
    let paths = config.rulepacks.paths.deep_view();
    if config.schema_version != CONFIG_SCHEMA_VERSION {
        Some(ConfigProblem::UnsupportedSchemaVersion(config.schema_version))
    } else if config.scan.max_files == Some(0usize) {
        Some(ConfigProblem::ZeroMaxFiles)
    } else if config.scan.max_file_size == Some(0u64) {
        Some(ConfigProblem::ZeroMaxFileSize)
    } else if config.rules.enabled is Some && rule_list_problem(
        "rules.enabled"@,
        enabled,
        enabled.len() as int,
    ) is Some {
        rule_list_problem("rules.enabled"@, enabled, enabled.len() as int)
    } else if rule_list_problem("rules.disabled"@, disabled, disabled.len() as int) is Some {
        rule_list_problem("rules.disabled"@, disabled, disabled.len() as int)
    } else if conflict_problem(enabled, disabled, disabled.len() as int) is Some {
        conflict_problem(enabled, disabled, disabled.len() as int)
    } else if exists|i: int| 0 <= i < severities.len() && is_blank(#[trigger] severities[i]) {
        Some(ConfigProblem::EmptySeverityRuleId)
    } else if first_repeat(severities, severities.len() as int) is Some {
        Some(ConfigProblem::DuplicateSeverityRule(first_repeat(severities, severities.len() as int)->0))
    } else {
        rulepack_paths_problem(paths, paths.len() as int)
    }
}

/// The message of a configuration problem.
pub open spec fn config_problem_text(p: ConfigProblem) -> Seq<char> {
    match p {
        ConfigProblem::UnsupportedSchemaVersion(v) => "unsupported configuration schema version "@
            + decimal(v as nat) + "; expected 1"@,
        ConfigProblem::ZeroMaxFiles => "scan.max_files must be greater than zero"@,
        ConfigProblem::ZeroMaxFileSize => "scan.max_file_size must be greater than zero"@,
        ConfigProblem::EmptyRuleId(name) => name + " contains an empty rule identifier"@,
        ConfigProblem::DuplicateRule(name, v) => name + " contains duplicate rule `"@ + v + "`"@,
        ConfigProblem::EnabledAndDisabled(id) => "rule `"@ + id
            + "` cannot be both enabled and disabled"@,
        ConfigProblem::EmptySeverityRuleId => "rules.severity contains an empty rule identifier"@,
        ConfigProblem::DuplicateSeverityRule(id) => "rules.severity contains duplicate rule `"@ + id
            + "`"@,
        ConfigProblem::EmptyRulepackPath => "rulepacks.paths contains an empty path"@,
        ConfigProblem::DuplicateRulepack(p) => "rulepacks.paths contains duplicate rulepack `"@ + p
            + "`"@,
    }
}

impl ConfigError {
    /// The message of this problem.
    pub fn message(&self) -> (r: String)
        ensures
            r@ == config_problem_text(self@),
    {
        match self {
            ConfigError::UnsupportedSchemaVersion(v) => {
                let n = decimal_exec(*v as usize);
                join3("unsupported configuration schema version ", n.as_str(), "; expected 1")
            },
            ConfigError::ZeroMaxFiles => owned("scan.max_files must be greater than zero"),
            ConfigError::ZeroMaxFileSize => owned("scan.max_file_size must be greater than zero"),
            ConfigError::EmptyRuleId(name) => join2(name, " contains an empty rule identifier"),
            ConfigError::DuplicateRule(name, v) => {
                let mut r = join3(name, " contains duplicate rule `", v.as_str());
                r.append("`");
                r
            },
            ConfigError::EnabledAndDisabled(id) => join3(
                "rule `",
                id.as_str(),
                "` cannot be both enabled and disabled",
            ),
            ConfigError::EmptySeverityRuleId => owned(
                "rules.severity contains an empty rule identifier",
            ),
            ConfigError::DuplicateSeverityRule(id) => join3(
                "rules.severity contains duplicate rule `",
                id.as_str(),
                "`",
            ),
            ConfigError::EmptyRulepackPath => owned("rulepacks.paths contains an empty path"),
            ConfigError::DuplicateRulepack(p) => join3(
                "rulepacks.paths contains duplicate rulepack `",
                p.as_str(),
                "`",
            ),
        }
    }
}

fn blank(s: &str) -> (r: bool)
    ensures
        r == is_blank(s@),
{
    let t = trim_exec(s);
    t.as_str().is_empty()
}

proof fn lemma_rule_list_stable(name: Seq<char>, values: Seq<Seq<char>>, n: int, m: int)
    requires
        n <= m,
        rule_list_problem(name, values, n) is Some,
    ensures
        rule_list_problem(name, values, m) == rule_list_problem(name, values, n),
    decreases m - n,
{
    if n < m {
        lemma_rule_list_stable(name, values, n, m - 1);
    }
}

/// Checks that a list of rule identifiers holds no empty and no repeated entry.
pub fn validate_rule_list(name: &'static str, values: &Vec<String>) -> (r: Result<(), ConfigError>)
    ensures
        match r {
            Ok(()) => rule_list_problem(name@, values.deep_view(), values@.len() as int) is None,
            Err(e) => rule_list_problem(name@, values.deep_view(), values@.len() as int) == Some(
                e@,
            ),
        },
{
    let ghost vs = values.deep_view();
    let mut i: usize = 0;
    while i < values.len()
        invariant
            i <= values.len(),
            vs == values.deep_view(),
            rule_list_problem(name@, vs, i as int) is None,
        decreases values.len() - i,
    {
        assert(vs[i as int] == values@[i as int]@);
        if blank(values[i].as_str()) {
            proof {
                lemma_rule_list_stable(name@, vs, i + 1, vs.len() as int);
            }
            return Err(ConfigError::EmptyRuleId(name));
        }
        let mut k: usize = 0;
        while k < i
            invariant
                k <= i,
                i < values.len(),
                vs == values.deep_view(),
                !is_blank(vs[i as int]),
                rule_list_problem(name@, vs, i as int) is None,
                forall|j: int| 0 <= j < k ==> #[trigger] vs[j] != vs[i as int],
            decreases i - k,
        {
            assert(vs[k as int] == values@[k as int]@);
            assert(vs[i as int] == values@[i as int]@);
            if values[k] == values[i] {
                assert(rule_list_problem(name@, vs, i + 1) == Some(
                    ConfigProblem::DuplicateRule(name@, vs[i as int]),
                ));
                proof {
                    lemma_rule_list_stable(name@, vs, i + 1, vs.len() as int);
                }
                return Err(ConfigError::DuplicateRule(name, values[i].clone()));
            }
            k += 1;
        }
        i += 1;
    }
    Ok(())
}

proof fn lemma_conflict_stable(enabled: Seq<Seq<char>>, disabled: Seq<Seq<char>>, n: int, m: int)
    requires
        n <= m,
        conflict_problem(enabled, disabled, n) is Some,
    ensures
        conflict_problem(enabled, disabled, m) == conflict_problem(enabled, disabled, n),
    decreases m - n,
{
    if n < m {
        lemma_conflict_stable(enabled, disabled, n, m - 1);
    }
}

proof fn lemma_paths_stable(paths: Seq<Seq<char>>, n: int, m: int)
    requires
        n <= m,
        rulepack_paths_problem(paths, n) is Some,
    ensures
        rulepack_paths_problem(paths, m) == rulepack_paths_problem(paths, n),
    decreases m - n,
{
    if n < m {
        lemma_paths_stable(paths, n, m - 1);
    }
}

fn contains_text(values: &Vec<String>, text: &String) -> (r: bool)
    ensures
        r == values.deep_view().contains(text@),
{
    let mut i: usize = 0;
    while i < values.len()
        invariant
            i <= values.len(),
            forall|j: int| 0 <= j < i ==> values.deep_view()[j] != text@,
        decreases values.len() - i,
    {
        assert(values.deep_view()[i as int] == values@[i as int]@);
        if values[i] == *text {
            return true;
        }
        i += 1;
    }
    false
}

fn validate_conflicts(config: &FermioConfig) -> (r: Result<(), ConfigError>)
    ensures
        match r {
            Ok(()) => conflict_problem(
                enabled_ids(*config),
                config.rules.disabled.deep_view(),
                config.rules.disabled@.len() as int,
            ) is None,
            Err(e) => conflict_problem(
                enabled_ids(*config),
                config.rules.disabled.deep_view(),
                config.rules.disabled@.len() as int,
            ) == Some(e@),
        },
{
    let ghost enabled = enabled_ids(*config);
    let ghost disabled = config.rules.disabled.deep_view();
    let empty: Vec<String> = Vec::new();
    let en = match &config.rules.enabled {
        Some(v) => v,
        None => &empty,
    };
    assert(en.deep_view() =~= enabled);
    let mut i: usize = 0;
    while i < config.rules.disabled.len()
        invariant
            i <= config.rules.disabled.len(),
            enabled == enabled_ids(*config),
            en.deep_view() == enabled,
            disabled == config.rules.disabled.deep_view(),
            conflict_problem(enabled, disabled, i as int) is None,
        decreases config.rules.disabled.len() - i,
    {
        assert(disabled[i as int] == config.rules.disabled@[i as int]@);
        if contains_text(en, &config.rules.disabled[i]) {
            assert(conflict_problem(enabled, disabled, i + 1) == Some(
                ConfigProblem::EnabledAndDisabled(disabled[i as int]),
            ));
            proof {
                lemma_conflict_stable(enabled, disabled, i + 1, disabled.len() as int);
            }
            assert(disabled.len() == config.rules.disabled@.len());
            assert(conflict_problem(enabled, disabled, disabled.len() as int) == Some(
                ConfigProblem::EnabledAndDisabled(disabled[i as int]),
            ));
            let e = ConfigError::EnabledAndDisabled(config.rules.disabled[i].clone());
            assert(e@ == ConfigProblem::EnabledAndDisabled(disabled[i as int]));
            return Err(e);
        }
        i += 1;
    }
    Ok(())
}

fn validate_rulepack_paths(paths: &Vec<String>) -> (r: Result<(), ConfigError>)
    ensures
        match r {
            Ok(()) => rulepack_paths_problem(paths.deep_view(), paths@.len() as int) is None,
            Err(e) => rulepack_paths_problem(paths.deep_view(), paths@.len() as int) == Some(e@),
        },
{
    let ghost vs = paths.deep_view();
    let mut i: usize = 0;
    while i < paths.len()
        invariant
            i <= paths.len(),
            vs == paths.deep_view(),
            rulepack_paths_problem(vs, i as int) is None,
        decreases paths.len() - i,
    {
        assert(vs[i as int] == paths@[i as int]@);
        if blank(paths[i].as_str()) {
            proof {
                lemma_paths_stable(vs, i + 1, vs.len() as int);
            }
            return Err(ConfigError::EmptyRulepackPath);
        }
        let mut k: usize = 0;
        while k < i
            invariant
                k <= i,
                i < paths.len(),
                vs == paths.deep_view(),
                !is_blank(vs[i as int]),
                rulepack_paths_problem(vs, i as int) is None,
                forall|j: int| 0 <= j < k ==> #[trigger] vs[j] != vs[i as int],
            decreases i - k,
        {
            assert(vs[k as int] == paths@[k as int]@);
            if paths[k] == paths[i] {
                assert(rulepack_paths_problem(vs, i + 1) == Some(
                    ConfigProblem::DuplicateRulepack(vs[i as int]),
                ));
                proof {
                    lemma_paths_stable(vs, i + 1, vs.len() as int);
                }
                return Err(ConfigError::DuplicateRulepack(paths[i].clone()));
            }
            k += 1;
        }
        i += 1;
    }
    Ok(())
}

/// Checks a configuration, in the order of [`config_problem`].
pub fn validate(config: &FermioConfig) -> (r: Result<(), ConfigError>)
    ensures
        match r {
            Ok(()) => config_problem(*config) is None,
            Err(e) => config_problem(*config) == Some(e@),
        },
{
    if config.schema_version != CONFIG_SCHEMA_VERSION {
        return Err(ConfigError::UnsupportedSchemaVersion(config.schema_version));
    }
    if config.scan.max_files == Some(0usize) {
        return Err(ConfigError::ZeroMaxFiles);
    }
    if config.scan.max_file_size == Some(0u64) {
        return Err(ConfigError::ZeroMaxFileSize);
    }
    match &config.rules.enabled {
        Some(enabled) => match validate_rule_list("rules.enabled", enabled) {
            Ok(()) => {},
            Err(e) => return Err(e),
        },
        None => {},
    }
    match validate_rule_list("rules.disabled", &config.rules.disabled) {
        Ok(()) => {},
        Err(e) => return Err(e),
    }
    match validate_conflicts(config) {
        Ok(()) => {},
        Err(e) => return Err(e),
    }
    let ghost severities = override_ids(config.rules.severity@);
    let ghost paths = config.rulepacks.paths.deep_view();
    let ghost rest = if first_repeat(severities, severities.len() as int) is Some {
        Some(
            ConfigProblem::DuplicateSeverityRule(
                first_repeat(severities, severities.len() as int)->0,
            ),
        )
    } else {
        rulepack_paths_problem(paths, paths.len() as int)
    };
    assert(config_problem(*config) == if exists|i: int|
        0 <= i < severities.len() && is_blank(#[trigger] severities[i]) {
        Some(ConfigProblem::EmptySeverityRuleId)
    } else {
        rest
    });
    let mut i: usize = 0;
    while i < config.rules.severity.len()
        invariant
            i <= config.rules.severity.len(),
            paths == config.rulepacks.paths.deep_view(),
            config_problem(*config) == if exists|i: int|
                0 <= i < severities.len() && is_blank(#[trigger] severities[i]) {
                Some(ConfigProblem::EmptySeverityRuleId)
            } else {
                rest
            },
            rest == (if first_repeat(severities, severities.len() as int) is Some {
                Some(
                    ConfigProblem::DuplicateSeverityRule(
                        first_repeat(severities, severities.len() as int)->0,
                    ),
                )
            } else {
                rulepack_paths_problem(paths, paths.len() as int)
            }),
            severities == override_ids(config.rules.severity@),
            forall|j: int| 0 <= j < i ==> !is_blank(#[trigger] severities[j]),
        decreases config.rules.severity.len() - i,
    {
        assert(severities[i as int] == config.rules.severity@[i as int].0@);
        if blank(config.rules.severity[i].0.as_str()) {
            return Err(ConfigError::EmptySeverityRuleId);
        }
        i += 1;
    }
    let mut n: usize = 0;
    assert(first_repeat(severities, 0) is None);
    while n < config.rules.severity.len()
        invariant
            n <= config.rules.severity.len(),
            severities == override_ids(config.rules.severity@),
            first_repeat(severities, n as int) is None,
            config_problem(*config) == rest,
            rest == (if first_repeat(severities, severities.len() as int) is Some {
                Some(
                    ConfigProblem::DuplicateSeverityRule(
                        first_repeat(severities, severities.len() as int)->0,
                    ),
                )
            } else {
                rulepack_paths_problem(paths, paths.len() as int)
            }),
            paths == config.rulepacks.paths.deep_view(),
        decreases config.rules.severity.len() - n,
    {
        let mut j: usize = 0;
        while j < n
            invariant
                j <= n < config.rules.severity.len(),
                severities == override_ids(config.rules.severity@),
                forall|k: int| 0 <= k < j ==> severities[k] != severities[n as int],
                first_repeat(severities, n as int) is None,
                config_problem(*config) == rest,
                rest == (if first_repeat(severities, severities.len() as int) is Some {
                    Some(
                        ConfigProblem::DuplicateSeverityRule(
                            first_repeat(severities, severities.len() as int)->0,
                        ),
                    )
                } else {
                    rulepack_paths_problem(paths, paths.len() as int)
                }),
                paths == config.rulepacks.paths.deep_view(),
            decreases n - j,
        {
            assert(severities[j as int] == config.rules.severity@[j as int].0@);
            assert(severities[n as int] == config.rules.severity@[n as int].0@);
            if config.rules.severity[j].0 == config.rules.severity[n].0 {
                proof {
                    assert(severities[j as int] == severities[n as int]);
                    let m: int = n + 1;
                    assert(exists|k: int| 0 <= k < m - 1 && #[trigger] severities[k] == severities[m - 1]);
                    assert(first_repeat(severities, m - 1) is None);
                    assert(first_repeat(severities, m) == Some(severities[n as int]));
                    lemma_first_repeat_stable(severities, n + 1, severities.len() as int);
                }
                return Err(ConfigError::DuplicateSeverityRule(config.rules.severity[n].0.clone()));
            }
            j += 1;
        }
        proof {
            let m: int = n + 1;
            assert(first_repeat(severities, m - 1) is None);
            assert(!exists|k: int| 0 <= k < m - 1 && #[trigger] severities[k] == severities[m - 1]);
        }
        n += 1;
    }
    assert(first_repeat(severities, severities.len() as int) is None);
    validate_rulepack_paths(&config.rulepacks.paths)
}

} // verus!
