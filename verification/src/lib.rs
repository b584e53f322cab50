//! Static-analysis engine: walks a source tree, computes per-file code
//! metrics (size, line classes, branch complexity, dependencies, security
//! heuristics) and folds them into a project-wide report.
//!
//! The crate is organised around plain data: file contents arrive as
//! strings, every derived quantity is an integer or a list of strings, and
//! each public operation carries a contract describing exactly what it
//! returns.

pub mod ai;
pub mod ai_enhanced;
pub mod analysis;
pub mod cache;
pub mod detect;
pub mod store;
pub mod text;
pub mod windsurf;

use vstd::prelude::*;

verus! {

use crate::text::{
    after_sub_spec, all_spaces, before_char_spec, before_sub_spec, contains_char_spec,
    count_matches, dec_digits, has_sub, lex_le, lines_of, second_token_spec, starts_with_spec,
    trim_set_spec, trim_spec, trim_start_spec, views_of,
};

/// Severity of a reported security issue, ordered
/// `Low < Medium < High < Critical`.
#[derive(Debug, Clone, Copy, PartialEq, Eq, Structural)]
pub enum IssueSeverity {
    Low,
    Medium,
    High,
    Critical,
}

impl IssueSeverity {
    /// Numeric rank used for threshold comparisons.
    pub open spec fn rank_spec(self) -> int {
        match self {
            IssueSeverity::Low => 0,
            IssueSeverity::Medium => 1,
            IssueSeverity::High => 2,
            IssueSeverity::Critical => 3,
        }
    }

    /// Returns the numeric rank of this severity.
    pub fn rank(self) -> (r: u8)
        ensures
            r as int == self.rank_spec(),
    {
        match self {
            IssueSeverity::Low => 0,
            IssueSeverity::Medium => 1,
            IssueSeverity::High => 2,
            IssueSeverity::Critical => 3,
        }
    }
}

/// Run-level error, carrying a description of what failed.
#[derive(Debug)]
pub enum DevFlowError {
    Io(String),
    Thread(String),
    Semantic(crate::analysis::semantic::SemanticError),
    AI(String),
    InvalidPath(String),
    Serialization(String),
}

impl DevFlowError {
    /// A readable description of the error.
    pub fn message(&self) -> (r: String)
        ensures
            match self {
                DevFlowError::Io(s) => r@ == "IO error: "@ + s@,
                DevFlowError::Thread(s) => r@ == "Thread error: "@ + s@,
                DevFlowError::Semantic(e) => r@ == "Semantic error: "@
                    + crate::analysis::semantic::semantic_message_spec(*e),
                DevFlowError::AI(s) => r@ == "AI error: "@ + s@,
                DevFlowError::InvalidPath(s) => r@ == "Invalid path: "@ + s@,
                DevFlowError::Serialization(s) => r@ == "Serialization error: "@ + s@,
            },
    {
        match self {
            DevFlowError::Io(s) => {
                let mut m = "IO error: ".to_owned();
                m.append(s.as_str());
                m
            },
            DevFlowError::Thread(s) => {
                let mut m = "Thread error: ".to_owned();
                m.append(s.as_str());
                m
            },
            DevFlowError::Semantic(e) => {
                let mut m = "Semantic error: ".to_owned();
                let sub = e.message();
                m.append(sub.as_str());
                m
            },
            DevFlowError::AI(s) => {
                let mut m = "AI error: ".to_owned();
                m.append(s.as_str());
                m
            },
            DevFlowError::InvalidPath(s) => {
                let mut m = "Invalid path: ".to_owned();
                m.append(s.as_str());
                m
            },
            DevFlowError::Serialization(s) => {
                let mut m = "Serialization error: ".to_owned();
                m.append(s.as_str());
                m
            },
        }
    }
}

/// A single security finding on one line of a file.
#[derive(Debug)]
pub struct SecurityIssue {
    pub severity: IssueSeverity,
    pub description: String,
    pub line_number: Option<usize>,
}

/// Spec-level value of a [`SecurityIssue`].
pub struct IssueView {
    pub severity: IssueSeverity,
    pub description: Seq<char>,
    pub line_number: Option<usize>,
}

impl View for SecurityIssue {
    type V = IssueView;

    open spec fn view(&self) -> IssueView {
        IssueView {
            severity: self.severity,
            description: self.description@,
            line_number: self.line_number,
        }
    }
}

impl Clone for SecurityIssue {
    fn clone(&self) -> (r: Self)
        ensures
            r@ == self@,
    {
        SecurityIssue {
            severity: self.severity,
            description: self.description.clone(),
            line_number: self.line_number,
        }
    }
}

/// Metrics derived from one file.
///
/// `complexity` counts branching constructs (`if `, `while `, `for `,
/// `match ` occurrences), with no implicit base value; `last_modified`
/// is seconds since the Unix epoch.
#[derive(Debug)]
pub struct CodeMetrics {
    pub lines_of_code: usize,
    pub blank_lines: usize,
    pub comment_lines: usize,
    pub complexity: u64,
    pub dependencies: Vec<String>,
    pub security_issues: Vec<SecurityIssue>,
    pub last_modified: u64,
    pub size_bytes: u64,
}

/// Spec-level value of a [`CodeMetrics`].
pub struct CodeMetricsView {
    pub lines_of_code: usize,
    pub blank_lines: usize,
    pub comment_lines: usize,
    pub complexity: u64,
    pub dependencies: Seq<Seq<char>>,
    pub security_issues: Seq<IssueView>,
    pub last_modified: u64,
    pub size_bytes: u64,
}

impl View for CodeMetrics {
    type V = CodeMetricsView;

    open spec fn view(&self) -> CodeMetricsView {
        CodeMetricsView {
            lines_of_code: self.lines_of_code,
            blank_lines: self.blank_lines,
            comment_lines: self.comment_lines,
            complexity: self.complexity,
            dependencies: self.dependencies@.map_values(|d: String| d@),
            security_issues: self.security_issues@.map_values(|i: SecurityIssue| i@),
            last_modified: self.last_modified,
            size_bytes: self.size_bytes,
        }
    }
}

impl Clone for CodeMetrics {
    fn clone(&self) -> (r: Self)
        ensures
            r@ == self@,
    {
        let r = CodeMetrics {
            lines_of_code: self.lines_of_code,
            blank_lines: self.blank_lines,
            comment_lines: self.comment_lines,
            complexity: self.complexity,
            dependencies: clone_strings(&self.dependencies),
            security_issues: clone_issues(&self.security_issues),
            last_modified: self.last_modified,
            size_bytes: self.size_bytes,
        };
        proof {
            assert(r@.dependencies =~= self@.dependencies);
            assert(r@.security_issues =~= self@.security_issues);
        }
        r
    }
}

/// Clones a vector of strings, preserving each view.
pub fn clone_strings(v: &Vec<String>) -> (r: Vec<String>)
    ensures
        r@.map_values(|d: String| d@) == v@.map_values(|d: String| d@),
        r@.len() == v@.len(),
{
    let mut r: Vec<String> = Vec::new();
    let mut i: usize = 0;
    while i < v.len()
        invariant
            i <= v@.len(),
            r@.len() == i,
            forall|j: int| 0 <= j < i ==> r@[j]@ == v@[j]@,
        decreases v@.len() - i,
    {
        r.push(v[i].clone());
        i = i + 1;
    }
    proof {
        assert(r@.map_values(|d: String| d@) =~= v@.map_values(|d: String| d@));
    }
    r
}

fn clone_issues(v: &Vec<SecurityIssue>) -> (r: Vec<SecurityIssue>)
    ensures
        r@.map_values(|i: SecurityIssue| i@) == v@.map_values(|i: SecurityIssue| i@),
{
    let mut r: Vec<SecurityIssue> = Vec::new();
    let mut i: usize = 0;
    while i < v.len()
        invariant
            i <= v@.len(),
            r@.len() == i,
            forall|j: int| 0 <= j < i ==> r@[j]@ == v@[j]@,
        decreases v@.len() - i,
    {
        r.push(v[i].clone());
        i = i + 1;
    }
    proof {
        assert(r@.map_values(|i: SecurityIssue| i@) =~= v@.map_values(|i: SecurityIssue| i@));
    }
    r
}

/// Configuration for one analysis run. Not mutated by the engine.
#[derive(Debug)]
pub struct AppConfig {
    pub max_file_size: usize,
    pub ignored_patterns: Vec<String>,
    pub security_patterns: Vec<String>,
    pub min_severity: IssueSeverity,
}

/// The stock ignore globs: build outputs, VCS and editor directories.
pub open spec fn default_ignored() -> Seq<Seq<char>> {
    seq![
        "**/target/**"@,
        "**/.git/**"@,
        "**/.idea/**"@,
        "**/.vscode/**"@,
        "**/.DS_Store"@,
        "**/node_modules/**"@,
        "**/dist/**"@,
        "**/build/**"@,
    ]
}

impl Default for AppConfig {
    /// One megabyte size limit, the stock ignore globs, twenty stock
    /// security patterns, and no severity filtering.
    fn default() -> (r: Self)
        ensures
            r.max_file_size == 1048576,
            r.min_severity == IssueSeverity::Low,
            r.ignored_patterns@.map_values(|s: String| s@) == default_ignored(),
            r.security_patterns@.len() == 20,
    {
        let mut ignored: Vec<String> = Vec::new();
        ignored.push("**/target/**".to_owned());
        ignored.push("**/.git/**".to_owned());
        ignored.push("**/.idea/**".to_owned());
        ignored.push("**/.vscode/**".to_owned());
        ignored.push("**/.DS_Store".to_owned());
        ignored.push("**/node_modules/**".to_owned());
        ignored.push("**/dist/**".to_owned());
        ignored.push("**/build/**".to_owned());
        proof {
            assert(ignored@.map_values(|s: String| s@) =~= default_ignored());
        }
        let mut security: Vec<String> = Vec::new();
        security.push("eval\\s*\\(".to_owned());
        security.push("exec\\s*\\(".to_owned());
        security.push("system\\s*\\(".to_owned());
        security.push("shell_exec\\s*\\(".to_owned());
        security.push("password\\s*=".to_owned());
        security.push("api[_-]?key\\s*=".to_owned());
        security.push("secret\\s*=".to_owned());
        security.push("token\\s*=".to_owned());
        security.push("execute\\s*\\(".to_owned());
        security.push("raw\\s*sql".to_owned());
        security.push("\\.query\\s*\\(".to_owned());
        security.push("file_get_contents\\s*\\(".to_owned());
        security.push("fopen\\s*\\(".to_owned());
        security.push("readFile\\s*\\(".to_owned());
        security.push("unserialize\\s*\\(".to_owned());
        security.push("JSON\\.parse\\s*\\(".to_owned());
        security.push("fromJson\\s*\\(".to_owned());
        security.push("innerHTML\\s*=".to_owned());
        security.push("document\\.write\\s*\\(".to_owned());
        security.push("\\$\\s*\\(".to_owned());
        AppConfig {
            max_file_size: 1048576,
            ignored_patterns: ignored,
            security_patterns: security,
            min_severity: IssueSeverity::Low,
        }
    }
}

// ---------------------------------------------------------------------
// Line classification
// ---------------------------------------------------------------------

/// A line is blank when it trims to nothing.
pub open spec fn is_blank_line(l: Seq<char>) -> bool {
    all_spaces(l)
}

/// A non-blank line whose trimmed form starts with a comment marker.
pub open spec fn is_comment_line(l: Seq<char>) -> bool {
    !is_blank_line(l) && (starts_with_spec(trim_start_spec(l), "//"@) || starts_with_spec(
        trim_start_spec(l),
        "#"@,
    ) || starts_with_spec(trim_start_spec(l), "/*"@))
}

/// A line that counts toward lines of code: neither blank nor comment.
pub open spec fn is_code_line(l: Seq<char>) -> bool {
    !is_blank_line(l) && !is_comment_line(l)
}

/// Number of blank lines.
pub open spec fn count_blank(lines: Seq<Seq<char>>) -> nat
    decreases lines.len(),
{
    if lines.len() == 0 {
        0
    } else {
        (if is_blank_line(lines.last()) {
            1nat
        } else {
            0nat
        }) + count_blank(lines.drop_last())
    }
}

/// Number of comment lines.
pub open spec fn count_comment(lines: Seq<Seq<char>>) -> nat
    decreases lines.len(),
{
    if lines.len() == 0 {
        0
    } else {
        (if is_comment_line(lines.last()) {
            1nat
        } else {
            0nat
        }) + count_comment(lines.drop_last())
    }
}

/// Number of code lines.
pub open spec fn count_code(lines: Seq<Seq<char>>) -> nat
    decreases lines.len(),
{
    if lines.len() == 0 {
        0
    } else {
        (if is_code_line(lines.last()) {
            1nat
        } else {
            0nat
        }) + count_code(lines.drop_last())
    }
}

/// Every line falls in exactly one class, so the three counts partition
/// the line count.
pub proof fn lemma_line_classes_partition(lines: Seq<Seq<char>>)
    ensures
        count_blank(lines) + count_comment(lines) + count_code(lines) == lines.len(),
    decreases lines.len(),
{
    if lines.len() > 0 {
        lemma_line_classes_partition(lines.drop_last());
    }
}

proof fn lemma_counts_bounded(lines: Seq<Seq<char>>)
    ensures
        count_blank(lines) <= lines.len(),
        count_comment(lines) <= lines.len(),
        count_code(lines) <= lines.len(),
{
    lemma_line_classes_partition(lines);
}

/// Classifies the lines of a file, returning
/// `(code_lines, blank_lines, comment_lines)`.
#[verifier::loop_isolation(false)]
pub fn classify_lines(lines: &Vec<Vec<char>>) -> (r: (usize, usize, usize))
    ensures
        r.0 as nat == count_code(views_of(lines@)),
        r.1 as nat == count_blank(views_of(lines@)),
        r.2 as nat == count_comment(views_of(lines@)),
{
    let mut code: usize = 0;
    let mut blank: usize = 0;
    let mut comment: usize = 0;
    let mut i: usize = 0;
    proof {
        assert(views_of(lines@).take(0) =~= Seq::<Seq<char>>::empty());
    }
    while i < lines.len()
        invariant
            i <= lines@.len(),
            code as nat == count_code(views_of(lines@).take(i as int)),
            blank as nat == count_blank(views_of(lines@).take(i as int)),
            comment as nat == count_comment(views_of(lines@).take(i as int)),
            code + blank + comment == i,
        decreases lines@.len() - i,
    {
        let l = &lines[i];
        proof {
            let vs = views_of(lines@);
            assert(vs.take(i + 1).drop_last() =~= vs.take(i as int));
            assert(vs.take(i + 1).last() == l@);
        }
        if is_blank_exec(l) {
            blank = blank + 1;
        } else if is_comment_exec(l) {
            comment = comment + 1;
        } else {
            code = code + 1;
        }
        i = i + 1;
    }
    proof {
        assert(views_of(lines@).take(lines@.len() as int) =~= views_of(lines@));
    }
    (code, blank, comment)
}

/// Blank test for one line.
fn is_blank_exec(l: &Vec<char>) -> (r: bool)
    ensures
        r == is_blank_line(l@),
{
    let mut i: usize = 0;
    while i < l.len()
        invariant
            i <= l@.len(),
            forall|j: int| 0 <= j < i ==> crate::text::is_space(#[trigger] l@[j]),
        decreases l@.len() - i,
    {
        if !crate::text::is_space_char(l[i]) {
            return false;
        }
        i = i + 1;
    }
    true
}

/// Comment test for one line.
fn is_comment_exec(l: &Vec<char>) -> (r: bool)
    requires
        !is_blank_line(l@),
    ensures
        r == is_comment_line(l@),
{
    let n = l.len();
    let mut a: usize = 0;
    while a < n && crate::text::is_space_char(l[a])
        invariant
            a <= n,
            n == l@.len(),
            forall|j: int| 0 <= j < a ==> crate::text::is_space(#[trigger] l@[j]),
        decreases n - a,
    {
        a = a + 1;
    }
    proof {
        crate::text::lemma_first_non_space(l@);
        let fa = crate::text::first_non_space(l@);
        if (a as int) < fa {
            assert(crate::text::is_space(l@[a as int]));
        } else if (a as int) > fa {
            assert(crate::text::is_space(l@[fa]));
        }
    }
    let t = crate::text::copy_range(l, a, n);
    proof {
        assert(t@ =~= trim_start_spec(l@));
    }
    let slashes = crate::text::str_chars("//");
    let hash = crate::text::str_chars("#");
    let block = crate::text::str_chars("/*");
    crate::text::starts_with(&t, &slashes) || crate::text::starts_with(&t, &hash)
        || crate::text::starts_with(&t, &block)
}

// ---------------------------------------------------------------------
// Security heuristics
// ---------------------------------------------------------------------

/// The line looks like a hardcoded secret: a secret-ish keyword next to
/// an assignment or key-value separator.
pub open spec fn line_secret_issue(l: Seq<char>) -> bool {
    (has_sub(l, "password"@) || has_sub(l, "secret"@) || has_sub(l, "api_key"@)) && (
    contains_char_spec(l, '=') || contains_char_spec(l, ':'))
}

/// The line looks like SQL assembled from string literals.
pub open spec fn line_sql_issue(l: Seq<char>) -> bool {
    (has_sub(l, "SELECT"@) || has_sub(l, "INSERT"@) || has_sub(l, "UPDATE"@)) && (
    contains_char_spec(l, '"') || contains_char_spec(l, '\''))
}

/// The line calls a dynamic code-execution primitive.
pub open spec fn line_exec_issue(l: Seq<char>) -> bool {
    has_sub(l, "eval("@) || has_sub(l, "exec("@)
}

pub open spec fn secret_desc(n: nat, l: Seq<char>) -> Seq<char> {
    "Potential hardcoded secret found at line "@ + dec_digits(n) + ": "@ + l
}

pub open spec fn sql_desc(n: nat, l: Seq<char>) -> Seq<char> {
    "Potential SQL injection vulnerability at line "@ + dec_digits(n) + ": "@ + l
}

pub open spec fn exec_desc(n: nat, l: Seq<char>) -> Seq<char> {
    "Unsafe code execution found at line "@ + dec_digits(n) + ": "@ + l
}

/// The findings reported for line `l` with 1-based number `n`, already
/// filtered by the minimum severity `min`.
pub open spec fn issues_for_line(l: Seq<char>, n: usize, min: IssueSeverity) -> Seq<IssueView> {
    let secret: Seq<IssueView> = if line_secret_issue(l)
        && IssueSeverity::High.rank_spec() >= min.rank_spec() {
        seq![
            IssueView {
                severity: IssueSeverity::High,
                description: secret_desc(n as nat, l),
                line_number: Some(n),
            },
        ]
    } else {
        Seq::empty()
    };
    let sql: Seq<IssueView> = if line_sql_issue(l) && IssueSeverity::High.rank_spec()
        >= min.rank_spec() {
        seq![
            IssueView {
                severity: IssueSeverity::High,
                description: sql_desc(n as nat, l),
                line_number: Some(n),
            },
        ]
    } else {
        Seq::empty()
    };
    let exec_: Seq<IssueView> = if line_exec_issue(l) && IssueSeverity::Critical.rank_spec()
        >= min.rank_spec() {
        seq![
            IssueView {
                severity: IssueSeverity::Critical,
                description: exec_desc(n as nat, l),
                line_number: Some(n),
            },
        ]
    } else {
        Seq::empty()
    };
    secret + sql + exec_
}

/// All findings for a file, scanning its lines in order.
pub open spec fn issues_spec(lines: Seq<Seq<char>>, min: IssueSeverity) -> Seq<IssueView>
    decreases lines.len(),
{
    if lines.len() == 0 {
        Seq::empty()
    } else {
        issues_spec(lines.drop_last(), min) + issues_for_line(
            lines.last(),
            lines.len() as usize,
            min,
        )
    }
}

/// No reported finding falls below the configured minimum severity.
pub proof fn lemma_severity_filter(lines: Seq<Seq<char>>, min: IssueSeverity)
    ensures
        forall|k: int|
            0 <= k < issues_spec(lines, min).len() ==> (#[trigger] issues_spec(lines, min)[k])
                .severity.rank_spec() >= min.rank_spec(),
    decreases lines.len(),
{
    if lines.len() > 0 {
        lemma_severity_filter(lines.drop_last(), min);
    }
}

/// Scans the lines of a file for security findings.
///
/// Reports hardcoded-secret and SQL-text heuristics as `High` and
/// dynamic code execution as `Critical`, keeping only findings at or
/// above `config.min_severity`.
#[verifier::loop_isolation(false)]
pub fn check_security_issues(lines: &Vec<Vec<char>>, config: &AppConfig) -> (r: Vec<SecurityIssue>)
    ensures
        r@.map_values(|i: SecurityIssue| i@) == issues_spec(views_of(lines@), config.min_severity),
{
    let mut r: Vec<SecurityIssue> = Vec::new();
    let mut i: usize = 0;
    proof {
        assert(views_of(lines@).take(0) =~= Seq::<Seq<char>>::empty());
        assert(r@.map_values(|x: SecurityIssue| x@) =~= issues_spec(
            views_of(lines@).take(0),
            config.min_severity,
        ));
    }
    while i < lines.len()
        invariant
            i <= lines@.len(),
            r@.map_values(|x: SecurityIssue| x@) == issues_spec(
                views_of(lines@).take(i as int),
                config.min_severity,
            ),
        decreases lines@.len() - i,
    {
        let l = &lines[i];
        let n = i + 1;
        let min_rank = config.min_severity.rank();
        let ghost prev = r@.map_values(|x: SecurityIssue| x@);

        let p_password = crate::text::str_chars("password");
        let p_secret = crate::text::str_chars("secret");
        let p_api_key = crate::text::str_chars("api_key");
        let secret_hit = (crate::text::contains_sub(l, &p_password) || crate::text::contains_sub(
            l,
            &p_secret,
        ) || crate::text::contains_sub(l, &p_api_key)) && (crate::text::contains_char(l, '=')
            || crate::text::contains_char(l, ':'));
        if secret_hit && 2 >= min_rank {
            let desc = build_desc("Potential hardcoded secret found at line ", n, l);
            r.push(
                SecurityIssue {
                    severity: IssueSeverity::High,
                    description: desc,
                    line_number: Some(n),
                },
            );
        }

        let p_select = crate::text::str_chars("SELECT");
        let p_insert = crate::text::str_chars("INSERT");
        let p_update = crate::text::str_chars("UPDATE");
        let sql_hit = (crate::text::contains_sub(l, &p_select) || crate::text::contains_sub(
            l,
            &p_insert,
        ) || crate::text::contains_sub(l, &p_update)) && (crate::text::contains_char(l, '"')
            || crate::text::contains_char(l, '\''));
        if sql_hit && 2 >= min_rank {
            let desc = build_desc("Potential SQL injection vulnerability at line ", n, l);
            r.push(
                SecurityIssue {
                    severity: IssueSeverity::High,
                    description: desc,
                    line_number: Some(n),
                },
            );
        }

        let p_eval = crate::text::str_chars("eval(");
        let p_exec = crate::text::str_chars("exec(");
        let exec_hit = crate::text::contains_sub(l, &p_eval) || crate::text::contains_sub(
            l,
            &p_exec,
        );
        if exec_hit && 3 >= min_rank {
            let desc = build_desc("Unsafe code execution found at line ", n, l);
            r.push(
                SecurityIssue {
                    severity: IssueSeverity::Critical,
                    description: desc,
                    line_number: Some(n),
                },
            );
        }

        proof {
            let vs = views_of(lines@);
            assert(vs.take(i + 1).drop_last() =~= vs.take(i as int));
            assert(vs.take(i + 1).last() == l@);
            assert(r@.map_values(|x: SecurityIssue| x@) =~= prev + issues_for_line(
                l@,
                n,
                config.min_severity,
            ));
        }
        i = i + 1;
    }
    proof {
        assert(views_of(lines@).take(lines@.len() as int) =~= views_of(lines@));
    }
    r
}

/// Builds `prefix + line_number + ": " + line`.
fn build_desc(prefix: &str, n: usize, l: &Vec<char>) -> (r: String)
    ensures
        r@ == prefix@ + dec_digits(n as nat) + ": "@ + l@,
{
    let mut v = crate::text::str_chars(prefix);
    let mut num = crate::text::usize_to_chars(n);
    let mut sep = crate::text::str_chars(": ");
    let mut line = crate::text::copy_range(l, 0, l.len());
    proof {
        assert(line@ =~= l@);
    }
    v.append(&mut num);
    v.append(&mut sep);
    v.append(&mut line);
    let r = crate::text::chars_to_string(&v);
    proof {
        assert(r@ =~= prefix@ + dec_digits(n as nat) + ": "@ + l@);
    }
    r
}

// ---------------------------------------------------------------------
// Dependency extraction
// ---------------------------------------------------------------------

/// Characters stripped around a module path quoted in a `from` import.
pub open spec fn from_quotes() -> Seq<char> {
    seq!['\'', '"', ';']
}

/// Characters stripped around a module path inside `require(...)`.
pub open spec fn require_quotes() -> Seq<char> {
    seq!['\'', '"', ')', ';']
}

/// The dependency named on one line, if the line is an import-style
/// statement: the first path segment of a `use`, the module of an
/// `import`/`from` statement, or the package inside `require(...)`.
pub open spec fn dep_of_line(l: Seq<char>) -> Option<Seq<char>> {
    let t = trim_spec(l);
    if starts_with_spec(t, "use "@) {
        Some(
            trim_set_spec(before_sub_spec(t.skip("use "@.len() as int), "::"@), seq![';']),
        )
    } else if starts_with_spec(t, "import "@) || starts_with_spec(t, "from "@) {
        match second_token_spec(t) {
            Some(tok) => Some(before_char_spec(tok, '.')),
            None => None,
        }
    } else if starts_with_spec(t, "require("@) {
        if has_sub(t, "from "@) {
            match after_sub_spec(t, "from "@) {
                Some(a) => Some(before_char_spec(trim_set_spec(a, from_quotes()), '/')),
                None => None,
            }
        } else {
            match after_sub_spec(t, "require("@) {
                Some(a) => Some(before_char_spec(trim_set_spec(a, require_quotes()), '/')),
                None => None,
            }
        }
    } else {
        None
    }
}

/// Dependencies named by a file's lines, in scan order, duplicates kept.
pub open spec fn raw_deps(lines: Seq<Seq<char>>) -> Seq<Seq<char>>
    decreases lines.len(),
{
    if lines.len() == 0 {
        Seq::empty()
    } else {
        raw_deps(lines.drop_last()) + match dep_of_line(lines.last()) {
            Some(d) => seq![d],
            None => Seq::<Seq<char>>::empty(),
        }
    }
}

/// Inserts `d` into an ordered duplicate-free list, keeping it ordered;
/// inserting an element already present changes nothing.
pub open spec fn insert_sorted(ds: Seq<Seq<char>>, d: Seq<char>) -> Seq<Seq<char>>
    decreases ds.len(),
{
    if ds.len() == 0 {
        seq![d]
    } else if ds[0] == d {
        ds
    } else if lex_le(d, ds[0]) {
        seq![d] + ds
    } else {
        seq![ds[0]] + insert_sorted(ds.drop_first(), d)
    }
}

/// The ordered, duplicate-free list holding exactly the elements of `ds`.
pub open spec fn sort_dedup(ds: Seq<Seq<char>>) -> Seq<Seq<char>>
    decreases ds.len(),
{
    if ds.len() == 0 {
        Seq::empty()
    } else {
        insert_sorted(sort_dedup(ds.drop_last()), ds.last())
    }
}

/// Strictly increasing in lexicographic order: ordered with no repeats.
pub open spec fn strict_sorted(s: Seq<Seq<char>>) -> bool {
    forall|i: int, j: int|
        0 <= i < j < s.len() ==> #[trigger] lex_le(s[i], s[j]) && s[i] != s[j]
}

pub proof fn lemma_strict_sorted_pair(s: Seq<Seq<char>>, i: int, j: int)
    requires
        strict_sorted(s),
        0 <= i < j < s.len(),
    ensures
        lex_le(s[i], s[j]),
        s[i] != s[j],
{
    assert(lex_le(s[i], s[j]) && s[i] != s[j]);
}

pub proof fn lemma_insert_sorted_props(ds: Seq<Seq<char>>, d: Seq<char>)
    requires
        strict_sorted(ds),
    ensures
        strict_sorted(insert_sorted(ds, d)),
        forall|x: Seq<char>|
            #[trigger] insert_sorted(ds, d).contains(x) ==> (ds.contains(x) || x == d),
        forall|x: Seq<char>| #[trigger] ds.contains(x) ==> insert_sorted(ds, d).contains(x),
        insert_sorted(ds, d).contains(d),
    decreases ds.len(),
{
    let r = insert_sorted(ds, d);
    if ds.len() == 0 {
        assert forall|x: Seq<char>| r.contains(x) implies (ds.contains(x) || x == d) by {
            let k = choose|k: int| 0 <= k < r.len() && r[k] == x;
            assert(r[0] == d);
        }
        assert(r.contains(d)) by {
            assert(r[0] == d);
        }
    } else if ds[0] == d {
        assert(ds.contains(d)) by {
            assert(ds[0] == d);
        }
    } else if lex_le(d, ds[0]) {
        // d goes in front: d is strictly below every element
        assert forall|i: int, j: int| 0 <= i < j < r.len() implies #[trigger] lex_le(r[i], r[j])
            && r[i] != r[j] by {
            if i == 0 {
                assert(r[0] == d);
                assert(r[j] == ds[j - 1]);
                if j == 1 {
                    assert(lex_le(d, ds[0]) && d != ds[0]);
                } else {
                    lemma_strict_sorted_pair(ds, 0, j - 1);
                    crate::text::lemma_lex_le_trans(d, ds[0], ds[j - 1]);
                    if d == ds[j - 1] {
                        crate::text::lemma_lex_le_total(ds[0], ds[j - 1]);
                    }
                }
            } else {
                assert(r[i] == ds[i - 1] && r[j] == ds[j - 1]);
                lemma_strict_sorted_pair(ds, i - 1, j - 1);
            }
        }
        assert forall|x: Seq<char>| r.contains(x) implies (ds.contains(x) || x == d) by {
            let k = choose|k: int| 0 <= k < r.len() && r[k] == x;
            if k > 0 {
                assert(ds[k - 1] == x);
            }
        }
        assert forall|x: Seq<char>| ds.contains(x) || x == d implies r.contains(x) by {
            if ds.contains(x) {
                let k = choose|k: int| 0 <= k < ds.len() && ds[k] == x;
                assert(r[k + 1] == x);
            } else {
                assert(r[0] == x);
            }
        }
        assert(r.contains(d)) by {
            assert(r[0] == d);
        }
    } else {
        let tail = ds.drop_first();
        assert(strict_sorted(tail)) by {
            assert forall|i: int, j: int| 0 <= i < j < tail.len() implies #[trigger] lex_le(
                tail[i],
                tail[j],
            ) && tail[i] != tail[j] by {
                assert(tail[i] == ds[i + 1] && tail[j] == ds[j + 1]);
                lemma_strict_sorted_pair(ds, i + 1, j + 1);
            }
        }
        lemma_insert_sorted_props(tail, d);
        let rt = insert_sorted(tail, d);
        // every element of rt is either from the tail or is d, and ds[0]
        // is strictly below all of them
        crate::text::lemma_lex_le_total(d, ds[0]);
        assert(lex_le(ds[0], d) && ds[0] != d);
        assert forall|i: int, j: int| 0 <= i < j < r.len() implies #[trigger] lex_le(r[i], r[j])
            && r[i] != r[j] by {
            if i == 0 {
                assert(r[j] == rt[j - 1]);
                assert(rt.contains(rt[j - 1]));
                let x = rt[j - 1];
                if tail.contains(x) {
                    let k = choose|k: int| 0 <= k < tail.len() && tail[k] == x;
                    assert(tail[k] == ds[k + 1]);
                    lemma_strict_sorted_pair(ds, 0, k + 1);
                } else {
                    assert(x == d);
                }
            } else {
                assert(r[i] == rt[i - 1] && r[j] == rt[j - 1]);
                lemma_strict_sorted_pair(rt, i - 1, j - 1);
            }
        }
        assert forall|x: Seq<char>| r.contains(x) implies (ds.contains(x) || x == d) by {
            let k = choose|k: int| 0 <= k < r.len() && r[k] == x;
            if k == 0 {
                assert(ds[0] == x);
            } else {
                assert(rt[k - 1] == x);
                assert(rt.contains(x));
                if tail.contains(x) {
                    let m = choose|m: int| 0 <= m < tail.len() && tail[m] == x;
                    assert(ds[m + 1] == x);
                }
            }
        }
        assert forall|x: Seq<char>| ds.contains(x) || x == d implies r.contains(x) by {
            if ds.contains(x) {
                let k = choose|k: int| 0 <= k < ds.len() && ds[k] == x;
                if k == 0 {
                    assert(r[0] == x);
                } else {
                    assert(tail[k - 1] == x);
                    assert(tail.contains(x));
                    assert(rt.contains(x));
                    let m = choose|m: int| 0 <= m < rt.len() && rt[m] == x;
                    assert(r[m + 1] == x);
                }
            } else {
                assert(rt.contains(d));
                let m = choose|m: int| 0 <= m < rt.len() && rt[m] == d;
                assert(r[m + 1] == x);
            }
        }
        assert(r.contains(d)) by {
            assert(rt.contains(d));
            let m = choose|m: int| 0 <= m < rt.len() && rt[m] == d;
            assert(r[m + 1] == d);
        }
    }
}

/// The canonical list is ordered, has no repeats, and holds exactly the
/// extracted names.
pub proof fn lemma_sort_dedup_props(ds: Seq<Seq<char>>)
    ensures
        strict_sorted(sort_dedup(ds)),
        forall|x: Seq<char>| #[trigger] sort_dedup(ds).contains(x) ==> ds.contains(x),
        forall|x: Seq<char>| #[trigger] ds.contains(x) ==> sort_dedup(ds).contains(x),
    decreases ds.len(),
{
    if ds.len() == 0 {
    } else {
        let front = ds.drop_last();
        lemma_sort_dedup_props(front);
        lemma_insert_sorted_props(sort_dedup(front), ds.last());
        assert(sort_dedup(ds) == insert_sorted(sort_dedup(front), ds.last()));
        assert forall|x: Seq<char>| sort_dedup(ds).contains(x) implies ds.contains(x) by {
            assert(insert_sorted(sort_dedup(front), ds.last()).contains(x));
            if sort_dedup(front).contains(x) {
                assert(front.contains(x));
                let k = choose|k: int| 0 <= k < front.len() && front[k] == x;
                assert(ds[k] == x);
            } else {
                assert(x == ds.last());
                assert(ds[ds.len() - 1] == x);
            }
        }
        assert forall|x: Seq<char>| ds.contains(x) implies sort_dedup(ds).contains(x) by {
            let k = choose|k: int| 0 <= k < ds.len() && ds[k] == x;
            if k < ds.len() - 1 {
                assert(front[k] == x);
                assert(front.contains(x));
                assert(sort_dedup(front).contains(x));
                assert(insert_sorted(sort_dedup(front), ds.last()).contains(x));
            } else {
                assert(x == ds.last());
                assert(insert_sorted(sort_dedup(front), ds.last()).contains(ds.last()));
            }
        }
    }
}

/// Two ordered duplicate-free lists with the same members are the same
/// list: the extractor's output is determined by the set of names alone.
pub proof fn lemma_strict_sorted_unique(a: Seq<Seq<char>>, b: Seq<Seq<char>>)
    requires
        strict_sorted(a),
        strict_sorted(b),
        forall|x: Seq<char>| a.contains(x) <==> b.contains(x),
    ensures
        a == b,
    decreases a.len(),
{
    if a.len() == 0 {
        if b.len() > 0 {
            assert(b.contains(b[0]));
            assert(a.contains(b[0]));
        }
        assert(a =~= b);
    } else {
        assert(a.contains(a[0]));
        assert(b.contains(a[0]));
        let k = choose|k: int| 0 <= k < b.len() && b[k] == a[0];
        if k > 0 {
            // b[0] sits below a[0], yet b[0] is somewhere in a: contradiction
            assert(b.contains(b[0]));
            assert(a.contains(b[0]));
            let m = choose|m: int| 0 <= m < a.len() && a[m] == b[0];
            lemma_strict_sorted_pair(b, 0, k);
            if m > 0 {
                lemma_strict_sorted_pair(a, 0, m);
                crate::text::lemma_lex_le_total(a[0], b[0]);
            } else {
                assert(a[0] == b[0]);
            }
        }
        assert(b[0] == a[0]);
        let at = a.drop_first();
        let bt = b.drop_first();
        assert(strict_sorted(at)) by {
            assert forall|i: int, j: int| 0 <= i < j < at.len() implies #[trigger] lex_le(
                at[i],
                at[j],
            ) && at[i] != at[j] by {
                assert(at[i] == a[i + 1] && at[j] == a[j + 1]);
                lemma_strict_sorted_pair(a, i + 1, j + 1);
            }
        }
        assert(strict_sorted(bt)) by {
            assert forall|i: int, j: int| 0 <= i < j < bt.len() implies #[trigger] lex_le(
                bt[i],
                bt[j],
            ) && bt[i] != bt[j] by {
                assert(bt[i] == b[i + 1] && bt[j] == b[j + 1]);
                lemma_strict_sorted_pair(b, i + 1, j + 1);
            }
        }
        assert forall|x: Seq<char>| at.contains(x) implies bt.contains(x) by {
            let m = choose|m: int| 0 <= m < at.len() && at[m] == x;
            assert(a[m + 1] == x);
            assert(a.contains(x));
            assert(b.contains(x));
            let p = choose|p: int| 0 <= p < b.len() && b[p] == x;
            lemma_strict_sorted_pair(a, 0, m + 1);
            assert(x != a[0]);
            assert(p > 0);
            assert(bt[p - 1] == x);
        }
        assert forall|x: Seq<char>| bt.contains(x) implies at.contains(x) by {
            let m = choose|m: int| 0 <= m < bt.len() && bt[m] == x;
            assert(b[m + 1] == x);
            assert(b.contains(x));
            assert(a.contains(x));
            let p = choose|p: int| 0 <= p < a.len() && a[p] == x;
            lemma_strict_sorted_pair(b, 0, m + 1);
            assert(x != b[0]);
            assert(p > 0);
            assert(at[p - 1] == x);
        }
        lemma_strict_sorted_unique(at, bt);
        assert(a.len() == b.len());
        assert forall|j: int| 0 <= j < a.len() implies a[j] == b[j] by {
            if j > 0 {
                assert(at[j - 1] == a[j]);
                assert(bt[j - 1] == b[j]);
            }
        }
        assert(a =~= b);
    }
}

/// Extracts the dependency named on one line, if any.
pub fn extract_line_dep(l: &Vec<char>) -> (r: Option<Vec<char>>)
    ensures
        match r {
            Some(d) => dep_of_line(l@) == Some(d@),
            None => dep_of_line(l@) is None,
        },
{
    let t = crate::text::trim_chars(l);
    let p_use = crate::text::str_chars("use ");
    if crate::text::starts_with(&t, &p_use) {
        proof {
            reveal_strlit("use ");
        }
        let rest = crate::text::copy_range(&t, 4, t.len());
        proof {
            assert(rest@ =~= trim_spec(l@).skip("use "@.len() as int));
        }
        let p_sep = crate::text::str_chars("::");
        let seg = crate::text::before_sub(&rest, &p_sep);
        let mut semi: Vec<char> = Vec::new();
        semi.push(';');
        proof {
            assert(semi@ =~= seq![';']);
        }
        let d = crate::text::trim_set(&seg, &semi);
        return Some(d);
    }
    let p_import = crate::text::str_chars("import ");
    let p_from = crate::text::str_chars("from ");
    if crate::text::starts_with(&t, &p_import) || crate::text::starts_with(&t, &p_from) {
        match crate::text::second_token(&t) {
            Some(tok) => {
                let d = crate::text::before_char(&tok, '.');
                return Some(d);
            },
            None => {
                return None;
            },
        }
    }
    let p_require = crate::text::str_chars("require(");
    if crate::text::starts_with(&t, &p_require) {
        if crate::text::contains_sub(&t, &p_from) {
            match crate::text::after_sub(&t, &p_from) {
                Some(a) => {
                    let mut q: Vec<char> = Vec::new();
                    q.push('\'');
                    q.push('"');
                    q.push(';');
                    proof {
                        assert(q@ =~= from_quotes());
                    }
                    let trimmed = crate::text::trim_set(&a, &q);
                    let d = crate::text::before_char(&trimmed, '/');
                    return Some(d);
                },
                None => {
                    return None;
                },
            }
        } else {
            match crate::text::after_sub(&t, &p_require) {
                Some(a) => {
                    let mut q: Vec<char> = Vec::new();
                    q.push('\'');
                    q.push('"');
                    q.push(')');
                    q.push(';');
                    proof {
                        assert(q@ =~= require_quotes());
                    }
                    let trimmed = crate::text::trim_set(&a, &q);
                    let d = crate::text::before_char(&trimmed, '/');
                    return Some(d);
                },
                None => {
                    return None;
                },
            }
        }
    }
    None
}

/// Relates a scan position to [`insert_sorted`]: once the scan has
/// passed `i` elements strictly below `d`, the insertion happens in the
/// remainder.
proof fn lemma_insert_sorted_split(ds: Seq<Seq<char>>, d: Seq<char>, i: int)
    requires
        0 <= i <= ds.len(),
        forall|j: int| 0 <= j < i ==> ds[j] != d && !lex_le(d, #[trigger] ds[j]),
    ensures
        insert_sorted(ds, d) == ds.take(i) + insert_sorted(ds.skip(i), d),
    decreases i,
{
    if i == 0 {
        assert(ds.skip(0) =~= ds);
        assert(ds.take(0) + insert_sorted(ds, d) =~= insert_sorted(ds, d));
    } else {
        assert(ds.len() > 0);
        assert(ds[0] != d && !lex_le(d, ds[0]));
        let tail = ds.drop_first();
        assert forall|j: int| 0 <= j < i - 1 implies tail[j] != d && !lex_le(
            d,
            #[trigger] tail[j],
        ) by {
            assert(tail[j] == ds[j + 1]);
        }
        lemma_insert_sorted_split(tail, d, i - 1);
        assert(tail.take(i - 1) =~= ds.take(i).drop_first());
        assert(tail.skip(i - 1) =~= ds.skip(i));
        assert(seq![ds[0]] + (tail.take(i - 1) + insert_sorted(tail.skip(i - 1), d)) =~= ds.take(i)
            + insert_sorted(ds.skip(i), d));
    }
}

/// Inserts one name into the ordered list, skipping duplicates.
#[verifier::loop_isolation(false)]
fn insert_dep(deps: &mut Vec<String>, d: String)
    ensures
        final(deps)@.map_values(|s: String| s@) == insert_sorted(
            old(deps)@.map_values(|s: String| s@),
            d@,
        ),
{
    let ghost ds = deps@.map_values(|s: String| s@);
    let dc = crate::text::str_chars(d.as_str());
    let mut i: usize = 0;
    while i < deps.len()
        invariant
            i <= deps@.len(),
            deps@ == old(deps)@,
            dc@ == d@,
            forall|j: int| 0 <= j < i ==> ds[j] != d@ && !lex_le(d@, #[trigger] ds[j]),
        decreases deps@.len() - i,
    {
        proof {
            assert(ds[i as int] == deps@[i as int]@);
        }
        if deps[i].eq(&d) {
            proof {
                lemma_insert_sorted_split(ds, d@, i as int);
                assert(ds.skip(i as int)[0] == ds[i as int]);
                assert(insert_sorted(ds.skip(i as int), d@) == ds.skip(i as int));
                assert(ds.take(i as int) + ds.skip(i as int) =~= ds);
            }
            return;
        }
        let vc = crate::text::str_chars(deps[i].as_str());
        if crate::text::lex_le_exec(&dc, &vc) {
            proof {
                lemma_insert_sorted_split(ds, d@, i as int);
                assert(ds.skip(i as int)[0] == ds[i as int]);
                assert(insert_sorted(ds.skip(i as int), d@) == seq![d@] + ds.skip(i as int));
            }
            deps.insert(i, d);
            proof {
                assert(deps@.map_values(|s: String| s@) =~= ds.take(i as int) + (seq![d@] + ds.skip(
                    i as int,
                )));
            }
            return;
        }
        i = i + 1;
    }
    proof {
        lemma_insert_sorted_split(ds, d@, ds.len() as int);
        assert(ds.skip(ds.len() as int).len() == 0);
        assert(insert_sorted(ds.skip(ds.len() as int), d@) =~= seq![d@]);
    }
    deps.push(d);
    proof {
        assert(deps@.map_values(|s: String| s@) =~= ds.take(ds.len() as int) + seq![d@]);
    }
}

/// Extracts the import-style dependencies of a file: the names named by
/// its lines, ordered lexicographically with duplicates removed.
///
/// The result is a pure function of the content, so re-running the
/// extractor on identical text yields an identical list.
#[verifier::loop_isolation(false)]
pub fn extract_dependencies(content: &String) -> (r: Vec<String>)
    ensures
        r@.map_values(|s: String| s@) == sort_dedup(raw_deps(lines_of(content@))),
{
    let chars = crate::text::str_chars(content.as_str());
    let lines = crate::text::split_lines(&chars);
    let mut deps: Vec<String> = Vec::new();
    let mut i: usize = 0;
    proof {
        assert(views_of(lines@).take(0) =~= Seq::<Seq<char>>::empty());
        assert(deps@.map_values(|s: String| s@) =~= sort_dedup(
            raw_deps(views_of(lines@).take(0)),
        ));
    }
    while i < lines.len()
        invariant
            i <= lines@.len(),
            deps@.map_values(|s: String| s@) == sort_dedup(raw_deps(views_of(lines@).take(i as int))),
        decreases lines@.len() - i,
    {
        let ghost vs = views_of(lines@);
        let ghost before = raw_deps(vs.take(i as int));
        proof {
            assert(vs.take(i + 1).drop_last() =~= vs.take(i as int));
            assert(vs.take(i + 1).last() == lines@[i as int]@);
        }
        match extract_line_dep(&lines[i]) {
            Some(d) => {
                let s = crate::text::chars_to_string(&d);
                proof {
                    assert(raw_deps(vs.take(i + 1)) =~= before + seq![d@]);
                    assert((before + seq![d@]).drop_last() =~= before);
                    assert((before + seq![d@]).last() == d@);
                }
                insert_dep(&mut deps, s);
            },
            None => {
                proof {
                    assert(raw_deps(vs.take(i + 1)) =~= before);
                }
            },
        }
        i = i + 1;
    }
    proof {
        assert(views_of(lines@).take(lines@.len() as int) =~= views_of(lines@));
    }
    deps
}

// ---------------------------------------------------------------------
// Association lists (string-keyed maps as vectors)
// ---------------------------------------------------------------------

/// The key occurs in the association list.
pub open spec fn assoc_has<T>(m: Seq<(Seq<char>, T)>, k: Seq<char>) -> bool {
    exists|i: int| 0 <= i < m.len() && (#[trigger] m[i]).0 == k
}

/// Index of the first entry with the key, or `-1`.
pub open spec fn assoc_idx<T>(m: Seq<(Seq<char>, T)>, k: Seq<char>) -> int
    decreases m.len(),
{
    if m.len() == 0 {
        -1
    } else if m[0].0 == k {
        0
    } else {
        let r = assoc_idx(m.drop_first(), k);
        if r < 0 {
            -1
        } else {
            1 + r
        }
    }
}

pub proof fn lemma_assoc_idx<T>(m: Seq<(Seq<char>, T)>, k: Seq<char>)
    ensures
        -1 <= assoc_idx(m, k) < m.len(),
        assoc_idx(m, k) >= 0 ==> m[assoc_idx(m, k)].0 == k && forall|j: int|
            0 <= j < assoc_idx(m, k) ==> (#[trigger] m[j]).0 != k,
        assoc_idx(m, k) < 0 ==> !assoc_has(m, k),
    decreases m.len(),
{
    if m.len() > 0 && m[0].0 != k {
        lemma_assoc_idx(m.drop_first(), k);
        let d = m.drop_first();
        let r = assoc_idx(d, k);
        if r >= 0 {
            assert(m[r + 1] == d[r]);
            assert forall|j: int| 0 <= j < assoc_idx(m, k) implies (#[trigger] m[j]).0 != k by {
                if j > 0 {
                    assert(d[j - 1] == m[j]);
                }
            }
        } else {
            assert forall|i: int| 0 <= i < m.len() implies (#[trigger] m[i]).0 != k by {
                if i > 0 {
                    assert(d[i - 1] == m[i]);
                    assert(!assoc_has(d, k));
                }
            }
        }
    }
}

pub proof fn lemma_assoc_idx_unique<T>(m: Seq<(Seq<char>, T)>, k: Seq<char>, i: int)
    requires
        0 <= i <= m.len(),
        forall|j: int| 0 <= j < i ==> (#[trigger] m[j]).0 != k,
        i < m.len() ==> m[i].0 == k,
    ensures
        i < m.len() ==> i == assoc_idx(m, k),
        i == m.len() ==> assoc_idx(m, k) < 0,
{
    lemma_assoc_idx(m, k);
    let f = assoc_idx(m, k);
    if i < m.len() {
        if f < 0 {
            assert(!assoc_has(m, k));
            assert(m[i].0 == k);
        } else if f < i {
            assert(m[f].0 != k);
        } else if f > i {
            assert(m[i].0 != k);
        }
    } else {
        if f >= 0 {
            assert(m[f].0 != k);
        }
    }
}

/// The value stored under the first entry with the key, if any.
pub open spec fn assoc_get<T>(m: Seq<(Seq<char>, T)>, k: Seq<char>) -> Option<T> {
    let i = assoc_idx(m, k);
    if i >= 0 {
        Some(m[i].1)
    } else {
        None
    }
}

/// How a lookup reads through an append at the end: existing entries
/// shadow the new one, and the new entry answers only for its own,
/// previously absent key.
pub proof fn lemma_assoc_get_push<T>(m: Seq<(Seq<char>, T)>, k: Seq<char>, v: T, q: Seq<char>)
    ensures
        q == k && !assoc_has(m, k) ==> assoc_get(m.push((k, v)), q) == Some(v),
        assoc_has(m, q) ==> assoc_get(m.push((k, v)), q) == assoc_get(m, q),
        q != k && !assoc_has(m, q) ==> assoc_get(m.push((k, v)), q) is None,
{
    let p = m.push((k, v));
    lemma_assoc_idx(m, q);
    lemma_assoc_idx(p, q);
    if assoc_has(m, q) {
        let i = assoc_idx(m, q);
        assert(p[i] == m[i]);
        assert forall|j: int| 0 <= j < i implies (#[trigger] p[j]).0 != q by {
            assert(p[j] == m[j]);
        }
        lemma_assoc_idx_unique(p, q, i);
    } else {
        assert forall|j: int| 0 <= j < m.len() implies (#[trigger] p[j]).0 != q by {
            assert(p[j] == m[j]);
        }
        if q == k {
            assert(p[m.len() as int].0 == q);
            lemma_assoc_idx_unique(p, q, m.len() as int);
        } else {
            assert(p[m.len() as int].0 != q);
            lemma_assoc_idx_unique(p, q, p.len() as int);
        }
    }
}

/// Increments the count stored under `k`, or starts it at one.
pub open spec fn bump_assoc(m: Seq<(Seq<char>, usize)>, k: Seq<char>) -> Seq<(Seq<char>, usize)> {
    let i = assoc_idx(m, k);
    if i >= 0 {
        m.update(i, (k, (m[i].1 + 1) as usize))
    } else {
        m.push((k, 1))
    }
}

/// Sum of the counts of an association list.
pub open spec fn sum_counts(m: Seq<(Seq<char>, usize)>) -> int
    decreases m.len(),
{
    if m.len() == 0 {
        0
    } else {
        sum_counts(m.drop_last()) + m.last().1
    }
}

proof fn lemma_sum_counts_update(m: Seq<(Seq<char>, usize)>, i: int, k: Seq<char>, n: usize)
    requires
        0 <= i < m.len(),
        n as int == m[i].1 + 1,
    ensures
        sum_counts(m.update(i, (k, n))) == sum_counts(m) + 1,
    decreases m.len(),
{
    let m2 = m.update(i, (k, n));
    if i == m.len() - 1 {
        assert(m2.drop_last() =~= m.drop_last());
        assert(m2.last() == (k, n));
    } else {
        assert(m2.drop_last() =~= m.drop_last().update(i, (k, n)));
        assert(m2.last() == m.last());
        lemma_sum_counts_update(m.drop_last(), i, k, n);
    }
}

proof fn lemma_sum_counts_push(m: Seq<(Seq<char>, usize)>, k: Seq<char>, n: usize)
    ensures
        sum_counts(m.push((k, n))) == sum_counts(m) + n,
{
    assert(m.push((k, n)).drop_last() =~= m);
    assert(m.push((k, n)).last() == (k, n));
}

proof fn lemma_count_le_sum(m: Seq<(Seq<char>, usize)>, i: int)
    requires
        0 <= i < m.len(),
    ensures
        m[i].1 <= sum_counts(m),
    decreases m.len(),
{
    lemma_sum_counts_nonneg(m.drop_last());
    if i == m.len() - 1 {
        assert(m.last() == m[i]);
    } else {
        lemma_count_le_sum(m.drop_last(), i);
        assert(m.drop_last()[i] == m[i]);
    }
}

proof fn lemma_sum_counts_nonneg(m: Seq<(Seq<char>, usize)>)
    ensures
        sum_counts(m) >= 0,
    decreases m.len(),
{
    if m.len() > 0 {
        lemma_sum_counts_nonneg(m.drop_last());
    }
}

// ---------------------------------------------------------------------
// Ignore patterns (glob matching)
// ---------------------------------------------------------------------

/// Whether `globset` accepts the pattern text: it parses as a glob and
/// its matcher compiles (an enormous pattern can fail compilation).
pub uninterp spec fn glob_pattern_ok(pattern: Seq<char>) -> bool;

/// Whether the glob written as `pattern` matches `path`. Both are plain
/// text, so for a given target platform the result is a function of
/// the two strings alone (globset normalizes path separators on
/// platforms whose separator is not `/`).
pub uninterp spec fn glob_accepts(pattern: Seq<char>, path: Seq<char>) -> bool;

/// Relies on globset's `Glob::new`, `GlobSetBuilder::build` and
/// `GlobSet::is_match`: a pattern is accepted exactly when it parses
/// and its matcher compiles — both steps are fallible, so no input
/// aborts — and matching is a pure function of the pattern and path
/// text.
#[verifier::external_body]
fn glob_match(pattern: &String, path: &String) -> (r: Option<bool>)
    ensures
        r is Some <==> glob_pattern_ok(pattern@),
        r matches Some(b) ==> b == glob_accepts(pattern@, path@),
{
    let glob = match globset::Glob::new(pattern.as_str()) {
        Ok(g) => g,
        Err(_) => return None,
    };
    let mut builder = globset::GlobSetBuilder::new();
    builder.add(glob);
    match builder.build() {
        Ok(set) => Some(set.is_match(path.as_str())),
        Err(_) => None,
    }
}

/// Some well-formed pattern of the list matches the path.
pub open spec fn ignored_spec(path: Seq<char>, patterns: Seq<Seq<char>>) -> bool {
    exists|i: int|
        0 <= i < patterns.len() && glob_pattern_ok(#[trigger] patterns[i]) && glob_accepts(
            patterns[i],
            path,
        )
}

/// A path is ignored when any well-formed pattern of the list matches
/// it; patterns that fail to parse are skipped.
pub fn is_ignored(path: &String, ignored_patterns: &Vec<String>) -> (r: bool)
    ensures
        r == ignored_spec(path@, ignored_patterns@.map_values(|s: String| s@)),
{
    let mut i: usize = 0;
    while i < ignored_patterns.len()
        invariant
            i <= ignored_patterns@.len(),
            forall|j: int|
                0 <= j < i ==> !(glob_pattern_ok((#[trigger] ignored_patterns@[j])@)
                    && glob_accepts(ignored_patterns@[j]@, path@)),
        decreases ignored_patterns@.len() - i,
    {
        match glob_match(&ignored_patterns[i], path) {
            Some(true) => {
                proof {
                    let pats = ignored_patterns@.map_values(|s: String| s@);
                    assert(pats[i as int] == ignored_patterns@[i as int]@);
                }
                return true;
            },
            _ => {},
        }
        i = i + 1;
    }
    proof {
        let pats = ignored_patterns@.map_values(|s: String| s@);
        assert forall|j: int| 0 <= j < pats.len() implies !(glob_pattern_ok(#[trigger] pats[j])
            && glob_accepts(pats[j], path@)) by {
            assert(pats[j] == ignored_patterns@[j]@);
        }
    }
    false
}

// ---------------------------------------------------------------------
// Language extensions
// ---------------------------------------------------------------------

/// ASCII lowercasing of one character.
pub open spec fn ascii_lower_char(c: char) -> char {
    if 'A' <= c && c <= 'Z' {
        (((c as u8) + 32) as char)
    } else {
        c
    }
}

/// ASCII lowercasing of a text.
pub open spec fn lower_spec(s: Seq<char>) -> Seq<char> {
    s.map_values(|c: char| ascii_lower_char(c))
}

/// Canonical name for a file extension: variants of the same language
/// collapse to one key, anything else is just lowercased.
pub open spec fn normalize_ext_spec(e: Seq<char>) -> Seq<char> {
    let low = lower_spec(e);
    if low == "js"@ || low == "mjs"@ || low == "cjs"@ {
        "js"@
    } else if low == "ts"@ || low == "tsx"@ || low == "mts"@ {
        "ts"@
    } else if low == "md"@ || low == "markdown"@ {
        "md"@
    } else if low == "1"@ {
        "man"@
    } else if low == "bsd"@ {
        "config"@
    } else if low == "flow"@ {
        "type_def"@
    } else if low == "bnf"@ {
        "grammar"@
    } else {
        low
    }
}

/// Lowercases a character vector (ASCII range only).
pub fn to_lower_chars(v: &Vec<char>) -> (r: Vec<char>)
    ensures
        r@ == lower_spec(v@),
{
    let mut r: Vec<char> = Vec::new();
    let mut i: usize = 0;
    while i < v.len()
        invariant
            i <= v@.len(),
            r@.len() == i,
            forall|j: int| 0 <= j < i ==> r@[j] == ascii_lower_char(#[trigger] v@[j]),
        decreases v@.len() - i,
    {
        let c = v[i];
        if 'A' <= c && c <= 'Z' {
            let b: u8 = (c as u8) + 32;
            r.push(b as char);
        } else {
            r.push(c);
        }
        i = i + 1;
    }
    proof {
        assert(r@ =~= lower_spec(v@));
    }
    r
}

/// Equality of two character vectors.
pub fn eq_chars(a: &Vec<char>, b: &Vec<char>) -> (r: bool)
    ensures
        r == (a@ == b@),
{
    if a.len() != b.len() {
        proof {
            assert(a@ != b@);
        }
        return false;
    }
    let mut i: usize = 0;
    while i < a.len()
        invariant
            a@.len() == b@.len(),
            i <= a@.len(),
            forall|j: int| 0 <= j < i ==> a@[j] == b@[j],
        decreases a@.len() - i,
    {
        if a[i] != b[i] {
            return false;
        }
        i = i + 1;
    }
    proof {
        assert(a@ =~= b@);
    }
    true
}

/// Normalises a file extension to its canonical language key.
pub fn normalize_language_extension(ext: &str) -> (r: String)
    ensures
        r@ == normalize_ext_spec(ext@),
{
    let e = crate::text::str_chars(ext);
    let low = to_lower_chars(&e);
    let js1 = crate::text::str_chars("js");
    let js2 = crate::text::str_chars("mjs");
    let js3 = crate::text::str_chars("cjs");
    if eq_chars(&low, &js1) || eq_chars(&low, &js2) || eq_chars(&low, &js3) {
        return crate::text::chars_to_string(&js1);
    }
    let ts1 = crate::text::str_chars("ts");
    let ts2 = crate::text::str_chars("tsx");
    let ts3 = crate::text::str_chars("mts");
    if eq_chars(&low, &ts1) || eq_chars(&low, &ts2) || eq_chars(&low, &ts3) {
        return crate::text::chars_to_string(&ts1);
    }
    let md1 = crate::text::str_chars("md");
    let md2 = crate::text::str_chars("markdown");
    if eq_chars(&low, &md1) || eq_chars(&low, &md2) {
        return crate::text::chars_to_string(&md1);
    }
    let man = crate::text::str_chars("1");
    if eq_chars(&low, &man) {
        let m = crate::text::str_chars("man");
        return crate::text::chars_to_string(&m);
    }
    let bsd = crate::text::str_chars("bsd");
    if eq_chars(&low, &bsd) {
        let m = crate::text::str_chars("config");
        return crate::text::chars_to_string(&m);
    }
    let flow = crate::text::str_chars("flow");
    if eq_chars(&low, &flow) {
        let m = crate::text::str_chars("type_def");
        return crate::text::chars_to_string(&m);
    }
    let bnf = crate::text::str_chars("bnf");
    if eq_chars(&low, &bnf) {
        let m = crate::text::str_chars("grammar");
        return crate::text::chars_to_string(&m);
    }
    crate::text::chars_to_string(&low)
}

/// Index of the last occurrence of `c` in `s`, or `-1`.
pub open spec fn find_last_char(s: Seq<char>, c: char) -> int
    decreases s.len(),
{
    if s.len() == 0 {
        -1
    } else if s.last() == c {
        s.len() - 1
    } else {
        find_last_char(s.drop_last(), c)
    }
}

pub proof fn lemma_find_last_char(s: Seq<char>, c: char)
    ensures
        -1 <= find_last_char(s, c) < s.len(),
        find_last_char(s, c) >= 0 ==> s[find_last_char(s, c)] == c,
        forall|j: int| find_last_char(s, c) < j < s.len() ==> s[j] != c,
    decreases s.len(),
{
    if s.len() > 0 && s.last() != c {
        lemma_find_last_char(s.drop_last(), c);
        if find_last_char(s, c) >= 0 {
            assert(s.drop_last()[find_last_char(s, c)] == s[find_last_char(s, c)]);
        }
        assert forall|j: int| find_last_char(s, c) < j < s.len() implies s[j] != c by {
            if j < s.len() - 1 {
                assert(s.drop_last()[j] == s[j]);
            }
        }
    }
}

/// The extension of a path: the part of the final component after its
/// last dot. A name whose only dot is at its start has none.
pub open spec fn ext_of_spec(p: Seq<char>) -> Option<Seq<char>> {
    let name = p.skip(find_last_char(p, '/') + 1);
    let d = find_last_char(name, '.');
    if d <= 0 {
        None
    } else {
        Some(name.skip(d + 1))
    }
}

/// Extracts the extension of a path string.
#[verifier::loop_isolation(false)]
pub fn ext_of(p: &Vec<char>) -> (r: Option<Vec<char>>)
    ensures
        match r {
            Some(e) => ext_of_spec(p@) == Some(e@),
            None => ext_of_spec(p@) is None,
        },
{
    proof {
        lemma_find_last_char(p@, '/');
    }
    let n = p.len();
    let mut start: usize = n;
    while start > 0 && p[start - 1] != '/'
        invariant
            start <= n,
            forall|j: int| start <= j < n ==> p@[j] != '/',
        decreases start,
    {
        start = start - 1;
    }
    proof {
        let f = find_last_char(p@, '/');
        if start > 0 {
            if f < start - 1 {
                assert(p@[start - 1] != '/');
            } else if f > start - 1 {
                assert(p@[f] != '/');
            }
        } else {
            if f >= 0 {
                assert(p@[f] != '/');
            }
        }
        assert(start as int == find_last_char(p@, '/') + 1);
    }
    let name = crate::text::copy_range(p, start, n);
    proof {
        assert(name@ =~= p@.skip(find_last_char(p@, '/') + 1));
        lemma_find_last_char(name@, '.');
    }
    let m = name.len();
    let mut dot: usize = m;
    while dot > 0 && name[dot - 1] != '.'
        invariant
            dot <= m,
            forall|j: int| dot <= j < m ==> name@[j] != '.',
        decreases dot,
    {
        dot = dot - 1;
    }
    proof {
        let f = find_last_char(name@, '.');
        if dot > 0 {
            if f < dot - 1 {
                assert(name@[dot - 1] != '.');
            } else if f > dot - 1 {
                assert(name@[f] != '.');
            }
        } else {
            if f >= 0 {
                assert(name@[f] != '.');
            }
        }
        assert(dot as int == find_last_char(name@, '.') + 1);
    }
    if dot <= 1 {
        return None;
    }
    let e = crate::text::copy_range(&name, dot, m);
    proof {
        assert(e@ =~= name@.skip(find_last_char(name@, '.') + 1));
    }
    Some(e)
}

// ---------------------------------------------------------------------
// Branch counting (complexity)
// ---------------------------------------------------------------------

/// Number of branching constructs that appear in the text: occurrences
/// of `if `, `while `, `for ` and `match `.
pub open spec fn branch_count(s: Seq<char>) -> nat {
    count_matches(s, "if "@) + count_matches(s, "while "@) + count_matches(s, "for "@)
        + count_matches(s, "match "@)
}

/// A value capped at `u64::MAX`.
pub open spec fn cap64(n: nat) -> u64 {
    if n > u64::MAX {
        u64::MAX
    } else {
        n as u64
    }
}

/// The metrics the calculator derives from a file's text: line counts,
/// branch complexity, sorted dependencies, and filtered findings.
pub open spec fn metrics_spec(
    s: Seq<char>,
    min: IssueSeverity,
    size_bytes: u64,
    last_modified: u64,
) -> CodeMetricsView {
    CodeMetricsView {
        lines_of_code: count_code(lines_of(s)) as usize,
        blank_lines: count_blank(lines_of(s)) as usize,
        comment_lines: count_comment(lines_of(s)) as usize,
        complexity: cap64(branch_count(s)),
        dependencies: sort_dedup(raw_deps(lines_of(s))),
        security_issues: issues_spec(lines_of(s), min),
        last_modified,
        size_bytes,
    }
}

/// A text has no more lines than characters (and an empty text has
/// none).
pub proof fn lemma_lines_bound(s: Seq<char>)
    ensures
        s.len() == 0 ==> lines_of(s).len() == 0,
        s.len() > 0 ==> 1 <= lines_of(s).len() <= s.len(),
    decreases s.len(),
{
    if s.len() > 0 {
        crate::text::lemma_find_char(s, '\n');
        let i = crate::text::find_char(s, '\n');
        if 0 <= i < s.len() {
            lemma_lines_bound(s.skip(i + 1));
        }
    }
}

/// Computes the full metrics for one file's content.
///
/// `size_bytes` and `last_modified` are caller-supplied file metadata;
/// everything else is derived from `content` alone.
pub fn calculate_metrics(
    content: &String,
    config: &AppConfig,
    size_bytes: u64,
    last_modified: u64,
) -> (m: CodeMetrics)
    ensures
        m@ == metrics_spec(content@, config.min_severity, size_bytes, last_modified),
{
    let chars = crate::text::str_chars(content.as_str());
    let lines = crate::text::split_lines(&chars);
    let (code, blank, comment) = classify_lines(&lines);
    let complexity = branch_count_exec(&chars);
    let dependencies = extract_dependencies(content);
    let security_issues = check_security_issues(&lines, config);
    let m = CodeMetrics {
        lines_of_code: code,
        blank_lines: blank,
        comment_lines: comment,
        complexity,
        dependencies,
        security_issues,
        last_modified,
        size_bytes,
    };
    proof {
        assert(m@ =~= metrics_spec(content@, config.min_severity, size_bytes, last_modified));
    }
    m
}

/// Counts the branching constructs of a text.
pub fn branch_count_exec(s: &Vec<char>) -> (r: u64)
    ensures
        r == cap64(branch_count(s@)),
{
    proof {
        reveal_strlit("if ");
        reveal_strlit("while ");
        reveal_strlit("for ");
        reveal_strlit("match ");
    }
    let p_if = crate::text::str_chars("if ");
    let p_while = crate::text::str_chars("while ");
    let p_for = crate::text::str_chars("for ");
    let p_match = crate::text::str_chars("match ");
    let c1 = crate::text::count_occurrences(s, &p_if);
    let c2 = crate::text::count_occurrences(s, &p_while);
    let c3 = crate::text::count_occurrences(s, &p_for);
    let c4 = crate::text::count_occurrences(s, &p_match);
    let total: u128 = c1 as u128 + c2 as u128 + c3 as u128 + c4 as u128;
    if total > u64::MAX as u128 {
        u64::MAX
    } else {
        total as u64
    }
}

// ---------------------------------------------------------------------
// Project-wide aggregation
// ---------------------------------------------------------------------

/// Relies on `std::time::SystemTime::now`: seconds since the Unix
/// epoch, `0` if the clock reads before it. Nothing is assumed of the
/// value.
#[verifier::external_body]
pub fn now_unix_seconds() -> u64 {
    match std::time::SystemTime::now().duration_since(std::time::UNIX_EPOCH) {
        Ok(d) => d.as_secs(),
        Err(_) => 0,
    }
}

/// Aggregate snapshot of an analysis run: per-file metrics under their
/// paths, per-language file counts, and the flattened findings.
#[derive(Debug)]
pub struct ProjectInsights {
    pub files_analyzed: usize,
    pub total_lines: usize,
    pub language_distribution: Vec<(String, usize)>,
    pub file_metrics: Vec<(String, CodeMetrics)>,
    pub security_summary: Vec<SecurityIssue>,
    pub analysis_timestamp: u64,
}

/// Spec-level value of a [`ProjectInsights`].
pub struct InsightsView {
    pub files_analyzed: usize,
    pub total_lines: usize,
    pub language_distribution: Seq<(Seq<char>, usize)>,
    pub file_metrics: Seq<(Seq<char>, CodeMetricsView)>,
    pub security_summary: Seq<IssueView>,
    pub analysis_timestamp: u64,
}

impl View for ProjectInsights {
    type V = InsightsView;

    open spec fn view(&self) -> InsightsView {
        InsightsView {
            files_analyzed: self.files_analyzed,
            total_lines: self.total_lines,
            language_distribution: self.language_distribution@.map_values(
                |p: (String, usize)| (p.0@, p.1),
            ),
            file_metrics: self.file_metrics@.map_values(
                |p: (String, CodeMetrics)| (p.0@, p.1@),
            ),
            security_summary: self.security_summary@.map_values(|i: SecurityIssue| i@),
            analysis_timestamp: self.analysis_timestamp,
        }
    }
}

/// Sum of the per-file code-line counts.
pub open spec fn sum_code_lines(fm: Seq<(Seq<char>, CodeMetricsView)>) -> int
    decreases fm.len(),
{
    if fm.len() == 0 {
        0
    } else {
        sum_code_lines(fm.drop_last()) + fm.last().1.lines_of_code
    }
}

proof fn lemma_sum_code_lines_push(
    fm: Seq<(Seq<char>, CodeMetricsView)>,
    k: Seq<char>,
    m: CodeMetricsView,
)
    ensures
        sum_code_lines(fm.push((k, m))) == sum_code_lines(fm) + m.lines_of_code,
{
    assert(fm.push((k, m)).drop_last() =~= fm);
    assert(fm.push((k, m)).last() == (k, m));
}

/// Keys are pairwise distinct.
pub open spec fn assoc_distinct<T>(m: Seq<(Seq<char>, T)>) -> bool {
    forall|i: int, j: int|
        0 <= i < j < m.len() ==> (#[trigger] m[i]).0 != (#[trigger] m[j]).0
}

impl ProjectInsights {
    /// The aggregate invariants: the file counter equals the number of
    /// per-file entries, the line total is the sum of their code lines,
    /// paths and language keys are unique, and the language counts also
    /// add up to the file counter.
    pub open spec fn wf(&self) -> bool {
        &&& self@.files_analyzed == self@.file_metrics.len()
        &&& self@.total_lines == sum_code_lines(self@.file_metrics)
        &&& assoc_distinct(self@.file_metrics)
        &&& assoc_distinct(self@.language_distribution)
        &&& self@.files_analyzed == sum_counts(self@.language_distribution)
    }

    /// An empty snapshot, stamped with the current time.
    pub fn new() -> (r: Self)
        ensures
            r.wf(),
            r@.files_analyzed == 0,
            r@.total_lines == 0,
            r@.language_distribution == Seq::<(Seq<char>, usize)>::empty(),
            r@.file_metrics == Seq::<(Seq<char>, CodeMetricsView)>::empty(),
            r@.security_summary == Seq::<IssueView>::empty(),
    {
        let r = ProjectInsights {
            files_analyzed: 0,
            total_lines: 0,
            language_distribution: Vec::new(),
            file_metrics: Vec::new(),
            security_summary: Vec::new(),
            analysis_timestamp: now_unix_seconds(),
        };
        proof {
            assert(r@.language_distribution =~= Seq::<(Seq<char>, usize)>::empty());
            assert(r@.file_metrics =~= Seq::<(Seq<char>, CodeMetricsView)>::empty());
            assert(r@.security_summary =~= Seq::<IssueView>::empty());
        }
        r
    }
}

impl ProjectInsights {
    /// An empty snapshot for a run that will attach AI review results;
    /// the provider itself is driven by the caller, per file.
    pub fn with_ai_provider<P: crate::ai_enhanced::AIProvider>(ai_provider: &P) -> (r: Self)
        ensures
            r.wf(),
            r@.files_analyzed == 0,
            r@.total_lines == 0,
            r@.file_metrics == Seq::<(Seq<char>, CodeMetricsView)>::empty(),
    {
        let _ = ai_provider;
        Self::new()
    }
}

/// Appending text never removes a branching construct: the branch
/// count — and so the reported text complexity — never decreases when
/// statements are added at the end of a body.
pub proof fn lemma_branch_count_monotone(s: Seq<char>, t: Seq<char>)
    ensures
        branch_count(s + t) >= branch_count(s),
        cap64(branch_count(s + t)) >= cap64(branch_count(s)),
{
    crate::text::lemma_count_append(s, t, "if "@);
    crate::text::lemma_count_append(s, t, "while "@);
    crate::text::lemma_count_append(s, t, "for "@);
    crate::text::lemma_count_append(s, t, "match "@);
}

/// The language key a path is counted under.
pub open spec fn lang_of(p: Seq<char>) -> Seq<char> {
    match ext_of_spec(p) {
        Some(e) => normalize_ext_spec(e),
        None => "unknown"@,
    }
}

/// Computes the language key of a path.
fn lang_of_exec(path: &String) -> (r: String)
    ensures
        r@ == lang_of(path@),
{
    let chars = crate::text::str_chars(path.as_str());
    match ext_of(&chars) {
        Some(e) => {
            let es = crate::text::chars_to_string(&e);
            normalize_language_extension(es.as_str())
        },
        None => "unknown".to_owned(),
    }
}

/// First index holding `key` in the metrics list, if any.
fn find_metrics_key(m: &Vec<(String, CodeMetrics)>, key: &String) -> (r: Option<usize>)
    ensures
        match r {
            Some(i) => i < m@.len() && m@[i as int].0@ == key@,
            None => !assoc_has(
                m@.map_values(|p: (String, CodeMetrics)| (p.0@, p.1@)),
                key@,
            ),
        },
{
    let mut i: usize = 0;
    while i < m.len()
        invariant
            i <= m@.len(),
            forall|j: int| 0 <= j < i ==> (#[trigger] m@[j]).0@ != key@,
        decreases m@.len() - i,
    {
        if m[i].0.eq(key) {
            return Some(i);
        }
        i = i + 1;
    }
    proof {
        let v = m@.map_values(|p: (String, CodeMetrics)| (p.0@, p.1@));
        assert forall|j: int| 0 <= j < v.len() implies (#[trigger] v[j]).0 != key@ by {
            assert(v[j].0 == m@[j].0@);
        }
    }
    None
}

/// Bumps the language counter for `lang`, keeping the counts' sum equal
/// to the (incremented) file counter.
#[verifier::loop_isolation(false)]
fn bump_language(dist: &mut Vec<(String, usize)>, lang: String)
    requires
        assoc_distinct(old(dist)@.map_values(|p: (String, usize)| (p.0@, p.1))),
        sum_counts(old(dist)@.map_values(|p: (String, usize)| (p.0@, p.1))) < usize::MAX,
    ensures
        final(dist)@.map_values(|p: (String, usize)| (p.0@, p.1)) == bump_assoc(
            old(dist)@.map_values(|p: (String, usize)| (p.0@, p.1)),
            lang@,
        ),
        assoc_distinct(final(dist)@.map_values(|p: (String, usize)| (p.0@, p.1))),
        sum_counts(final(dist)@.map_values(|p: (String, usize)| (p.0@, p.1))) == sum_counts(
            old(dist)@.map_values(|p: (String, usize)| (p.0@, p.1)),
        ) + 1,
{
    let ghost v = dist@.map_values(|p: (String, usize)| (p.0@, p.1));
    let mut i: usize = 0;
    while i < dist.len()
        invariant
            i <= dist@.len(),
            dist@ == old(dist)@,
            forall|j: int| 0 <= j < i ==> (#[trigger] v[j]).0 != lang@,
        decreases dist@.len() - i,
    {
        proof {
            assert(v[i as int] == (dist@[i as int].0@, dist@[i as int].1));
        }
        if dist[i].0.eq(&lang) {
            proof {
                lemma_assoc_idx_unique(v, lang@, i as int);
                lemma_count_le_sum(v, i as int);
                lemma_sum_counts_nonneg(v);
            }
            let n = dist[i].1;
            proof {
                assert(n == v[i as int].1);
            }
            let entry = (lang, n + 1);
            dist.set(i, entry);
            proof {
                let v2 = dist@.map_values(|p: (String, usize)| (p.0@, p.1));
                assert(v2 =~= v.update(i as int, (lang@, (n + 1) as usize)));
                lemma_sum_counts_update(v, i as int, lang@, (n + 1) as usize);
                assert forall|a: int, b: int| 0 <= a < b < v2.len() implies (#[trigger] v2[a]).0
                    != (#[trigger] v2[b]).0 by {
                    assert(v[a].0 == if a == i as int {
                        lang@
                    } else {
                        v2[a].0
                    });
                }
            }
            return;
        }
        i = i + 1;
    }
    proof {
        lemma_assoc_idx_unique(v, lang@, v.len() as int);
    }
    let ghost lv = lang@;
    dist.push((lang, 1));
    proof {
        let v2 = dist@.map_values(|p: (String, usize)| (p.0@, p.1));
        assert(v2 =~= v.push((lv, 1)));
        lemma_sum_counts_push(v, lv, 1);
        assert forall|a: int, b: int| 0 <= a < b < v2.len() implies (#[trigger] v2[a]).0
            != (#[trigger] v2[b]).0 by {
            if b < v.len() {
                assert(v[a] == v2[a] && v[b] == v2[b]);
            } else {
                assert(v2[b].0 == lv);
                assert(v[a] == v2[a]);
            }
        }
    }
}

/// Folds one file into the snapshot.
///
/// A file larger than the configured limit, matching an ignore pattern,
/// or already recorded is skipped and the snapshot is unchanged;
/// otherwise the counters, the language distribution, the per-file
/// metrics and the finding summary are all extended, and the invariants
/// are preserved.
#[verifier::loop_isolation(false)]
pub fn analyze_file(
    path: &String,
    content: &String,
    size_bytes: u64,
    last_modified: u64,
    insights: &mut ProjectInsights,
    config: &AppConfig,
)
    requires
        old(insights).wf(),
        old(insights)@.files_analyzed < usize::MAX,
        old(insights)@.total_lines + content@.len() < usize::MAX,
    ensures
        final(insights).wf(),
        size_bytes > config.max_file_size as u64 ==> *final(insights) == *old(insights),
        analyze_skips(*old(insights), path@, size_bytes, *config) ==> *final(insights) == *old(
            insights,
        ),
        !analyze_skips(*old(insights), path@, size_bytes, *config) ==> {
            let mv = metrics_spec(content@, config.min_severity, size_bytes, last_modified);
            &&& final(insights)@.files_analyzed == old(insights)@.files_analyzed + 1
            &&& final(insights)@.total_lines == old(insights)@.total_lines + count_code(
                lines_of(content@),
            )
            &&& final(insights)@.file_metrics == old(insights)@.file_metrics.push((path@, mv))
            &&& final(insights)@.security_summary == old(insights)@.security_summary
                + issues_spec(lines_of(content@), config.min_severity)
            &&& final(insights)@.language_distribution == bump_assoc(
                old(insights)@.language_distribution,
                lang_of(path@),
            )
            &&& final(insights)@.analysis_timestamp == old(insights)@.analysis_timestamp
        },
{
    if size_bytes > config.max_file_size as u64 {
        return;
    }
    if is_ignored(path, &config.ignored_patterns) {
        return;
    }
    match find_metrics_key(&insights.file_metrics, path) {
        Some(i) => {
            proof {
                let fm = insights@.file_metrics;
                assert(fm[i as int] == (insights.file_metrics@[i as int].0@,
                insights.file_metrics@[i as int].1@));
                assert(assoc_has(fm, path@));
            }
            return;
        },
        None => {},
    }
    let metrics = calculate_metrics(content, config, size_bytes, last_modified);
    let summary_add = clone_issues(&metrics.security_issues);
    let lang = lang_of_exec(path);
    let ghost old_view = insights@;
    proof {
        lemma_counts_bounded(lines_of(content@));
        lemma_lines_bound(content@);
    }
    let (code, _blank, _comment) = classify_lines_of_content(content);
    insights.files_analyzed = insights.files_analyzed + 1;
    insights.total_lines = insights.total_lines + code;
    bump_language(&mut insights.language_distribution, lang);
    insights.file_metrics.push((path.clone(), metrics));
    let mut summary_add = summary_add;
    insights.security_summary.append(&mut summary_add);
    proof {
        let mv = metrics_spec(content@, config.min_severity, size_bytes, last_modified);
        assert(insights@.file_metrics =~= old_view.file_metrics.push((path@, mv)));
        assert(insights@.security_summary =~= old_view.security_summary + issues_spec(
            lines_of(content@),
            config.min_severity,
        ));
        lemma_sum_code_lines_push(old_view.file_metrics, path@, mv);
        assert forall|a: int, b: int|
            0 <= a < b < insights@.file_metrics.len() implies (#[trigger] insights@.file_metrics[a]).0
            != (#[trigger] insights@.file_metrics[b]).0 by {
            if b < old_view.file_metrics.len() {
                assert(old_view.file_metrics[a] == insights@.file_metrics[a]);
                assert(old_view.file_metrics[b] == insights@.file_metrics[b]);
            } else {
                assert(insights@.file_metrics[b].0 == path@);
                assert(old_view.file_metrics[a] == insights@.file_metrics[a]);
                assert(!assoc_has(old_view.file_metrics, path@));
            }
        }
    }
}

/// Whether [`analyze_file`] leaves the snapshot unchanged: the file is
/// over the size limit, matches an ignore pattern, or was already
/// recorded.
pub open spec fn analyze_skips(
    insights: ProjectInsights,
    path: Seq<char>,
    size_bytes: u64,
    config: AppConfig,
) -> bool {
    ||| size_bytes > config.max_file_size as u64
    ||| ignored_spec(path, config.ignored_patterns@.map_values(|s: String| s@))
    ||| assoc_has(insights@.file_metrics, path)
}

/// Splits a file's content and classifies its lines.
fn classify_lines_of_content(content: &String) -> (r: (usize, usize, usize))
    ensures
        r.0 as nat == count_code(lines_of(content@)),
        r.1 as nat == count_blank(lines_of(content@)),
        r.2 as nat == count_comment(lines_of(content@)),
{
    let chars = crate::text::str_chars(content.as_str());
    let lines = crate::text::split_lines(&chars);
    classify_lines(&lines)
}

} // verus!

