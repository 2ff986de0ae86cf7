//! Problems found while reading project metadata, and reports of them.
use vstd::prelude::*;

verus! {

/// How serious a diagnostic is.
#[derive(Debug, Clone, Copy, PartialEq, Eq, Structural)]
pub enum DiagnosticSeverity {
    /// Critical issue that prevents proper functionality.
    Error,
    /// Warning that should be addressed but doesn't break functionality.
    Warning,
    /// Informational message.
    Info,
}

/// A problem met while reading a project's metadata file.
#[derive(Debug, Clone)]
pub struct ParseDiagnostic {
    pub project_name: String,
    pub project_path: String,
    pub file_name: String,
    pub severity: DiagnosticSeverity,
    pub message: String,
    pub details: Option<String>,
}

impl ParseDiagnostic {
    /// A new error diagnostic, without details.
    pub fn error(project_name: String, project_path: String, file_name: String, message: String) -> (r: Self)
        ensures
            r.project_name == project_name,
            r.project_path == project_path,
            r.file_name == file_name,
            r.severity == DiagnosticSeverity::Error,
            r.message == message,
            r.details.is_none(),
    {
        ParseDiagnostic {
            project_name,
            project_path,
            file_name,
            severity: DiagnosticSeverity::Error,
            message,
            details: None,
        }
    }

    /// A new warning diagnostic, without details.
    pub fn warning(project_name: String, project_path: String, file_name: String, message: String) -> (r: Self)
        ensures
            r.project_name == project_name,
            r.project_path == project_path,
            r.file_name == file_name,
            r.severity == DiagnosticSeverity::Warning,
            r.message == message,
            r.details.is_none(),
    {
        ParseDiagnostic {
            project_name,
            project_path,
            file_name,
            severity: DiagnosticSeverity::Warning,
            message,
            details: None,
        }
    }

    /// The same diagnostic with `details` attached.
    pub fn with_details(self, details: String) -> (r: Self)
        ensures
            r == (ParseDiagnostic { details: Some(details), ..self }),
    {
        let mut d = self;
        d.details = Some(details);
        d
    }
}

/// The number of diagnostics of severity `sev` in `s`.
pub open spec fn count_severity(s: Seq<ParseDiagnostic>, sev: DiagnosticSeverity) -> nat
    decreases s.len(),
{
    if s.len() == 0 {
        0
    } else {
        count_severity(s.drop_last(), sev) + if s.last().severity == sev {
            1nat
        } else {
            0nat
        }
    }
}

/// Some diagnostic of `s` has severity `sev`.
pub open spec fn has_severity(s: Seq<ParseDiagnostic>, sev: DiagnosticSeverity) -> bool {
    exists|i: int| 0 <= i < s.len() && #[trigger] s[i].severity == sev
}

/// Counting over two lists joined is adding the two counts.
pub proof fn lemma_count_add(a: Seq<ParseDiagnostic>, b: Seq<ParseDiagnostic>, sev: DiagnosticSeverity)
    ensures
        count_severity(a + b, sev) == count_severity(a, sev) + count_severity(b, sev),
    decreases b.len(),
{
    if b.len() == 0 {
        assert(a + b =~= a);
    } else {
        lemma_count_add(a, b.drop_last(), sev);
        assert((a + b).drop_last() =~= a + b.drop_last());
    }
}

/// A severity is counted at most once per diagnostic.
pub proof fn lemma_count_bounded(s: Seq<ParseDiagnostic>, sev: DiagnosticSeverity)
    ensures
        count_severity(s, sev) <= s.len(),
    decreases s.len(),
{
    if s.len() > 0 {
        lemma_count_bounded(s.drop_last(), sev);
    }
}

/// A severity has a positive count exactly when some diagnostic has it.
pub proof fn lemma_count_positive(s: Seq<ParseDiagnostic>, sev: DiagnosticSeverity)
    ensures
        (count_severity(s, sev) > 0) == has_severity(s, sev),
    decreases s.len(),
{
    if s.len() > 0 {
        let t = s.drop_last();
        lemma_count_positive(t, sev);
        if has_severity(t, sev) {
            let i = choose|i: int| 0 <= i < t.len() && #[trigger] t[i].severity == sev;
            assert(s[i].severity == sev);
        }
        if has_severity(s, sev) && s.last().severity != sev {
            let i = choose|i: int| 0 <= i < s.len() && #[trigger] s[i].severity == sev;
            assert(t[i].severity == sev);
        }
        if s.last().severity == sev {
            assert(s[s.len() - 1].severity == sev);
        }
    }
}

/// The diagnostics collected during a scan.
#[derive(Debug, Clone)]
pub struct DiagnosticReport {
    pub diagnostics: Vec<ParseDiagnostic>,
}

impl Default for DiagnosticReport {
    fn default() -> (r: Self)
        ensures
            r.diagnostics@.len() == 0,
    {
        DiagnosticReport { diagnostics: Vec::new() }
    }
}

impl DiagnosticReport {
    /// An empty report.
    pub fn new() -> (r: Self)
        ensures
            r.diagnostics@.len() == 0,
    {
        DiagnosticReport { diagnostics: Vec::new() }
    }

    /// Adds a diagnostic at the end.
    pub fn add(&mut self, diagnostic: ParseDiagnostic)
        ensures
            final(self).diagnostics@ == old(self).diagnostics@.push(diagnostic),
    {
        self.diagnostics.push(diagnostic);
    }

    fn has_severity(&self, sev: DiagnosticSeverity) -> (r: bool)
        ensures
            r == has_severity(self.diagnostics@, sev),
    {
        let mut i: usize = 0;
        while i < self.diagnostics.len()
            invariant
                i <= self.diagnostics@.len(),
                forall|j: int| 0 <= j < i ==> #[trigger] self.diagnostics@[j].severity != sev,
            decreases self.diagnostics@.len() - i,
        {
            if self.diagnostics[i].severity == sev {
                return true;
            }
            i = i + 1;
        }
        false
    }

    fn count(&self, sev: DiagnosticSeverity) -> (n: usize)
        ensures
            n == count_severity(self.diagnostics@, sev),
    {
        let mut n: usize = 0;
        let mut i: usize = 0;
        while i < self.diagnostics.len()
            invariant
                i <= self.diagnostics@.len(),
                n == count_severity(self.diagnostics@.take(i as int), sev),
            decreases self.diagnostics@.len() - i,
        {
            proof {
                lemma_count_bounded(self.diagnostics@.take(i as int), sev);
                assert(self.diagnostics@.take(i + 1).drop_last() =~= self.diagnostics@.take(i as int));
            }
            if self.diagnostics[i].severity == sev {
                n = n + 1;
            }
            i = i + 1;
        }
        assert(self.diagnostics@.take(i as int) =~= self.diagnostics@);
        n
    }

    /// Whether some diagnostic is an error.
    pub fn has_errors(&self) -> (r: bool)
        ensures
            r == has_severity(self.diagnostics@, DiagnosticSeverity::Error),
    {
        self.has_severity(DiagnosticSeverity::Error)
    }

    /// Whether some diagnostic is a warning.
    pub fn has_warnings(&self) -> (r: bool)
        ensures
            r == has_severity(self.diagnostics@, DiagnosticSeverity::Warning),
    {
        self.has_severity(DiagnosticSeverity::Warning)
    }

    /// The number of errors.
    pub fn error_count(&self) -> (n: usize)
        ensures
            n == count_severity(self.diagnostics@, DiagnosticSeverity::Error),
    {
        self.count(DiagnosticSeverity::Error)
    }

    /// The number of warnings.
    pub fn warning_count(&self) -> (n: usize)
        ensures
            n == count_severity(self.diagnostics@, DiagnosticSeverity::Warning),
    {
        self.count(DiagnosticSeverity::Warning)
    }

    /// Moves the diagnostics of `other` to the end of this report.
    pub fn merge(&mut self, other: DiagnosticReport)
        ensures
            final(self).diagnostics@ == old(self).diagnostics@ + other.diagnostics@,
    {
        let mut other = other;
        self.diagnostics.append(&mut other.diagnostics);
    }
}

/// A report has errors exactly when its error count is positive (and the
/// same for warnings).
pub proof fn law_has_errors_iff_count_positive(s: Seq<ParseDiagnostic>)
    ensures
        has_severity(s, DiagnosticSeverity::Error) == (count_severity(s, DiagnosticSeverity::Error) > 0),
        has_severity(s, DiagnosticSeverity::Warning) == (count_severity(
            s,
            DiagnosticSeverity::Warning,
        ) > 0),
{
    lemma_count_positive(s, DiagnosticSeverity::Error);
    lemma_count_positive(s, DiagnosticSeverity::Warning);
}

/// Merging two reports adds their counts of each severity.
pub proof fn law_merge_adds_counts(a: Seq<ParseDiagnostic>, b: Seq<ParseDiagnostic>, sev: DiagnosticSeverity)
    ensures
        count_severity(a + b, sev) == count_severity(a, sev) + count_severity(b, sev),
{
    lemma_count_add(a, b, sev);
}

/// Adding a diagnostic raises the count of its severity by one and leaves
/// the other counts as they were.
pub proof fn law_add_counts_once(s: Seq<ParseDiagnostic>, d: ParseDiagnostic, sev: DiagnosticSeverity)
    ensures
        count_severity(s.push(d), sev) == count_severity(s, sev) + if d.severity == sev {
            1int
        } else {
            0int
        },
{
    assert(s.push(d).drop_last() =~= s);
}

/// The errors and warnings of a report never outnumber its diagnostics.
pub proof fn law_counts_bounded(s: Seq<ParseDiagnostic>)
    ensures
        count_severity(s, DiagnosticSeverity::Error) + count_severity(s, DiagnosticSeverity::Warning)
            <= s.len(),
    decreases s.len(),
{
    if s.len() > 0 {
        law_counts_bounded(s.drop_last());
    }
}

} // verus!
