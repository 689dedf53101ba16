//! Per-file validation results, the warning heuristics, and the batch over
//! the request documents of a directory.
use crate::models::{validation_outcome, AuthConfig, ErrorKind, RequestDefinition, ValidationError};
use crate::text::{has_double_brace, contains_double_brace, starts_with, has_prefix};
use vstd::prelude::*;
use vstd::string::*;

verus! {

/// The outcome of validating one file. `is_valid` holds exactly when no
/// error was recorded.
#[derive(Debug)]
pub struct ValidationResult {
    pub file_path: String,
    pub is_valid: bool,
    pub errors: Vec<ValidationError>,
    pub warnings: Vec<String>,
}

/// The model of a result: path, validity, errors and warnings.
pub struct ReportView {
    pub file_path: Seq<char>,
    pub is_valid: bool,
    pub errors: Seq<(ErrorKind, Seq<char>)>,
    pub warnings: Seq<Seq<char>>,
}

pub open spec fn errors_view(errors: Seq<ValidationError>) -> Seq<(ErrorKind, Seq<char>)> {
    errors.map_values(|e: ValidationError| e@)
}

pub open spec fn texts_view(texts: Seq<String>) -> Seq<Seq<char>> {
    texts.map_values(|t: String| t@)
}

impl View for ValidationResult {
    type V = ReportView;

    open spec fn view(&self) -> ReportView {
        ReportView {
            file_path: self.file_path@,
            is_valid: self.is_valid,
            errors: errors_view(self.errors@),
            warnings: texts_view(self.warnings@),
        }
    }
}

impl ValidationResult {
    pub open spec fn wf(&self) -> bool {
        self.is_valid == (self.errors@.len() == 0)
    }

    /// A result for `file_path` with nothing recorded yet.
    pub fn new(file_path: String) -> (r: Self)
        ensures
            r.wf(),
            r@.file_path == file_path@,
            r@.is_valid,
            r@.errors.len() == 0,
            r@.warnings.len() == 0,
    {
        ValidationResult { file_path, is_valid: true, errors: Vec::new(), warnings: Vec::new() }
    }

    /// Records an error; the file is then invalid.
    pub fn add_error(&mut self, error: ValidationError)
        ensures
            final(self).wf(),
            final(self)@.file_path == old(self)@.file_path,
            !final(self)@.is_valid,
            final(self)@.errors == old(self)@.errors.push(error@),
            final(self)@.warnings == old(self)@.warnings,
    {
        let ghost e = error@;
        self.is_valid = false;
        self.errors.push(error);
        assert(errors_view(self.errors@) =~= errors_view(old(self).errors@).push(e));
    }

    /// Records a warning; validity is not touched.
    pub fn add_warning(&mut self, warning: String)
        ensures
            old(self).wf() ==> final(self).wf(),
            final(self)@.file_path == old(self)@.file_path,
            final(self)@.is_valid == old(self)@.is_valid,
            final(self)@.errors == old(self)@.errors,
            final(self)@.warnings == old(self)@.warnings.push(warning@),
    {
        let ghost w = warning@;
        self.warnings.push(warning);
        assert(texts_view(self.warnings@) =~= texts_view(old(self).warnings@).push(w));
    }
}

pub open spec fn url_warning() -> Seq<char> {
    "Consider using environment variables for URLs"@
}

pub open spec fn token_warning() -> Seq<char> {
    "Consider using environment variables for auth tokens"@
}

pub open spec fn api_key_warning() -> Seq<char> {
    "Consider using environment variables for API keys"@
}

/// A literal absolute URL: no placeholder, and an http or https scheme.
pub open spec fn hardcoded_url(url: Seq<char>) -> bool {
    !has_double_brace(url) && (starts_with(url, "http://"@) || starts_with(url, "https://"@))
}

/// The advisory warnings for a document, in order: a literal URL, then a
/// literal bearer token or API key value.
pub open spec fn warnings_of(d: RequestDefinition) -> Seq<Seq<char>> {
    let url = if hardcoded_url(d.url@) { seq![url_warning()] } else { seq![] };
    let auth = match d.auth {
        Some(AuthConfig::Bearer { token }) => if !has_double_brace(token@) {
            seq![token_warning()]
        } else {
            seq![]
        },
        Some(AuthConfig::ApiKey { value, .. }) => if !has_double_brace(value@) {
            seq![api_key_warning()]
        } else {
            seq![]
        },
        _ => seq![],
    };
    url + auth
}

pub open spec fn outcome_errors(o: Option<(ErrorKind, Seq<char>)>) -> Seq<(ErrorKind, Seq<char>)> {
    match o {
        Some(e) => seq![e],
        None => seq![],
    }
}

/// The result of validating the file at `path` whose loading gave `loaded`:
/// a load error alone, or the first broken rule and the warnings.
pub open spec fn file_report(path: Seq<char>, loaded: Result<RequestDefinition, ValidationError>) -> ReportView {
    match loaded {
        Ok(d) => ReportView {
            file_path: path,
            is_valid: validation_outcome(d) is None,
            errors: outcome_errors(validation_outcome(d)),
            warnings: warnings_of(d),
        },
        Err(e) => ReportView { file_path: path, is_valid: false, errors: seq![e@], warnings: seq![] },
    }
}

/// A file found under a directory, with the outcome of loading it.
pub type LoadedFile = (String, Result<RequestDefinition, ValidationError>);

pub open spec fn batch_report(files: Seq<LoadedFile>) -> Seq<ReportView> {
    files.map_values(|f: LoadedFile| file_report(f.0@, f.1))
}

pub struct RequestValidator;

impl RequestValidator {
    /// Validates one file from the outcome of loading it.
    pub fn validate_file(path: String, loaded: Result<RequestDefinition, ValidationError>) -> (r:
        ValidationResult)
        ensures
            r.wf(),
            r@ == file_report(path@, loaded),
    {
        let ghost p = path@;
        let mut result = ValidationResult::new(path);
        match loaded {
            Ok(request) => {
                if let Err(error) = request.validate() {
                    result.add_error(error);
                }
                Self::check_warning(&request, &mut result);
                assert(result@.errors =~= outcome_errors(validation_outcome(request)));
                assert(result@.warnings =~= warnings_of(request));
            },
            Err(error) => {
                result.add_error(error);
                assert(result@.errors =~= seq![error@]);
                assert(result@.warnings =~= Seq::<Seq<char>>::empty());
            },
        }
        result
    }

    /// Validates every file of a batch, each on its own: a failure of one
    /// file has no effect on the result of another. One result per file, in
    /// the order given.
    pub fn validate_directory(files: Vec<LoadedFile>) -> (r: Vec<ValidationResult>)
        ensures
            r@.len() == files@.len(),
            forall|i: int| 0 <= i < r@.len() ==> (#[trigger] r@[i]).wf(),
            r@.map_values(|v: ValidationResult| v@) == batch_report(files@),
    {
        let ghost all = files@;
        let mut results: Vec<ValidationResult> = Vec::new();
        let mut rest = files;
        while rest.len() > 0
            invariant
                results@.len() + rest@.len() == all.len(),
                rest@ == all.subrange(results@.len() as int, all.len() as int),
                forall|i: int| 0 <= i < results@.len() ==> (#[trigger] results@[i]).wf(),
                forall|i: int|
                    0 <= i < results@.len() ==> (#[trigger] results@[i])@ == file_report(
                        all[i].0@,
                        all[i].1,
                    ),
            decreases rest@.len(),
        {
            let (path, loaded) = rest.remove(0);
            let result = Self::validate_file(path, loaded);
            results.push(result);
            assert(rest@ =~= all.subrange(results@.len() as int, all.len() as int));
        }
        assert(results@.map_values(|v: ValidationResult| v@) =~= batch_report(all));
        results
    }

    fn check_warning(request: &RequestDefinition, result: &mut ValidationResult)
        ensures
            final(result)@.file_path == old(result)@.file_path,
            final(result)@.is_valid == old(result)@.is_valid,
            final(result)@.errors == old(result)@.errors,
            final(result)@.warnings == old(result)@.warnings + warnings_of(*request),
            old(result).wf() ==> final(result).wf(),
    {
        let url = request.url.as_str();
        if !contains_double_brace(url) && (has_prefix(url, "http://") || has_prefix(
            url,
            "https://",
        )) {
            result.add_warning(String::from_str("Consider using environment variables for URLs"));
        }
        let ghost mid = result@.warnings;
        match &request.auth {
            Some(AuthConfig::Bearer { token }) => {
                if !contains_double_brace(token.as_str()) {
                    result.add_warning(
                        String::from_str("Consider using environment variables for auth tokens"),
                    );
                }
            },
            Some(AuthConfig::ApiKey { value, .. }) => {
                if !contains_double_brace(value.as_str()) {
                    result.add_warning(
                        String::from_str("Consider using environment variables for API keys"),
                    );
                }
            },
            _ => {},
        }
        assert(result@.warnings =~= old(result)@.warnings + warnings_of(*request));
    }
}

/// The counts over a batch of results that a report prints.
#[derive(Clone, Copy, Debug, PartialEq, Eq, Structural)]
pub struct ValidationSummary {
    pub total_files: usize,
    pub valid_files: usize,
    pub total_errors: usize,
    pub total_warnings: usize,
}

pub open spec fn reports_view(results: Seq<ValidationResult>) -> Seq<ReportView> {
    results.map_values(|v: ValidationResult| v@)
}

pub open spec fn count_valid(rs: Seq<ReportView>) -> nat
    decreases rs.len(),
{
    if rs.len() == 0 {
        0
    } else {
        count_valid(rs.drop_last()) + if rs.last().is_valid { 1nat } else { 0nat }
    }
}

pub open spec fn count_errors(rs: Seq<ReportView>) -> nat
    decreases rs.len(),
{
    if rs.len() == 0 {
        0
    } else {
        count_errors(rs.drop_last()) + rs.last().errors.len()
    }
}

pub open spec fn count_warnings(rs: Seq<ReportView>) -> nat
    decreases rs.len(),
{
    if rs.len() == 0 {
        0
    } else {
        count_warnings(rs.drop_last()) + rs.last().warnings.len()
    }
}

proof fn lemma_count_valid_bound(rs: Seq<ReportView>)
    ensures
        count_valid(rs) <= rs.len(),
    decreases rs.len(),
{
    if rs.len() > 0 {
        lemma_count_valid_bound(rs.drop_last());
    }
}

proof fn lemma_counts_monotone(rs: Seq<ReportView>, i: int)
    requires
        0 <= i <= rs.len(),
    ensures
        count_errors(rs.subrange(0, i)) <= count_errors(rs),
        count_warnings(rs.subrange(0, i)) <= count_warnings(rs),
    decreases rs.len() - i,
{
    if i < rs.len() {
        lemma_counts_monotone(rs, i + 1);
        assert(rs.subrange(0, i + 1).drop_last() =~= rs.subrange(0, i));
    } else {
        assert(rs.subrange(0, i) =~= rs);
    }
}

impl RequestValidator {
    /// Counts the files, the valid files, the errors and the warnings of a
    /// batch of results.
    pub fn summarize(results: &[ValidationResult]) -> (r: ValidationSummary)
        requires
            count_errors(reports_view(results@)) <= usize::MAX,
            count_warnings(reports_view(results@)) <= usize::MAX,
        ensures
            r.total_files == results@.len(),
            r.valid_files == count_valid(reports_view(results@)),
            r.total_errors == count_errors(reports_view(results@)),
            r.total_warnings == count_warnings(reports_view(results@)),
    {
        let ghost rs = reports_view(results@);
        let mut valid: usize = 0;
        let mut errors: usize = 0;
        let mut warnings: usize = 0;
        let mut i: usize = 0;
        while i < results.len()
            invariant
                i <= results.len(),
                rs == reports_view(results@),
                count_errors(rs) <= usize::MAX,
                count_warnings(rs) <= usize::MAX,
                valid == count_valid(rs.subrange(0, i as int)),
                errors == count_errors(rs.subrange(0, i as int)),
                warnings == count_warnings(rs.subrange(0, i as int)),
            decreases results.len() - i,
        {
            let ghost next = rs.subrange(0, i + 1);
            assert(next.drop_last() =~= rs.subrange(0, i as int));
            assert(next.last() == results@[i as int]@);
            proof {
                lemma_counts_monotone(rs, i + 1);
                lemma_count_valid_bound(rs.subrange(0, i as int));
                assert(errors_view(results@[i as int].errors@).len() == results@[i as int].errors@.len());
                assert(texts_view(results@[i as int].warnings@).len() == results@[i as int].warnings@.len());
            }
            if results[i].is_valid {
                valid = valid + 1;
            }
            errors = errors + results[i].errors.len();
            warnings = warnings + results[i].warnings.len();
            i = i + 1;
        }
        assert(rs.subrange(0, i as int) =~= rs);
        ValidationSummary {
            total_files: results.len(),
            valid_files: valid,
            total_errors: errors,
            total_warnings: warnings,
        }
    }
}

/// Validation stops at the first broken rule: a document whose name is
/// blank is reported with the missing name alone, whatever else is wrong
/// with it (a blank URL included).
pub proof fn lemma_name_rule_first(path: Seq<char>, d: RequestDefinition)
    requires
        crate::text::is_blank(d.name@),
    ensures
        validation_outcome(d) == Some((ErrorKind::MissingField, "name"@)),
        file_report(path, Ok(d)).errors == seq![(ErrorKind::MissingField, "name"@)],
        !file_report(path, Ok(d)).is_valid,
{
}

/// In a batch, each file's result is the one that validating it alone
/// gives: a file that loads and breaks no rule is valid whatever the other
/// files of the batch hold, and every file has its result.
pub proof fn lemma_batch_partial_tolerance(files: Seq<LoadedFile>, i: int)
    requires
        0 <= i < files.len(),
    ensures
        batch_report(files).len() == files.len(),
        batch_report(files)[i] == file_report(files[i].0@, files[i].1),
        (files[i].1 is Ok && validation_outcome(files[i].1->Ok_0) is None) ==> batch_report(files)[i].is_valid,
{
}

} // verus!
