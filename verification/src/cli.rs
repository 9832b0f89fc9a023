//! What the command line reports: the lines of `check`, and why `play`
//! refuses to start. The program prints them and sets the exit status.

use vstd::prelude::*;

use crate::content::checker::{CheckReport, Issue, Severity};
use crate::error::AppError;
use crate::text::{dec, join, join3, join4, join5, owned, usize_str};

verus! {

/// How `check` prints one issue.
pub open spec fn issue_line(i: Issue) -> Seq<char> {
    "["@ + i.severity.spec_label() + "] "@ + i.message@
}

pub open spec fn is_err(i: Issue) -> bool {
    i.severity == Severity::Error
}

/// The issues, errors first, each group in report order.
pub open spec fn errors_first(issues: Seq<Issue>) -> Seq<Issue> {
    issues.filter(|i: Issue| is_err(i)) + issues.filter(|i: Issue| !is_err(i))
}

/// The closing line of `check`.
pub open spec fn spec_check_summary(errors: nat, warnings: nat) -> Seq<char> {
    if errors > 0 {
        "校验未通过："@ + dec(errors) + " 个错误，"@ + dec(warnings) + " 个警告"@
    } else {
        "校验通过（"@ + dec(warnings) + " 个警告）"@
    }
}

/// What `check` reports.
#[derive(Debug)]
pub struct CheckOutput {
    /// One line per issue, errors first.
    pub lines: Vec<String>,
    /// No error: the content may be played.
    pub passed: bool,
    /// The closing line (to the error stream when the check failed).
    pub summary: String,
}

fn issue_text(i: &Issue) -> (r: String)
    ensures
        r@ == issue_line(*i),
{
    join4("[", i.severity.label(), "] ", i.message.as_str())
}

fn push_lines_of(out: &mut Vec<String>, issues: &Vec<Issue>, errors: bool)
    ensures
        final(out)@.map_values(|s: String| s@) == old(out)@.map_values(|s: String| s@) + issues@.filter(
            |i: Issue| is_err(i) == errors,
        ).map_values(|i: Issue| issue_line(i)),
{
    let ghost start = out@.map_values(|s: String| s@);
    let ghost p = |i: Issue| is_err(i) == errors;
    let mut k: usize = 0;
    while k < issues.len()
        invariant
            k <= issues@.len(),
            p == (|i: Issue| is_err(i) == errors),
            out@.map_values(|s: String| s@) == start + issues@.take(k as int).filter(p).map_values(
                |i: Issue| issue_line(i),
            ),
        decreases issues@.len() - k,
    {
        let ghost before = out@.map_values(|s: String| s@);
        proof {
            assert(issues@.take(k + 1) =~= issues@.take(k as int).push(issues@[k as int]));
            issues@.take(k as int).lemma_filter_push(issues@[k as int], p);
        }
        let e = issues[k].severity.is_error();
        if e == errors {
            let t = issue_text(&issues[k]);
            out.push(t);
            assert(out@.map_values(|s: String| s@) =~= before.push(issue_line(issues@[k as int])));
        }
        assert(issues@.take(k + 1).filter(p).map_values(|i: Issue| issue_line(i)) =~= if p(issues@[k as int]) {
            issues@.take(k as int).filter(p).map_values(|i: Issue| issue_line(i)).push(issue_line(issues@[k as int]))
        } else {
            issues@.take(k as int).filter(p).map_values(|i: Issue| issue_line(i))
        });
        k += 1;
    }
    assert(issues@.take(issues@.len() as int) =~= issues@);
}

/// The report of `check`: the issues, errors first; it passes when there
/// is no error; the summary counts errors and the other issues.
pub fn check_output(report: &CheckReport) -> (r: CheckOutput)
    ensures
        r.lines@.map_values(|s: String| s@) == errors_first(report.issues@).map_values(|i: Issue| issue_line(i)),
        r.passed == (report.issues@.filter(|i: Issue| is_err(i)).len() == 0),
        r.summary@ == spec_check_summary(
            report.issues@.filter(|i: Issue| is_err(i)).len(),
            report.issues@.filter(|i: Issue| !is_err(i)).len(),
        ),
{
    let mut lines: Vec<String> = Vec::new();
    push_lines_of(&mut lines, &report.issues, true);
    push_lines_of(&mut lines, &report.issues, false);
    let errors = report.errors().len();
    let warnings = report.warnings().len();
    proof {
        assert((|i: Issue| is_err(i) == true) =~= (|i: Issue| is_err(i)));
        assert((|i: Issue| is_err(i) == false) =~= (|i: Issue| !is_err(i)));
        assert((|i: Issue| i.severity == Severity::Error) =~= (|i: Issue| is_err(i)));
        assert((|i: Issue| i.severity != Severity::Error) =~= (|i: Issue| !is_err(i)));
    }
    let summary = if errors > 0 {
        join5("校验未通过：", usize_str(errors).as_str(), " 个错误，", usize_str(warnings).as_str(), " 个警告")
    } else {
        join3("校验通过（", usize_str(warnings).as_str(), " 个警告）")
    };
    assert(lines@.map_values(|s: String| s@) =~= errors_first(report.issues@).map_values(|i: Issue| issue_line(i)));
    CheckOutput { lines, passed: errors == 0, summary }
}

/// Why `play` refuses content that does not pass the check.
pub open spec fn spec_play_refusal(errors: nat, warnings: nat, data_dir: Seq<char>) -> Seq<char> {
    "内容校验未通过："@ + dec(errors) + " 个错误，"@ + dec(warnings) + " 个警告。请先运行 darkbluff check --data-dir "@
        + data_dir
}

/// The refusal of `play` when the content has errors; none when it passes.
pub fn play_refusal(report: &CheckReport, data_dir: &str) -> (r: Option<AppError>)
    ensures
        match r {
            Some(e) => e matches AppError::Content(m) && report.issues@.filter(|i: Issue| is_err(i)).len() > 0
                && m@ == spec_play_refusal(
                report.issues@.filter(|i: Issue| is_err(i)).len(),
                report.issues@.filter(|i: Issue| !is_err(i)).len(),
                data_dir@,
            ),
            None => report.issues@.filter(|i: Issue| is_err(i)).len() == 0,
        },
{
    let errors = report.errors().len();
    let warnings = report.warnings().len();
    proof {
        assert((|i: Issue| i.severity == Severity::Error) =~= (|i: Issue| is_err(i)));
        assert((|i: Issue| i.severity != Severity::Error) =~= (|i: Issue| !is_err(i)));
    }
    if errors == 0 {
        return None;
    }
    let m = join5(
        "内容校验未通过：",
        usize_str(errors).as_str(),
        " 个错误，",
        usize_str(warnings).as_str(),
        join(" 个警告。请先运行 darkbluff check --data-dir ", data_dir).as_str(),
    );
    Some(AppError::Content(m))
}

/// The error of `play` when no data directory was given and the default
/// one is missing.
pub fn missing_default_data_dir(dir: &str) -> (r: AppError)
    ensures
        r matches AppError::Content(m) && m@ == "默认内容目录不存在："@ + dir@
            + "。当前仓库尚未包含正式 data/，请使用 --data-dir 指向内容目录，例如 crates/darkbluff-core/tests/fixtures/data"@,
{
    AppError::Content(join3(
        "默认内容目录不存在：",
        dir,
        "。当前仓库尚未包含正式 data/，请使用 --data-dir 指向内容目录，例如 crates/darkbluff-core/tests/fixtures/data",
    ))
}

} // verus!
