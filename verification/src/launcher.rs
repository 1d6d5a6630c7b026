//! The job launcher's computational side: the argument lists handed to
//! the external downloader, the output-path template inside the
//! dedicated download folder, and the best-effort title computed from a
//! finished metadata run.

use crate::scan;
use vstd::prelude::*;
use vstd::string::*;

verus! {

/// Name of the dedicated folder under the platform's downloads
/// location.
pub fn download_folder_name() -> (name: &'static str)
    ensures
        name@ == "RYT-Downloads"@,
{
    "RYT-Downloads"
}

/// The fixed progress template handed to the downloader so that its
/// standard output is mechanically parseable. What the downloader
/// renders from it is read back by `crate::progress::parse_line`; the
/// template and the pattern are versioned together.
pub fn progress_template() -> (t: &'static str)
    ensures
        t@ == "[download] %(progress._percent_str)s | %(progress._speed_str)s | %(progress._eta_str)s"@,
{
    "[download] %(progress._percent_str)s | %(progress._speed_str)s | %(progress._eta_str)s"
}

/// The output-path template inside `folder`: the downloader substitutes
/// the resolved title and the native container extension.
pub open spec fn output_template_spec(folder: Seq<char>) -> Seq<char> {
    folder + "/%(title)s.%(ext)s"@
}

/// The output-path template inside `folder`, rendered.
pub fn output_template(folder: &str) -> (t: String)
    ensures
        t@ == output_template_spec(folder@),
{
    let mut t = String::from_str(folder);
    t.append("/%(title)s.%(ext)s");
    t
}

/// The argument list for one download job: line-buffered output, no
/// playlist expansion, progress in the fixed template, the output-path
/// template, and the target URL last.
pub fn downloader_args(out_template: &str, url: &str) -> (args: Vec<String>)
    requires
        url@.len() > 0,
    ensures
        args@.len() == 7,
        args@[0]@ == "--newline"@,
        args@[1]@ == "--no-playlist"@,
        args@[2]@ == "--progress-template"@,
        args@[3]@ == "[download] %(progress._percent_str)s | %(progress._speed_str)s | %(progress._eta_str)s"@,
        args@[4]@ == "-o"@,
        args@[5]@ == out_template@,
        args@[6]@ == url@,
{
    let mut args: Vec<String> = Vec::new();
    args.push(String::from_str("--newline"));
    args.push(String::from_str("--no-playlist"));
    args.push(String::from_str("--progress-template"));
    args.push(String::from_str(progress_template()));
    args.push(String::from_str("-o"));
    args.push(String::from_str(out_template));
    args.push(String::from_str(url));
    args
}

/// The argument list for a blocking metadata-only run that prints the
/// video's title.
pub fn title_args(url: &str) -> (args: Vec<String>)
    ensures
        args@.len() == 2,
        args@[0]@ == "--get-title"@,
        args@[1]@ == url@,
{
    let mut args: Vec<String> = Vec::new();
    args.push(String::from_str("--get-title"));
    args.push(String::from_str(url));
    args
}

/// The placeholder title for a failed metadata run.
pub fn unknown_title() -> (t: &'static str)
    ensures
        t@ == "Unknown Video"@,
{
    "Unknown Video"
}

/// The title a metadata run yields: the tool's trimmed standard output
/// when the run succeeded, the fixed placeholder otherwise. A failure
/// of the tool never surfaces as an error; the lookup is best-effort.
pub fn title_from_output(invocation_succeeded: bool, stdout: &str) -> (title: String)
    ensures
        invocation_succeeded ==> title@ == scan::spec_trim(stdout@),
        !invocation_succeeded ==> title@ == "Unknown Video"@,
{
    if invocation_succeeded {
        scan::trim_line(stdout)
    } else {
        String::from_str("Unknown Video")
    }
}

} // verus!
