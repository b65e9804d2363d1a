use vstd::prelude::*;
use vstd::string::*;
use crate::text::{
    first_line_with, find_from, label_list, line_containing, nth_word, parse_count, parse_u32,
    split_labels, word_at, chars_of, find_in,
};

verus! {

/// What the user asks to sync: the categorising provider, its API key, where
/// the bookmarks come from (an export file, or else a session cookie) and
/// where the generated files go.
#[derive(Clone, Debug)]
pub struct SyncConfig {
    pub provider: String,
    pub api_key: String,
    pub input_path: Option<String>,
    pub cookie: Option<String>,
    pub output_dir: String,
}

/// What a finished sync reports back.
#[derive(Clone, Debug)]
pub struct SyncResult {
    pub files_created: u32,
    pub categories: Vec<String>,
    pub output_dir: String,
}

/// The arguments that name the bookmark source: the input file where there
/// is one, else the cookie; `None` where the request names neither.
pub open spec fn source_args(c: SyncConfig) -> Option<Seq<Seq<char>>> {
    match c.input_path {
        Some(p) => Some(seq!["--input"@, p@]),
        None => match c.cookie {
            Some(k) => Some(seq!["--cookie"@, k@]),
            None => None,
        },
    }
}

/// The arguments that pass the API key, none where the key is empty.
pub open spec fn key_args(c: SyncConfig) -> Seq<Seq<char>> {
    if c.api_key@.len() == 0 {
        seq![]
    } else {
        seq!["--api-key"@, c.api_key@]
    }
}

/// The command line of the sync tool for request `c`, or `None` where `c`
/// names no bookmark source.
pub open spec fn cli_args(c: SyncConfig) -> Option<Seq<Seq<char>>> {
    match source_args(c) {
        Some(src) => Some(seq!["sync"@] + src + seq!["--provider"@, c.provider@] + key_args(c)
            + seq!["--output"@, c.output_dir@]),
        None => None,
    }
}

/// The error of a request that names no bookmark source.
pub open spec fn no_source_message() -> Seq<char> {
    "No input source provided"@
}

/// The command line of the sync tool for `config`.
pub fn sync_args(config: &SyncConfig) -> (r: Result<Vec<String>, String>)
    ensures
        match r {
            Ok(a) => cli_args(*config) == Some(a.deep_view()),
            Err(e) => cli_args(*config) is None && e@ == no_source_message(),
        },
{
    let mut args: Vec<String> = Vec::new();
    args.push(String::from_str("sync"));
    match &config.input_path {
        Some(path) => {
            args.push(String::from_str("--input"));
            args.push(path.clone());
        },
        None => match &config.cookie {
            Some(cookie) => {
                args.push(String::from_str("--cookie"));
                args.push(cookie.clone());
            },
            None => {
                return Err(String::from_str("No input source provided"));
            },
        },
    }
    let ghost src = source_args(*config)->Some_0;
    assert(args.deep_view() =~= seq!["sync"@] + src);
    args.push(String::from_str("--provider"));
    args.push(config.provider.clone());
    if !config.api_key.as_str().is_empty() {
        args.push(String::from_str("--api-key"));
        args.push(config.api_key.clone());
    }
    args.push(String::from_str("--output"));
    args.push(config.output_dir.clone());
    assert(args.deep_view() =~= cli_args(*config)->Some_0);
    Ok(args)
}

/// The marker of the line that reports how many files were written.
pub open spec fn count_marker() -> Seq<char> {
    "Generated"@
}

/// The marker of the line that lists the categories.
pub open spec fn labels_marker() -> Seq<char> {
    "Categories:"@
}

/// The number of files that the tool's output `out` reports: the third word
/// of its first line that mentions `Generated`, read as a `u32`; 0 where
/// there is no such line or word, or the word is no such number.
pub open spec fn generated_count(out: Seq<char>) -> u32 {
    match first_line_with(out, count_marker()) {
        Some(l) => match nth_word(l, 0, 2) {
            Some(w) => match parse_u32(w) {
                Some(n) => n,
                None => 0,
            },
            None => 0,
        },
        None => 0,
    }
}

/// The part of `l` after the first occurrence of `m`, up to the next one or
/// the end of `l`; empty where `m` does not occur in `l`.
pub open spec fn after_marker(l: Seq<char>, m: Seq<char>) -> Seq<char> {
    match find_from(l, m, 0) {
        Some(k) => match find_from(l, m, k + m.len()) {
            Some(e) => l.subrange(k + m.len(), e),
            None => l.subrange(k + m.len(), l.len() as int),
        },
        None => seq![],
    }
}

/// The categories that the tool's output `out` lists: on its first line that
/// mentions `Categories:`, the comma-separated labels after that marker,
/// trimmed, with the empty ones left out; none where there is no such line.
pub open spec fn category_labels(out: Seq<char>) -> Seq<Seq<char>> {
    match first_line_with(out, labels_marker()) {
        Some(l) => label_list(after_marker(l, labels_marker())),
        None => seq![],
    }
}

/// The error that reports a failed run of the tool with error output `err`.
pub open spec fn cli_error(err: Seq<char>) -> Seq<char> {
    "CLI error: "@ + err
}

/// The part of `line` after the first occurrence of `marker`, up to the next
/// one or the end of `line`.
pub fn text_after(line: &str, marker: &str) -> (r: String)
    ensures
        r@ == after_marker(line@, marker@),
{
    let v = chars_of(line);
    let m = chars_of(marker);
    let n: usize = v.len();
    match find_in(&v, &m, 0) {
        Some(k) => {
            assert(k + m@.len() <= n);
            let a: usize = k + m.len();
            match find_in(&v, &m, a) {
                Some(e) => line.substring_char(a, e).to_owned(),
                None => line.substring_char(a, v.len()).to_owned(),
            }
        },
        None => String::new(),
    }
}

/// The number of files that the tool's output reports.
pub fn files_created(stdout: &str) -> (r: u32)
    ensures
        r == generated_count(stdout@),
{
    match line_containing(stdout, "Generated") {
        Some(line) => match word_at(line.as_str(), 2) {
            Some(word) => match parse_count(word.as_str()) {
                Some(n) => n,
                None => 0,
            },
            None => 0,
        },
        None => 0,
    }
}

/// The categories that the tool's output lists.
pub fn categories(stdout: &str) -> (r: Vec<String>)
    ensures
        r.deep_view() == category_labels(stdout@),
{
    match line_containing(stdout, "Categories:") {
        Some(line) => {
            let rest = text_after(line.as_str(), "Categories:");
            split_labels(rest.as_str())
        },
        None => Vec::new(),
    }
}

/// The outcome of a run of the sync tool for a request whose output
/// directory is `output_dir`: where the run `succeeded`, the result scraped
/// from its output; else the error that carries its error output.
pub fn sync_outcome(output_dir: String, succeeded: bool, stdout: &str, stderr: &str) -> (r: Result<
    SyncResult,
    String,
>)
    ensures
        succeeded ==> (r matches Ok(res) && res.files_created == generated_count(stdout@)
            && res.categories.deep_view() == category_labels(stdout@) && res.output_dir@
            == output_dir@),
        !succeeded ==> (r matches Err(e) && e@ == cli_error(stderr@)),
{
    if !succeeded {
        return Err(String::from_str("CLI error: ").concat(stderr));
    }
    Ok(SyncResult { files_created: files_created(stdout), categories: categories(stdout), output_dir })
}

} // verus!
