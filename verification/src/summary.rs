//! What a run over several batch files leaves to report.

use vstd::prelude::*;

verus! {

/// A batch file by its position in the run, counted from 1, and its name.
#[derive(Debug)]
pub struct FileRef {
    pub position: usize,
    pub name: String,
}

/// A batch file that ran but left failed requests behind.
#[derive(Debug)]
pub struct IncompleteFile {
    pub file: FileRef,
    pub failed_requests: Vec<usize>,
}

/// What became of one batch file.
#[derive(Debug)]
pub enum FileResult {
    /// The batch ran; these requests failed.
    Imported(Vec<usize>),
    /// The file could not be read or parsed.
    Failed,
}

/// What a run over several batch files leaves to report: the files that
/// could not be imported, and the files with failed requests.
#[derive(Debug)]
pub struct ImportSummary {
    pub failed_files: Vec<FileRef>,
    pub incomplete_files: Vec<IncompleteFile>,
}

/// The lists of a summary after the result of one more file.
pub open spec fn summary_lists_after(
    failed_files: Seq<FileRef>,
    incomplete_files: Seq<IncompleteFile>,
    index: usize,
    name: String,
    result: FileResult,
) -> (Seq<FileRef>, Seq<IncompleteFile>) {
    let file = FileRef { position: (index + 1) as usize, name };
    match result {
        FileResult::Failed => (failed_files.push(file), incomplete_files),
        FileResult::Imported(failed) => if failed@.len() == 0 {
            (failed_files, incomplete_files)
        } else {
            (failed_files, incomplete_files.push(IncompleteFile { file, failed_requests: failed }))
        },
    }
}

impl ImportSummary {
    /// A summary with nothing to report.
    pub fn new() -> (summary: ImportSummary)
        ensures
            summary.failed_files@.len() == 0,
            summary.incomplete_files@.len() == 0,
    {
        ImportSummary { failed_files: Vec::new(), incomplete_files: Vec::new() }
    }

    /// Files the result of the batch file at `index` (counted from 0). A
    /// file that failed joins the failed files, a file with failed requests
    /// the incomplete ones; a file without any leaves no trace.
    pub fn record(&mut self, index: usize, name: String, result: FileResult)
        requires
            index < usize::MAX,
        ensures
            final(self).failed_files@ == summary_lists_after(
                old(self).failed_files@,
                old(self).incomplete_files@,
                index,
                name,
                result,
            ).0,
            final(self).incomplete_files@ == summary_lists_after(
                old(self).failed_files@,
                old(self).incomplete_files@,
                index,
                name,
                result,
            ).1,
    {
        let file = FileRef { position: index + 1, name };
        match result {
            FileResult::Failed => {
                self.failed_files.push(file);
            },
            FileResult::Imported(failed) => {
                if failed.len() > 0 {
                    self.incomplete_files.push(IncompleteFile { file, failed_requests: failed });
                }
            },
        }
    }

    /// Whether every file was imported without a failed request.
    pub fn is_clean(&self) -> (clean: bool)
        ensures
            clean == (self.failed_files@.len() == 0 && self.incomplete_files@.len() == 0),
    {
        self.failed_files.len() == 0 && self.incomplete_files.len() == 0
    }
}

} // verus!
