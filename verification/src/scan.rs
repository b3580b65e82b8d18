//! Table scans: planning which files a read must visit. Interface
//! placeholders in this core.

use crate::table::Expression;
use vstd::prelude::*;

verus! {

/// One unit of scan work.
#[derive(Debug)]
pub enum ScanTask {
    FileScanTask(FileScanTask),
    CombinedScanTask(CombinedScanTask),
}

/// A scan of one data file.
#[derive(Debug)]
pub struct FileScanTask {}

/// Several file scans combined into one unit.
#[derive(Debug)]
pub struct CombinedScanTask {}

/// A configurable scan over a table's data files.
pub trait TableScan: Sized {
    fn use_snapshot(self, snapshot_id: u64) -> Self;

    fn as_of_time(self, timestamp: u64) -> Self;

    fn select(self, columns: Vec<String>) -> Self;

    fn filter<E: Expression>(self, predicate: &E) -> Self;

    fn plan_files(&self) -> Vec<FileScanTask>;

    fn plan_tasks(&self) -> Vec<CombinedScanTask>;
}

} // verus!
