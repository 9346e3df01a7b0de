use vstd::prelude::*;

use crate::scan::Scan;
use crate::scan::ScanResult;
use crate::status::Status;

verus! {

/// An error reported by the scanner backend.
#[derive(Clone, Copy, Debug, PartialEq, Eq, Structural)]
pub struct ScanError;

/// What one poll of the scanner yields: the scan's current status and the
/// results not previously returned.
pub type FetchResult = (Status, Vec<ScanResult>);

/// Spawns the execution of a scan.
pub trait ScanStarter {
    fn start_scan(&self, scan: Scan) -> Result<(), ScanError>;
}

/// Requests graceful termination of a scan. Must be safe to call when the
/// scan is already stopped.
pub trait ScanStopper {
    fn stop_scan(&self, id: &str) -> Result<(), ScanError>;
}

/// Forgets scanner-side state of a scan.
pub trait ScanDeleter {
    fn delete_scan(&self, id: &str) -> Result<(), ScanError>;
}

/// Fetches the current status of a scan and any new results.
pub trait ScanResultFetcher {
    fn fetch_results(&self, id: &str) -> Result<FetchResult, ScanError>;
}

/// Combines all traits needed for a scanner.
pub trait Scanner: ScanStarter + ScanStopper + ScanDeleter + ScanResultFetcher {

}

impl<T> Scanner for T where T: ScanStarter + ScanStopper + ScanDeleter + ScanResultFetcher {

}

/// A scanner without any side effects. Used for testing.
#[derive(Clone, Copy, Debug)]
pub struct NoOpScanner;

impl Default for NoOpScanner {
    fn default() -> (r: Self)
        ensures
            r == NoOpScanner,
    {
        NoOpScanner
    }
}

impl ScanStarter for NoOpScanner {
    fn start_scan(&self, _scan: Scan) -> Result<(), ScanError> {
        Ok(())
    }
}

impl ScanStopper for NoOpScanner {
    fn stop_scan(&self, _id: &str) -> Result<(), ScanError> {
        Ok(())
    }
}

impl ScanDeleter for NoOpScanner {
    fn delete_scan(&self, _id: &str) -> Result<(), ScanError> {
        Ok(())
    }
}

impl ScanResultFetcher for NoOpScanner {
    fn fetch_results(&self, _id: &str) -> Result<FetchResult, ScanError> {
        Ok(
            (
                Status { start_time: None, end_time: None, status: crate::status::Phase::Stored, host_info: None },
                Vec::new(),
            ),
        )
    }
}

} // verus!
