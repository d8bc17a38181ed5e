use vstd::prelude::*;

verus! {

/// The settings of a collector.
#[derive(Debug)]
pub struct Config {
    pub max_download_queue_size: usize,
    pub log_download_state_secs_interval: u64,
    pub log_verbosity_level: i32,
    pub database_directory: String,
    pub api_id: i64,
    pub api_hash: String,
    pub phone_number: String,
}

impl Config {
    /// How often the state of the download queue is logged, in seconds;
    /// `None` where the interval is zero, which turns that log off.
    pub fn log_download_state_interval(&self) -> (r: Option<u64>)
        ensures
            r == (if self.log_download_state_secs_interval == 0 {
                None
            } else {
                Some(self.log_download_state_secs_interval)
            }),
    {
        if self.log_download_state_secs_interval == 0 {
            None
        } else {
            Some(self.log_download_state_secs_interval)
        }
    }
}

} // verus!
