use vstd::prelude::*;

verus! {

/// Where reports, call logs and the application log are written.
pub struct Config {
    pub report_dir: String,
    pub api_call_log_dir: String,
    pub app_logs_file: String,
}

/// The directory used for reports and call logs when none is configured.
pub open spec fn default_dir() -> Seq<char> {
    "/home/rishi/goku/"@
}

/// The application log file used when none is configured.
pub open spec fn default_logs_file() -> Seq<char> {
    "/home/rishi/goku/logs.goku"@
}

/// A configured value, or the default when it is absent.
pub open spec fn or_default(value: Option<String>, default: Seq<char>) -> Seq<char> {
    match value {
        Some(v) => v@,
        None => default,
    }
}

impl Config {
    /// The configuration from the values of `REPORT_DIR`,
    /// `API_CALL_LOG_DIR` and `API_LOGS_FILE` where they are set, each
    /// absent one replaced by its default.  It never fails.
    pub fn new(
        report_dir: Option<String>,
        api_call_log_dir: Option<String>,
        api_logs_file: Option<String>,
    ) -> (r: Result<Config, String>)
        ensures
            r matches Ok(c) && c.report_dir@ == or_default(report_dir, default_dir())
                && c.api_call_log_dir@ == or_default(api_call_log_dir, default_dir())
                && c.app_logs_file@ == or_default(api_logs_file, default_logs_file()),
    {
        let report_dir = match report_dir {
            Some(v) => v,
            None => String::from_str("/home/rishi/goku/"),
        };
        let api_call_log_dir = match api_call_log_dir {
            Some(v) => v,
            None => String::from_str("/home/rishi/goku/"),
        };
        let app_logs_file = match api_logs_file {
            Some(v) => v,
            None => String::from_str("/home/rishi/goku/logs.goku"),
        };
        Ok(Config { report_dir, api_call_log_dir, app_logs_file })
    }

    /// Where the calls of test `test_name` are logged:
    /// `<api_call_log_dir><test_name>.logs.json`.
    pub fn call_log_path(&self, test_name: &str) -> (p: String)
        ensures
            p@ == self.api_call_log_dir@ + test_name@ + ".logs.json"@,
    {
        let mut p = self.api_call_log_dir.clone();
        p.append(test_name);
        p.append(".logs.json");
        p
    }

    /// Where the report of test `test_name` is written:
    /// `<report_dir><test_name>.report.json`.
    pub fn report_path(&self, test_name: &str) -> (p: String)
        ensures
            p@ == self.report_dir@ + test_name@ + ".report.json"@,
    {
        let mut p = self.report_dir.clone();
        p.append(test_name);
        p.append(".report.json");
        p
    }
}

} // verus!
