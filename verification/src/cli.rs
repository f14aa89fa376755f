use vstd::prelude::*;

verus! {

/// The options of one `attack` command: how to build the request, how
/// often and how concurrently to send it, and where its log goes.
pub struct ExecutionCommand {
    /// Method of the API call (`GET` or `POST`, in any letter case).
    pub method: String,
    /// Headers of the API call, as a JSON object.
    pub headers: Option<String>,
    /// Query parameters of the API call, as a JSON object.
    pub params: Option<String>,
    /// Body of the API call.
    pub body: Option<String>,
    /// Whether responses are logged to a file.
    pub log_file: Option<bool>,
    /// Name under which the calls are logged.
    pub test_name: Option<String>,
    /// Number of rounds of calls.
    pub try_count: u32,
    /// Number of calls sent at once in every round.
    pub concurrent_request: u8,
    /// Whether to show more output.
    pub verbose: bool,
}

} // verus!
