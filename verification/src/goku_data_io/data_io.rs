use vstd::prelude::*;

verus! {

/// A test run: its name and the (rendered) time it started.
pub struct TestInstance {
    pub test_name: String,
    pub test_time: String,
}

/// The header of a test's log: its name and start time, one per line.
pub open spec fn test_header(test_name: Seq<char>, test_time: Seq<char>) -> Seq<char> {
    "test_name: "@ + test_name + "\r\ntest_time: "@ + test_time + "\r\n"@
}

impl TestInstance {
    /// The header of the test's log.
    pub fn encode(&self) -> (s: String)
        ensures
            s@ == test_header(self.test_name@, self.test_time@),
    {
        let mut s = String::from_str("test_name: ");
        s.append(self.test_name.as_str());
        s.append("\r\ntest_time: ");
        s.append(self.test_time.as_str());
        s.append("\r\n");
        s
    }
}

/// One logged call: when it was made (rendered), the command that made
/// it, the request sent and the result received.
pub struct Call {
    timestamp: String,
    command: String,
    request: String,
    result: String,
}

/// The abstract view of a `Call`.
pub struct CallView {
    pub timestamp: Seq<char>,
    pub command: Seq<char>,
    pub request: Seq<char>,
    pub result: Seq<char>,
}

impl View for Call {
    type V = CallView;

    closed spec fn view(&self) -> CallView {
        CallView {
            timestamp: self.timestamp@,
            command: self.command@,
            request: self.request@,
            result: self.result@,
        }
    }
}

/// The log record of a call: timestamp, a tab and the command on the
/// first line, then the request and the result on lines of their own.
pub open spec fn call_record(c: CallView) -> Seq<char> {
    c.timestamp + "\t "@ + c.command + "\r\n"@ + c.request + "\r\n"@ + c.result + "\r\n"@
}

impl Call {
    /// The call made at `timestamp` by `command` with this request and
    /// result.
    pub fn new(timestamp: String, command: String, request: String, result: String) -> (c: Call)
        ensures
            c@ == (CallView {
                timestamp: timestamp@,
                command: command@,
                request: request@,
                result: result@,
            }),
    {
        Call { timestamp, command, request, result }
    }

    /// The call's log record.
    pub fn encode(&self) -> (s: String)
        ensures
            s@ == call_record(self@),
    {
        let mut s = self.timestamp.clone();
        s.append("\t ");
        s.append(self.command.as_str());
        s.append("\r\n");
        s.append(self.request.as_str());
        s.append("\r\n");
        s.append(self.result.as_str());
        s.append("\r\n");
        s
    }
}

/// The path of a test's log file: `<fs_path>/<test_name>.goku`.
pub open spec fn log_path_of(fs_path: Seq<char>, test_name: Seq<char>) -> Seq<char> {
    fs_path + "/"@ + test_name + ".goku"@
}

/// The path of the log file of test `test_name` in directory `fs_path`.
pub fn log_path(fs_path: &str, test_name: &str) -> (p: String)
    ensures
        p@ == log_path_of(fs_path@, test_name@),
{
    let mut p = String::from_str(fs_path);
    p.append("/");
    p.append(test_name);
    p.append(".goku");
    p
}

} // verus!
