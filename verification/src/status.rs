//! Machine-detectable status markers for acceptance suites whose external
//! fixtures are absent.

use vstd::prelude::*;
use crate::text::{append_chars, chars_of, string_of};

verus! {

/// Whether the strict-mode environment value demands live acceptance:
/// exactly the text `1`, nothing else.
pub fn strict_from(value: Option<&str>) -> (strict: bool)
    ensures
        strict == (value is Some && value->0@ == seq!['1']),
{
    match value {
        None => false,
        Some(s) => {
            let v = chars_of(s);
            let r = v.len() == 1 && v[0] == '1';
            proof {
                if r {
                    assert(v@ =~= seq!['1']);
                }
            }
            r
        }
    }
}

} // verus!

verus! {

/// Environment variable that turns on strict live acceptance.
pub const STRICT_ENV: &'static str = "CLOUDDESK_REQUIRE_LIVE_ACCEPTANCE";

/// Environment variable overriding where markers are recorded.
pub const STATUS_LOG_ENV: &'static str = "CLOUDDESK_TEST_STATUS_LOG";

/// The one status value the markers carry.
pub const STATUS_BLOCKED: &'static str = "BLOCKED_BY_ENVIRONMENT";

/// The marker line: three `KEY=VALUE` fields on one line.
pub open spec fn spec_marker_line(test_name: Seq<char>, reason: Seq<char>) -> Seq<char> {
    "CLOUDDESK_TEST_STATUS=BLOCKED_BY_ENVIRONMENT CLOUDDESK_TEST_REASON="@ + reason
        + " CLOUDDESK_TEST_NAME="@ + test_name
}

/// The exact marker line for a test blocked by its environment.
pub fn marker_line(test_name: &str, reason: &str) -> (line: String)
    ensures
        line@ == spec_marker_line(test_name@, reason@),
{
    let mut v = chars_of("CLOUDDESK_TEST_STATUS=BLOCKED_BY_ENVIRONMENT CLOUDDESK_TEST_REASON=");
    append_chars(&mut v, chars_of(reason).as_slice());
    append_chars(&mut v, chars_of(" CLOUDDESK_TEST_NAME=").as_slice());
    append_chars(&mut v, chars_of(test_name).as_slice());
    string_of(v.as_slice())
}

} // verus!
