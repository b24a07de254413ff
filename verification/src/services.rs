//! Requests that start, stop, restart or read the logs of an allowed
//! systemd service, and the answers they get.

use vstd::prelude::*;
use vstd::utf8::{decode_utf8, valid_utf8};
use crate::text::{chars_of, string_of, trim, trim_chars};

verus! {

/// The body of every answer of the service endpoints.
pub struct ActionResponse {
    pub success: bool,
    pub message: String,
    pub stdout: String,
    pub stderr: String,
}

/// The text of `bytes` with every ill-formed UTF-8 sequence replaced by
/// U+FFFD.
pub uninterp spec fn utf8_lossy(bytes: Seq<u8>) -> Seq<char>;

/// `String::from_utf8_lossy`: well-formed UTF-8 is decoded as it is; the
/// replacement of ill-formed sequences is named, not stated.
#[verifier::external_body]
fn lossy_text(bytes: &[u8]) -> (s: String)
    ensures
        s@ == utf8_lossy(bytes@),
        valid_utf8(bytes@) ==> s@ == decode_utf8(bytes@),
{
    String::from_utf8_lossy(bytes).to_string()
}

/// A successful answer: status 200 with `message`.
pub fn action_ok(message: String) -> (r: (u16, ActionResponse))
    ensures
        r.0 == 200,
        r.1.success,
        r.1.message@ == message@,
        r.1.stdout@ == Seq::<char>::empty(),
        r.1.stderr@ == Seq::<char>::empty(),
{
    (200, ActionResponse { success: true, message, stdout: String::new(), stderr: String::new() })
}

/// A refusal or failure: status `status` with `message`.
pub fn action_err(status: u16, message: &str) -> (r: (u16, ActionResponse))
    ensures
        r.0 == status,
        !r.1.success,
        r.1.message@ == message@,
        r.1.stdout@ == Seq::<char>::empty(),
        r.1.stderr@ == Seq::<char>::empty(),
{
    (
        status,
        ActionResponse {
            success: false,
            message: string_of(&chars_of(message)),
            stdout: String::new(),
            stderr: String::new(),
        },
    )
}

/// Whether `name` is on the list of services the dashboard may touch.
pub open spec fn is_allowed(allowed: Seq<&str>, name: Seq<char>) -> bool {
    exists|i: int| 0 <= i < allowed.len() && allowed[i]@ == name
}

fn same_text(a: &str, b: &str) -> (r: bool)
    ensures
        r == (a@ == b@),
{
    let x = string_of(&chars_of(a));
    let y = string_of(&chars_of(b));
    x == y
}

/// Whether `service` is one of `allowed`.
pub fn service_allowed(allowed: &[&str], service: &str) -> (r: bool)
    ensures
        r == is_allowed(allowed@, service@),
{
    let mut i: usize = 0;
    while i < allowed.len()
        invariant
            i <= allowed@.len(),
            forall|k: int| 0 <= k < i ==> allowed@[k]@ != service@,
        decreases allowed.len() - i,
    {
        if same_text(allowed[i], service) {
            return true;
        }
        i = i + 1;
    }
    false
}

/// The refusal a service request gets before anything is done, if any: an
/// unauthenticated request is refused with 401, one for a service that is
/// not allowed with 400.
pub fn check_service_request(authorized: bool, allowed: &[&str], service: &str) -> (r: Option<
    (u16, ActionResponse),
>)
    ensures
        !authorized ==> (r matches Some((code, body)) && code == 401 && body.message@
            == "Unauthorized"@ && !body.success),
        authorized && !is_allowed(allowed@, service@) ==> (r matches Some((code, body)) && code
            == 400 && body.message@ == "Service not allowed"@ && !body.success),
        authorized && is_allowed(allowed@, service@) ==> r is None,
{
    if !authorized {
        return Some(action_err(401, "Unauthorized"));
    }
    if !service_allowed(allowed, service) {
        return Some(action_err(400, "Service not allowed"));
    }
    None
}

/// The systemd unit for a service name: names with a `.` already carry
/// their unit type, others are services.
pub open spec fn unit_for(service: Seq<char>) -> Seq<char> {
    if service.contains('.') {
        service
    } else {
        service + ".service"@
    }
}

/// The systemd unit that `service` names.
pub fn unit_name(service: &str) -> (r: String)
    ensures
        r@ == unit_for(service@),
        service@.contains('.') ==> r@ == service@,
        !service@.contains('.') ==> r@ == service@ + ".service"@,
{
    let s = chars_of(service);
    let mut i: usize = 0;
    while i < s.len()
        invariant
            s@ == service@,
            i <= s@.len(),
            forall|k: int| 0 <= k < i ==> s@[k] != '.',
        decreases s.len() - i,
    {
        if s[i] == '.' {
            assert(service@.contains('.')) by {
                assert(service@[i as int] == '.');
            }
            return string_of(&s);
        }
        i = i + 1;
    }
    let mut v = s;
    let mut suffix = chars_of(".service");
    v.append(&mut suffix);
    string_of(&v)
}

/// A name that holds a `.` is already the unit and is used unchanged; any
/// other name gets `.service` appended. The unit always starts with the
/// name, always holds a `.`, and naming it again changes nothing.
pub proof fn law_unit_names(service: Seq<char>)
    ensures
        service.contains('.') ==> unit_for(service) == service,
        !service.contains('.') ==> unit_for(service) == service + ".service"@,
        unit_for(service).take(service.len() as int) == service,
        unit_for(service).contains('.'),
        unit_for(unit_for(service)) == unit_for(service),
{
    reveal_strlit(".service");
    let u = unit_for(service);
    if service.contains('.') {
        assert(u.take(service.len() as int) =~= service);
    } else {
        assert(u.take(service.len() as int) =~= service);
        assert(u[service.len() as int] == '.');
    }
    assert(u.contains('.'));
}

/// The `org.freedesktop.systemd1.Manager` method of an action.
pub open spec fn method_for(action: Seq<char>) -> Option<Seq<char>> {
    if action == "restart"@ {
        Some("RestartUnit"@)
    } else if action == "start"@ {
        Some("StartUnit"@)
    } else if action == "stop"@ {
        Some("StopUnit"@)
    } else {
        None
    }
}

/// The systemd manager method that performs `action`, if it is one of
/// `restart`, `start` and `stop`.
pub fn systemd_method(action: &str) -> (r: Option<&'static str>)
    ensures
        match r {
            Some(m) => method_for(action@) == Some(m@),
            None => method_for(action@) is None,
        },
{
    if same_text(action, "restart") {
        Some("RestartUnit")
    } else if same_text(action, "start") {
        Some("StartUnit")
    } else if same_text(action, "stop") {
        Some("StopUnit")
    } else {
        None
    }
}

/// The systemd manager method for `action`, or the 400 `Invalid action`
/// answer when there is none.
pub fn action_method(action: &str) -> (r: Result<&'static str, (u16, ActionResponse)>)
    ensures
        match r {
            Ok(m) => method_for(action@) == Some(m@),
            Err((code, body)) => method_for(action@) is None && code == 400 && !body.success
                && body.message@ == "Invalid action"@ && body.stdout@ == Seq::<char>::empty()
                && body.stderr@ == Seq::<char>::empty(),
        },
{
    match systemd_method(action) {
        Some(m) => Ok(m),
        None => Err(action_err(400, "Invalid action")),
    }
}

/// The answer to an action that systemd carried out (`Ok`) or refused
/// (`Err` with the error's text).
pub fn action_outcome(service: &str, action: &str, call: Result<(), String>) -> (r: (
    u16,
    ActionResponse,
))
    ensures
        match call {
            Ok(_) => r.0 == 200 && r.1.success && r.1.message@ == service@ + " "@ + action@
                + "ed successfully"@,
            Err(e) => r.0 == 500 && !r.1.success && r.1.message@ == e@,
        },
        r.1.stdout@ == Seq::<char>::empty(),
        r.1.stderr@ == Seq::<char>::empty(),
{
    match call {
        Ok(_) => {
            let mut v = chars_of(service);
            let mut sp = chars_of(" ");
            let mut a = chars_of(action);
            let mut tail = chars_of("ed successfully");
            v.append(&mut sp);
            v.append(&mut a);
            v.append(&mut tail);
            action_ok(string_of(&v))
        },
        Err(e) => action_err(500, e.as_str()),
    }
}

/// The arguments `journalctl` is run with to show a service's last hundred
/// log lines.
pub fn journal_args(service: &str) -> (r: Vec<String>)
    ensures
        r@.len() == 5,
        r@[0]@ == "-u"@,
        r@[1]@ == service@,
        r@[2]@ == "-n"@,
        r@[3]@ == "100"@,
        r@[4]@ == "--no-pager"@,
{
    let mut r: Vec<String> = Vec::new();
    r.push(string_of(&chars_of("-u")));
    r.push(string_of(&chars_of(service)));
    r.push(string_of(&chars_of("-n")));
    r.push(string_of(&chars_of("100")));
    r.push(string_of(&chars_of("--no-pager")));
    r
}

/// The answer carrying a service's log output.
pub fn logs_response(stdout: &[u8], stderr: &[u8]) -> (r: (u16, ActionResponse))
    ensures
        r.0 == 200,
        r.1.success,
        r.1.message@ == Seq::<char>::empty(),
        r.1.stdout@ == utf8_lossy(stdout@),
        r.1.stderr@ == utf8_lossy(stderr@),
{
    (
        200,
        ActionResponse {
            success: true,
            message: String::new(),
            stdout: lossy_text(stdout),
            stderr: lossy_text(stderr),
        },
    )
}

/// The status a service's `systemctl is-active` output reads as: the
/// output with leading and trailing whitespace removed.
pub fn status_text(text: &str) -> (r: String)
    ensures
        r@ == trim(text@),
{
    let chars = chars_of(text);
    string_of(&trim_chars(&chars))
}

/// What `systemctl is-active` reported for a service: its trimmed output,
/// or `unknown` when the command could not be run.
pub fn service_status(stdout: Option<&[u8]>) -> (r: String)
    ensures
        match stdout {
            Some(b) => r@ == trim(utf8_lossy(b@)),
            None => r@ == "unknown"@,
        },
{
    match stdout {
        Some(b) => {
            let text = lossy_text(b);
            status_text(text.as_str())
        },
        None => string_of(&chars_of("unknown")),
    }
}

/// The answer to a reboot request that is refused before anything is
/// done: 401 `Unauthorized` without a valid session token, `None` when
/// the request may go on.
pub fn reboot_gate(authorized: bool) -> (r: Option<(u16, ActionResponse)>)
    ensures
        match r {
            Some(a) => !authorized && a.0 == 401 && !a.1.success && a.1.message@ == "Unauthorized"@
                && a.1.stdout@ == Seq::<char>::empty() && a.1.stderr@ == Seq::<char>::empty(),
            None => authorized,
        },
{
    if authorized {
        None
    } else {
        Some(action_err(401, "Unauthorized"))
    }
}

/// The answer to a reboot that logind accepted (`Ok`) or that failed
/// (`Err` with the error's text).
pub fn reboot_outcome(call: Result<(), String>) -> (r: (u16, ActionResponse))
    ensures
        match call {
            Ok(_) => r.0 == 200 && r.1.success && r.1.message@ == "Rebooting..."@,
            Err(e) => r.0 == 500 && !r.1.success && r.1.message@ == e@,
        },
        r.1.stdout@ == Seq::<char>::empty(),
        r.1.stderr@ == Seq::<char>::empty(),
{
    match call {
        Ok(_) => action_ok(string_of(&chars_of("Rebooting..."))),
        Err(e) => action_err(500, e.as_str()),
    }
}

} // verus!
