//! The Server酱 notification channel: where a message goes and how the reply is read.

use vstd::prelude::*;

use crate::models::NotifyError;
use crate::text::{chars_of, push_str, string_of};

verus! {

/// The default Server酱 endpoint.
pub fn serverchan_base_url() -> (r: String)
    ensures
        r@ == "https://sct.ftqq.com"@,
{
    string_of(&chars_of("https://sct.ftqq.com"))
}

/// The address a message is posted to: `{base_url}/{sendkey}.send`.
pub fn serverchan_endpoint(base_url: &str, sendkey: &str) -> (r: String)
    ensures
        r@ == base_url@ + "/"@ + sendkey@ + ".send"@,
{
    let mut v = chars_of(base_url);
    push_str(&mut v, "/");
    push_str(&mut v, sendkey);
    push_str(&mut v, ".send");
    string_of(&v)
}

/// Reads the HTTP status of a reply: a 2xx status lets the body be read; any other
/// fails with `serverchan status {status_text}`, `status_text` being how the status
/// is written (such as `500 Internal Server Error`).
pub fn serverchan_status(status: u16, status_text: &str) -> (r: Result<(), NotifyError>)
    ensures
        200 <= status <= 299 ==> r is Ok,
        !(200 <= status <= 299) ==> (r matches Err(NotifyError::Http(m)) && m@
            == "serverchan status "@ + status_text@),
{
    if 200 <= status && status <= 299 {
        Ok(())
    } else {
        let mut m = chars_of("serverchan status ");
        push_str(&mut m, status_text);
        Err(NotifyError::Http(string_of(&m)))
    }
}

/// Reads a successful HTTP reply by its `code` and `message` fields: code 0 (an absent
/// or non-integer code counts as -1) is success; any other code is an API error with the
/// message (`unknown` when absent).
pub fn serverchan_reply(code: Option<i64>, message: Option<String>) -> (r: Result<(), NotifyError>)
    ensures
        ({
            let c = match code {
                Some(c) => c,
                None => -1i64,
            };
            if c == 0 {
                r is Ok
            } else {
                r matches Err(NotifyError::Api { code: rc, message: m }) && rc == c && m@ == match message {
                    Some(x) => x@,
                    None => "unknown"@,
                }
            }
        }),
{
    let c = match code {
        Some(c) => c,
        None => -1,
    };
    if c != 0 {
        let m = match message {
            Some(x) => x,
            None => string_of(&chars_of("unknown")),
        };
        return Err(NotifyError::Api { code: c, message: m });
    }
    Ok(())
}

} // verus!
