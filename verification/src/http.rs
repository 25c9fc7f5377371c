//! What the HTTP endpoints answer.
use vstd::prelude::*;

verus! {

/// The status of an answer that is fine.
pub const OK: u16 = 200;

/// The status of an answer that something failed.
pub const INTERNAL_SERVER_ERROR: u16 = 500;

/// The status of an answer that something is not there.
pub const SERVICE_UNAVAILABLE: u16 = 503;

/// What the consumer answers when asked how it is: a status and a body.
pub fn health(kafka_ok: bool, cassandra_ok: bool) -> (r: (u16, &'static str))
    ensures
        if kafka_ok && cassandra_ok {
            r.0 == OK && r.1@ == "{\"status\":\"ok\"}"@
        } else {
            r.0 == SERVICE_UNAVAILABLE && r.1@ == "{\"status\":\"unavailable\"}"@
        },
{
    if kafka_ok && cassandra_ok {
        (OK, "{\"status\":\"ok\"}")
    } else {
        (SERVICE_UNAVAILABLE, "{\"status\":\"unavailable\"}")
    }
}

/// What the producer answers when asked how it is.
pub fn producer_health() -> (r: (u16, &'static str))
    ensures
        r.0 == OK,
        r.1@ == "{\"status\":\"ok\"}"@,
{
    (OK, "{\"status\":\"ok\"}")
}

/// The kind of error that a status stands for.
pub open spec fn error_kind(status: u16) -> Option<Seq<char>> {
    if 500 <= status < 600 {
        Some("server_error"@)
    } else if 400 <= status < 500 {
        Some("client_error"@)
    } else {
        None
    }
}

/// Under which kind of error an answer is counted, if it is one.
pub fn error_label(status: u16) -> (r: Option<&'static str>)
    ensures
        match r {
            Some(label) => error_kind(status) == Some(label@),
            None => error_kind(status) is None,
        },
{
    if 500 <= status && status < 600 {
        Some("server_error")
    } else if 400 <= status && status < 500 {
        Some("client_error")
    } else {
        None
    }
}

/// The statuses are those of HTTP, and an answer counts as an error by its hundreds: as the
/// server's from 500 on, and as the client's from 400 on.
pub proof fn errors_count_by_hundreds(status: u16)
    ensures
        OK == 200 && INTERNAL_SERVER_ERROR == 500 && SERVICE_UNAVAILABLE == 503,
        error_kind(status) == Some("server_error"@) <==> status / 100 == 5,
        error_kind(status) == Some("client_error"@) <==> status / 100 == 4,
        error_kind(status) is None <==> status / 100 != 4 && status / 100 != 5,
{
    reveal_strlit("server_error");
    reveal_strlit("client_error");
    assert("server_error"@[0] == 's' && "client_error"@[0] == 'c');
}

} // verus!
