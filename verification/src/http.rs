use vstd::prelude::*;
use crate::matchmaker::{hex_digit, hex_digit_char};
use crate::text::push_char;

verus! {

/// What a new connection asks for, judged from its first bytes.
#[derive(Debug, Clone, Copy, PartialEq, Eq, Structural)]
pub enum Route {
    /// `GET /health`: a liveness probe.
    Health,
    /// `GET /api/stats` or `GET /stats`: the lobby statistics.
    Stats,
    /// Anything else: a game client opening its socket.
    GameSocket,
}

/// `s` begins with `p`.
pub open spec fn starts_with(s: Seq<char>, p: Seq<char>) -> bool {
    p.len() <= s.len() && s.subrange(0, p.len() as int) == p
}

/// The route of a request that begins with `head`.
pub open spec fn route_of(head: Seq<char>) -> Route {
    if starts_with(head, "GET /health"@) {
        Route::Health
    } else if starts_with(head, "GET /api/stats"@) || starts_with(head, "GET /stats"@) {
        Route::Stats
    } else {
        Route::GameSocket
    }
}

/// Decimal digits of `n`, most significant first.
pub open spec fn decimal(n: nat) -> Seq<char>
    decreases n,
{
    if n < 10 {
        seq![hex_digit(n as int)]
    } else {
        decimal(n / 10).push(hex_digit((n % 10) as int))
    }
}

/// The number that the decimal digits `s` stand for (most significant first).
pub open spec fn digits_value(s: Seq<char>) -> nat
    decreases s.len(),
{
    if s.len() == 0 {
        0
    } else {
        digits_value(s.drop_last()) * 10 + (s.last() as nat - '0' as nat) as nat
    }
}

/// The character of a decimal digit stands for that digit.
proof fn lemma_digit_value(d: int)
    requires
        0 <= d < 10,
    ensures
        '0' <= hex_digit(d) <= '9',
        hex_digit(d) as nat - '0' as nat == d,
{
}

/// Decimal digits read back give the number they were written for; they are ASCII digits, at
/// least one, with no leading zero unless the number is zero.
pub proof fn law_decimal_round_trip(n: nat)
    ensures
        digits_value(decimal(n)) == n,
        decimal(n).len() >= 1,
        forall|k: int| 0 <= k < decimal(n).len() ==> '0' <= #[trigger] decimal(n)[k] <= '9',
        decimal(n)[0] == '0' ==> n == 0,
    decreases n,
{
    lemma_digit_value((n % 10) as int);
    if n < 10 {
        assert(n % 10 == n);
        assert(decimal(n).drop_last() =~= Seq::<char>::empty());
        assert(digits_value(decimal(n)) == digits_value(Seq::<char>::empty()) * 10 + (
        hex_digit(n as int) as nat - '0' as nat) as nat);
    } else {
        law_decimal_round_trip(n / 10);
        let d = decimal(n);
        assert(d.drop_last() =~= decimal(n / 10));
        assert(n == (n / 10) * 10 + n % 10) by (nonlinear_arith);
        assert(d.last() == hex_digit((n % 10) as int));
        assert(digits_value(d) == digits_value(decimal(n / 10)) * 10 + (hex_digit((n % 10) as int) as nat
            - '0' as nat) as nat);
        assert forall|k: int| 0 <= k < d.len() implies '0' <= #[trigger] d[k] <= '9' by {
            if k < d.len() - 1 {
                assert(d[k] == decimal(n / 10)[k]);
            }
        }
        assert(d[0] == decimal(n / 10)[0]);
    }
}

/// The statistics document: queue length, running 1v1 and solo matches (each out of 10) and
/// players online.
pub open spec fn stats_json(queue: u32, active_1v1: u32, active_solo: u32, online: u32) -> Seq<char> {
    "{\"queue_1v1\":"@ + decimal(queue as nat) + ",\"active_1v1_matches\":"@ + decimal(
        active_1v1 as nat,
    ) + ",\"max_1v1_matches\":10,\"active_solo_matches\":"@ + decimal(active_solo as nat)
        + ",\"max_solo_matches\":10,\"total_online\":"@ + decimal(online as nat)
        + ",\"status\":\"online\"}"@
}

/// The health document.
pub open spec fn health_json() -> Seq<char> {
    "{\"status\":\"ok\"}"@
}

/// A `200 OK` response that carries the JSON document `body` and closes the connection.
pub open spec fn ok_json_response(body: Seq<char>) -> Seq<char> {
    "HTTP/1.1 200 OK\r\nContent-Type: application/json\r\nAccess-Control-Allow-Origin: *\r\nConnection: close\r\nContent-Length: "@
        + decimal(body.len()) + "\r\n\r\n"@ + body
}

/// Whether `s` begins with `p`.
fn has_prefix(s: &str, p: &str) -> (res: bool)
    ensures
        res == starts_with(s@, p@),
{
    let n = p.unicode_len();
    if n > s.unicode_len() {
        return false;
    }
    let mut i: usize = 0;
    while i < n
        invariant
            n == p@.len(),
            n <= s@.len(),
            i <= n,
            forall|k: int| 0 <= k < i ==> s@[k] == p@[k],
        decreases n - i,
    {
        if s.get_char(i) != p.get_char(i) {
            proof {
                assert(s@.subrange(0, n as int)[i as int] != p@[i as int]);
            }
            return false;
        }
        i = i + 1;
    }
    proof {
        assert(s@.subrange(0, n as int) =~= p@);
    }
    true
}

/// Routes a connection by the text of its first bytes.
pub fn route_request(head: &str) -> (res: Route)
    ensures
        res == route_of(head@),
{
    if has_prefix(head, "GET /health") {
        Route::Health
    } else if has_prefix(head, "GET /api/stats") || has_prefix(head, "GET /stats") {
        Route::Stats
    } else {
        Route::GameSocket
    }
}

/// Appends `t` to `s`.
fn push_text(s: &mut String, t: &str)
    ensures
        final(s)@ == old(s)@ + t@,
{
    let n = t.unicode_len();
    let mut i: usize = 0;
    while i < n
        invariant
            n == t@.len(),
            i <= n,
            s@ == old(s)@ + t@.subrange(0, i as int),
        decreases n - i,
    {
        let c = t.get_char(i);
        push_char(s, c);
        proof {
            assert(t@.subrange(0, i + 1) =~= t@.subrange(0, i as int).push(c));
        }
        i = i + 1;
    }
    proof {
        assert(t@.subrange(0, n as int) =~= t@);
    }
}

/// Appends the decimal digits of `n`.
fn push_decimal(s: &mut String, n: usize)
    ensures
        final(s)@ == old(s)@ + decimal(n as nat),
    decreases n,
{
    if n >= 10 {
        push_decimal(s, n / 10);
    }
    let d = (n % 10) as u32;
    push_char(s, hex_digit_char(d));
    proof {
        if n >= 10 {
            assert(decimal(n as nat) == decimal((n / 10) as nat).push(hex_digit((n % 10) as int)));
        }
    }
}

/// The statistics document for the given counts.
pub fn stats_body(queue: u32, active_1v1: u32, active_solo: u32, online: u32) -> (res: String)
    ensures
        res@ == stats_json(queue, active_1v1, active_solo, online),
{
    let mut s = String::new();
    push_text(&mut s, "{\"queue_1v1\":");
    push_decimal(&mut s, queue as usize);
    push_text(&mut s, ",\"active_1v1_matches\":");
    push_decimal(&mut s, active_1v1 as usize);
    push_text(&mut s, ",\"max_1v1_matches\":10,\"active_solo_matches\":");
    push_decimal(&mut s, active_solo as usize);
    push_text(&mut s, ",\"max_solo_matches\":10,\"total_online\":");
    push_decimal(&mut s, online as usize);
    push_text(&mut s, ",\"status\":\"online\"}");
    s
}

/// The health document.
pub fn health_body() -> (res: String)
    ensures
        res@ == health_json(),
{
    let mut s = String::new();
    push_text(&mut s, "{\"status\":\"ok\"}");
    s
}

/// The full response for a JSON document.
pub fn ok_json(body: &str) -> (res: String)
    ensures
        res@ == ok_json_response(body@),
{
    let mut s = String::new();
    push_text(
        &mut s,
        "HTTP/1.1 200 OK\r\nContent-Type: application/json\r\nAccess-Control-Allow-Origin: *\r\nConnection: close\r\nContent-Length: ",
    );
    push_decimal(&mut s, body.unicode_len());
    push_text(&mut s, "\r\n\r\n");
    push_text(&mut s, body);
    s
}

} // verus!
