//! The decisions of the Stratum probe: the requests it sends, what it makes
//! of the pool's replies, and the summary of what the pool offers. The
//! socket, the timeouts and the printing stand outside the library.

use vstd::prelude::*;
use vstd::string::StrSliceExecFns;
use crate::config_validator::texts;
use crate::json::{get_member, json_get, json_of, json_text, json_text_of, parse_json, JsonNumber, JsonValue};
use crate::logging::formatter::{decimal, push_decimal};
use crate::text::{contains, seq_contains};

verus! {

/// What the probe does next.
#[derive(Debug, Clone, PartialEq, Eq)]
pub enum ProbeStep {
    /// Send this line (the authorization request) and read the reply.
    SendAuthorize { request: String },
    /// The probe succeeded; this is what it found out.
    Report(String),
    /// The probe failed, for this reason.
    Fail(String),
}

/// A probe step with its text as a character sequence.
pub enum ProbeView {
    SendAuthorize(Seq<char>),
    Report(Seq<char>),
    Fail(Seq<char>),
}

impl View for ProbeStep {
    type V = ProbeView;

    open spec fn view(&self) -> ProbeView {
        match self {
            ProbeStep::SendAuthorize { request } => ProbeView::SendAuthorize(request@),
            ProbeStep::Report(t) => ProbeView::Report(t@),
            ProbeStep::Fail(t) => ProbeView::Fail(t@),
        }
    }
}

/// `v` is the parameter `p`: the text `p`, or null for none.
pub open spec fn param_is(v: JsonValue, p: Option<Seq<char>>) -> bool {
    match p {
        Some(t) => match v {
            JsonValue::Str(s) => s@ == t,
            _ => false,
        },
        None => v is Null,
    }
}

/// `v` is the request object `{"id": id, "method": method, "params": params}`.
pub open spec fn request_shape(v: JsonValue, id: u64, method: Seq<char>, params: Seq<Option<Seq<char>>>) -> bool {
    match v {
        JsonValue::Object(es) => {
            &&& es@.len() == 3
            &&& es@[0].0@ == "id"@
            &&& es@[0].1 == JsonValue::Number(JsonNumber::PosInt(id))
            &&& es@[1].0@ == "method"@
            &&& param_is(es@[1].1, Some(method))
            &&& es@[2].0@ == "params"@
            &&& match es@[2].1 {
                JsonValue::Array(ps) => ps@.len() == params.len()
                    && forall|i: int| 0 <= i < ps@.len() ==> param_is(#[trigger] ps@[i], params[i]),
                _ => false,
            }
        },
        _ => false,
    }
}

/// `line` is the request `{"id": id, "method": method, "params": params}`
/// as serde_json prints it, ended by a line feed.
pub open spec fn is_request_line(line: Seq<char>, id: u64, method: Seq<char>, params: Seq<Option<Seq<char>>>) -> bool {
    exists|v: JsonValue| request_shape(v, id, method, params) && line == json_text_of(v) + "\n"@
}

/// The text value `s`.
fn text_value(s: &str) -> (r: JsonValue)
    ensures
        param_is(r, Some(s@)),
{
    JsonValue::Str(String::from_str(s))
}

/// The request line for `method` with `params`, numbered `id`.
fn request_line(id: u64, method: &str, params: Vec<JsonValue>, Ghost(expected): Ghost<Seq<Option<Seq<char>>>>) -> (r: String)
    requires
        params@.len() == expected.len(),
        forall|i: int| 0 <= i < params@.len() ==> param_is(#[trigger] params@[i], expected[i]),
    ensures
        is_request_line(r@, id, method@, expected),
{
    let mut es: Vec<(String, JsonValue)> = Vec::new();
    es.push((String::from_str("id"), JsonValue::Number(JsonNumber::PosInt(id))));
    es.push((String::from_str("method"), text_value(method)));
    es.push((String::from_str("params"), JsonValue::Array(params)));
    let v = JsonValue::Object(es);
    assert(request_shape(v, id, method@, expected));
    let mut r = json_text(&v);
    r.append("\n");
    assert(request_shape(v, id, method@, expected) && r@ == json_text_of(v) + "\n"@);
    r
}

/// The subscription request the probe sends first:
/// `{"id":1,"method":"mining.subscribe","params":["cgminer-rs/1.0.0",null]}`.
pub fn subscribe_request() -> (r: String)
    ensures
        is_request_line(r@, 1, "mining.subscribe"@, seq![Some("cgminer-rs/1.0.0"@), None]),
{
    let mut params: Vec<JsonValue> = Vec::new();
    params.push(text_value("cgminer-rs/1.0.0"));
    params.push(JsonValue::Null);
    let ghost expected: Seq<Option<Seq<char>>> = seq![Some("cgminer-rs/1.0.0"@), None];
    request_line(1, "mining.subscribe", params, Ghost(expected))
}

/// The authorization request with the worker's name and password.
fn authorize_request(username: &str, password: &str) -> (r: String)
    ensures
        is_request_line(r@, 2, "mining.authorize"@, seq![Some(username@), Some(password@)]),
{
    let mut params: Vec<JsonValue> = Vec::new();
    params.push(text_value(username));
    params.push(text_value(password));
    let ghost expected: Seq<Option<Seq<char>>> = seq![Some(username@), Some(password@)];
    request_line(2, "mining.authorize", params, Ghost(expected))
}

/// The reason given when the pool closes the connection before replying.
pub open spec fn closed_text() -> Seq<char> {
    "连接被服务器关闭"@
}

/// The reason given when a reply is not a Stratum reply.
pub open spec fn not_stratum_text() -> Seq<char> {
    "服务器响应不符合 Stratum 协议格式"@
}

/// The start of the reason given when the pool reports an error.
pub open spec fn server_error_text() -> Seq<char> {
    "服务器返回错误: "@
}

/// The finding when the pool speaks Stratum but tells nothing more.
pub open spec fn unknown_pool_text() -> Seq<char> {
    "检测到有效的 Stratum 协议，但无法确定具体矿池类型"@
}

/// A Stratum reply has an `id` and a `result` or an `error`.
pub open spec fn is_stratum_reply(v: JsonValue) -> bool {
    &&& json_get(v, "id"@) is Some
    &&& (json_get(v, "result"@) is Some || json_get(v, "error"@) is Some)
}

/// The step after the reply `v` to the subscription: a failure where it is
/// not a Stratum reply or carries an error other than null; otherwise the
/// authorization request where it has a result, and the plain finding where
/// it has none.
pub open spec fn subscribe_reply_step(v: JsonValue, username: Seq<char>, password: Seq<char>, out: ProbeView) -> bool {
    if !is_stratum_reply(v) {
        out == ProbeView::Fail(not_stratum_text())
    } else if json_get(v, "error"@) is Some && !(json_get(v, "error"@).unwrap() is Null) {
        out == ProbeView::Fail(server_error_text() + json_text_of(json_get(v, "error"@).unwrap()))
    } else if json_get(v, "result"@) is Some {
        exists|request: Seq<char>|
            is_request_line(request, 2, "mining.authorize"@, seq![Some(username), Some(password)])
                && out == ProbeView::SendAuthorize(request)
    } else {
        out == ProbeView::Report(unknown_pool_text())
    }
}

/// The step after the subscription, given the reply line (none where the
/// pool closed the connection): a reply that does not parse fails with the
/// parser's error.
pub open spec fn subscribe_step(reply: Option<Seq<char>>, username: Seq<char>, password: Seq<char>, out: ProbeView) -> bool {
    match reply {
        None => out == ProbeView::Fail(closed_text()),
        Some(line) => match json_of(line) {
            Err(e) => out == ProbeView::Fail(e),
            Ok(v) => subscribe_reply_step(v, username, password, out),
        },
    }
}

/// What the probe does with the pool's reply to its subscription request.
pub fn stratum_after_subscribe(reply_line: Option<&str>, username: &str, password: &str) -> (r: ProbeStep)
    ensures
        subscribe_step(
            match reply_line {
                Some(l) => Some(l@),
                None => None,
            },
            username@,
            password@,
            r@,
        ),
{
    let line = match reply_line {
        None => return ProbeStep::Fail(String::from_str("连接被服务器关闭")),
        Some(l) => l,
    };
    let v = match parse_json(line) {
        Err(e) => return ProbeStep::Fail(e),
        Ok(v) => v,
    };
    let id = get_member(&v, "id");
    let result = get_member(&v, "result");
    let error = get_member(&v, "error");
    if id.is_none() || (result.is_none() && error.is_none()) {
        return ProbeStep::Fail(String::from_str("服务器响应不符合 Stratum 协议格式"));
    }
    match error {
        Some(JsonValue::Null) => {},
        Some(e) => {
            let mut m = String::from_str("服务器返回错误: ");
            let t = json_text(e);
            m.append(t.as_str());
            return ProbeStep::Fail(m);
        },
        None => {},
    }
    if result.is_some() {
        let request = authorize_request(username, password);
        let r = ProbeStep::SendAuthorize { request };
        assert(is_request_line(request@, 2, "mining.authorize"@, seq![Some(username@), Some(password@)])
            && r@ == ProbeView::SendAuthorize(request@));
        r
    } else {
        ProbeStep::Report(String::from_str("检测到有效的 Stratum 协议，但无法确定具体矿池类型"))
    }
}

/// The step after the authorization, given the subscription reply line and
/// the authorization reply line (none where the pool sent nothing more).
pub open spec fn authorize_step(subscribe: Seq<char>, reply: Option<Seq<char>>) -> ProbeView {
    match reply {
        None => ProbeView::Report(unknown_pool_text()),
        Some(line) => match json_of(line) {
            Err(e) => ProbeView::Fail(e),
            Ok(t) => match json_of(subscribe) {
                Ok(s) => ProbeView::Report(pool_analysis(s, t)),
                Err(e) => ProbeView::Fail(e),
            },
        },
    }
}

/// What the probe reports once the pool answered the authorization.
pub fn stratum_after_authorize(subscribe_line: &str, reply_line: Option<&str>) -> (r: ProbeStep)
    ensures
        r@ == authorize_step(
            subscribe_line@,
            match reply_line {
                Some(l) => Some(l@),
                None => None,
            },
        ),
{
    let line = match reply_line {
        None => return ProbeStep::Report(String::from_str("检测到有效的 Stratum 协议，但无法确定具体矿池类型")),
        Some(l) => l,
    };
    let t = match parse_json(line) {
        Err(e) => return ProbeStep::Fail(e),
        Ok(t) => t,
    };
    match parse_json(subscribe_line) {
        Err(e) => ProbeStep::Fail(e),
        Ok(s) => ProbeStep::Report(analyze_pool_response(&s, &t)),
    }
}

/// The texts joined, `sep` between each two.
pub open spec fn join_with(lines: Seq<Seq<char>>, sep: Seq<char>) -> Seq<char>
    decreases lines.len(),
{
    if lines.len() == 0 {
        Seq::empty()
    } else if lines.len() == 1 {
        lines[0]
    } else {
        join_with(lines.drop_last(), sep) + sep + lines.last()
    }
}

/// The method a subscription detail names, if it is a list whose first
/// entry is a text.
pub open spec fn method_line(detail: JsonValue) -> Seq<Seq<char>> {
    match detail {
        JsonValue::Array(m) => if m@.len() >= 1 {
            match m@[0] {
                JsonValue::Str(name) => seq!["支持方法: "@ + name@],
                _ => Seq::empty(),
            }
        } else {
            Seq::empty()
        },
        _ => Seq::empty(),
    }
}

/// The methods named by the first `n` subscription details.
pub open spec fn method_lines_upto(details: Seq<JsonValue>, n: nat) -> Seq<Seq<char>>
    decreases n,
{
    if n == 0 || n > details.len() {
        Seq::empty()
    } else {
        method_lines_upto(details, (n - 1) as nat) + method_line(details[n - 1])
    }
}

/// The methods named by a list of subscription details.
pub open spec fn method_lines(d: JsonValue) -> Seq<Seq<char>> {
    match d {
        JsonValue::Array(details) => method_lines_upto(details@, details@.len()),
        _ => Seq::empty(),
    }
}

/// The first extra nonce, if it is a text.
pub open spec fn nonce1_lines(x: JsonValue) -> Seq<Seq<char>> {
    match x {
        JsonValue::Str(e) => seq!["Extra Nonce 1: "@ + e@],
        _ => Seq::empty(),
    }
}

/// The size of the second extra nonce, if it is a non-negative integer.
pub open spec fn nonce2_lines(x: JsonValue) -> Seq<Seq<char>> {
    match x {
        JsonValue::Number(JsonNumber::PosInt(n)) => seq!["Extra Nonce 2 大小: "@ + decimal(n as nat)],
        _ => Seq::empty(),
    }
}

/// What the subscription result tells, where it is a list of at least two
/// entries: the methods of its first entry, the first extra nonce and, with
/// a third entry, the size of the second.
pub open spec fn subscribe_lines(s: JsonValue) -> Seq<Seq<char>> {
    match json_get(s, "result"@) {
        Some(JsonValue::Array(arr)) => if arr@.len() >= 2 {
            method_lines(arr@[0]) + nonce1_lines(arr@[1]) + if arr@.len() >= 3 {
                nonce2_lines(arr@[2])
            } else {
                Seq::empty()
            }
        } else {
            Seq::empty()
        },
        _ => Seq::empty(),
    }
}

/// Whether the authorization succeeded, where the reply has a result.
pub open spec fn auth_lines(t: JsonValue) -> Seq<Seq<char>> {
    match json_get(t, "result"@) {
        Some(r) => if r == JsonValue::Bool(true) {
            seq!["认证成功"@]
        } else {
            seq!["认证失败"@]
        },
        None => Seq::empty(),
    }
}

/// The F2Pool mark, where the two replies as serde_json prints them, joined
/// by a space, mention `f2pool` or `F2Pool`.
pub open spec fn f2pool_lines(s: JsonValue, t: JsonValue) -> Seq<Seq<char>> {
    let text = json_text_of(s) + " "@ + json_text_of(t);
    if seq_contains(text, "f2pool"@) || seq_contains(text, "F2Pool"@) {
        seq!["🐟 检测到 F2Pool 矿池特征"@]
    } else {
        Seq::empty()
    }
}

/// The findings on a pool, in order.
pub open spec fn pool_lines(s: JsonValue, t: JsonValue) -> Seq<Seq<char>> {
    subscribe_lines(s) + auth_lines(t) + f2pool_lines(s, t)
}

/// The findings joined by commas, or the plain Stratum finding where there
/// are none.
pub open spec fn pool_analysis(s: JsonValue, t: JsonValue) -> Seq<char> {
    let lines = pool_lines(s, t);
    if lines.len() == 0 {
        "检测到标准 Stratum 协议"@
    } else {
        join_with(lines, ", "@)
    }
}

/// Appends `line` to `info`.
fn push_line(info: &mut Vec<String>, line: String)
    ensures
        texts(final(info)@) == texts(old(info)@).push(line@),
{
    info.push(line);
    assert(texts(info@) =~= texts(old(info)@).push(line@));
}

/// Appends the methods named by the subscription details `d`.
fn push_method_lines(info: &mut Vec<String>, d: &JsonValue)
    ensures
        texts(final(info)@) == texts(old(info)@) + method_lines(*d),
{
    match d {
        JsonValue::Array(details) => {
            let ghost start = texts(info@);
            let mut i: usize = 0;
            assert(texts(info@) =~= start + method_lines_upto(details@, 0));
            while i < details.len()
                invariant
                    i <= details@.len(),
                    texts(info@) == start + method_lines_upto(details@, i as nat),
                decreases details@.len() - i,
            {
                let ghost before = texts(info@);
                match &details[i] {
                    JsonValue::Array(m) => {
                        if m.len() >= 1 {
                            match &m[0] {
                                JsonValue::Str(name) => {
                                    let mut line = String::from_str("支持方法: ");
                                    line.append(name.as_str());
                                    push_line(info, line);
                                },
                                _ => {},
                            }
                        }
                    },
                    _ => {},
                }
                assert(method_lines_upto(details@, (i + 1) as nat)
                    == method_lines_upto(details@, i as nat) + method_line(details@[i as int]));
                assert(texts(info@) =~= before + method_line(details@[i as int]));
                assert(texts(info@) =~= start + method_lines_upto(details@, (i + 1) as nat));
                i = i + 1;
            }
        },
        _ => {
            assert(texts(info@) =~= texts(old(info)@) + method_lines(*d));
        },
    }
}

/// Appends what the subscription reply `s` tells.
fn push_subscribe_lines(info: &mut Vec<String>, s: &JsonValue)
    ensures
        texts(final(info)@) == texts(old(info)@) + subscribe_lines(*s),
{
    match get_member(s, "result") {
        Some(JsonValue::Array(arr)) => {
            if arr.len() >= 2 {
                push_method_lines(info, &arr[0]);
                let ghost after_methods = texts(info@);
                match &arr[1] {
                    JsonValue::Str(e) => {
                        let mut line = String::from_str("Extra Nonce 1: ");
                        line.append(e.as_str());
                        push_line(info, line);
                    },
                    _ => {},
                }
                assert(texts(info@) =~= after_methods + nonce1_lines(arr@[1]));
                let ghost after_nonce1 = texts(info@);
                if arr.len() >= 3 {
                    match &arr[2] {
                        JsonValue::Number(JsonNumber::PosInt(n)) => {
                            let mut line = String::from_str("Extra Nonce 2 大小: ");
                            push_decimal(&mut line, *n);
                            push_line(info, line);
                        },
                        _ => {},
                    }
                    assert(texts(info@) =~= after_nonce1 + nonce2_lines(arr@[2]));
                }
                assert(texts(info@) =~= texts(old(info)@) + subscribe_lines(*s));
            } else {
                assert(texts(info@) =~= texts(old(info)@) + subscribe_lines(*s));
            }
        },
        _ => {
            assert(texts(info@) =~= texts(old(info)@) + subscribe_lines(*s));
        },
    }
}

/// The texts of `info` joined by commas.
fn join_lines(info: &Vec<String>) -> (r: String)
    ensures
        r@ == join_with(texts(info@), ", "@),
{
    let mut out = String::new();
    let mut i: usize = 0;
    assert(texts(info@).take(0) =~= Seq::<Seq<char>>::empty());
    while i < info.len()
        invariant
            i <= info@.len(),
            out@ == join_with(texts(info@).take(i as int), ", "@),
        decreases info@.len() - i,
    {
        let ghost prev = texts(info@).take(i as int);
        let ghost next = texts(info@).take(i + 1);
        assert(next.drop_last() =~= prev);
        assert(next.last() == info@[i as int]@);
        if i > 0 {
            out.append(", ");
        }
        out.append(info[i].as_str());
        proof {
            if i == 0 {
                assert(next.len() == 1);
                assert(out@ =~= next[0]);
            }
        }
        i = i + 1;
    }
    assert(texts(info@).take(info@.len() as int) =~= texts(info@));
    out
}

/// What the replies to the subscription (`subscribe`) and to the
/// authorization (`auth`) tell of the pool: the methods it supports, the
/// extra nonces, whether the worker was accepted and whether it looks like
/// F2Pool, joined by commas; the plain Stratum finding where there is
/// nothing to tell.
pub fn analyze_pool_response(subscribe: &JsonValue, auth: &JsonValue) -> (r: String)
    ensures
        r@ == pool_analysis(*subscribe, *auth),
{
    let mut info: Vec<String> = Vec::new();
    assert(texts(info@) =~= Seq::<Seq<char>>::empty());
    push_subscribe_lines(&mut info, subscribe);
    let ghost after_subscribe = texts(info@);
    match get_member(auth, "result") {
        Some(JsonValue::Bool(true)) => push_line(&mut info, String::from_str("认证成功")),
        Some(_) => push_line(&mut info, String::from_str("认证失败")),
        None => {},
    }
    assert(texts(info@) =~= after_subscribe + auth_lines(*auth));
    let ghost after_auth = texts(info@);
    let mut both = json_text(subscribe);
    both.append(" ");
    let auth_text = json_text(auth);
    both.append(auth_text.as_str());
    if contains(both.as_str(), "f2pool") || contains(both.as_str(), "F2Pool") {
        push_line(&mut info, String::from_str("🐟 检测到 F2Pool 矿池特征"));
    }
    assert(texts(info@) =~= after_auth + f2pool_lines(*subscribe, *auth));
    assert(texts(info@) =~= pool_lines(*subscribe, *auth));
    if info.len() == 0 {
        String::from_str("检测到标准 Stratum 协议")
    } else {
        join_lines(&info)
    }
}

} // verus!
