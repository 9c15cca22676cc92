use cgminer_rs::json::{JsonNumber, JsonValue};
use cgminer_rs::stratum_probe::{analyze_pool_response, stratum_after_authorize, stratum_after_subscribe, subscribe_request, ProbeStep};

const UNKNOWN: &str = "检测到有效的 Stratum 协议，但无法确定具体矿池类型";

#[test]
fn subscription_request_line() {
    assert_eq!(subscribe_request(), "{\"id\":1,\"method\":\"mining.subscribe\",\"params\":[\"cgminer-rs/1.0.0\",null]}\n");
}

#[test]
fn subscription_reply_decisions() {
    assert_eq!(stratum_after_subscribe(None, "w", "x"), ProbeStep::Fail("连接被服务器关闭".to_string()));
    match stratum_after_subscribe(Some("not json\n"), "w", "x") {
        ProbeStep::Fail(e) => assert!(!e.is_empty()),
        other => panic!("unexpected {:?}", other),
    }
    assert_eq!(
        stratum_after_subscribe(Some("{\"result\":true}\n"), "w", "x"),
        ProbeStep::Fail("服务器响应不符合 Stratum 协议格式".to_string())
    );
    assert_eq!(
        stratum_after_subscribe(Some("{\"id\":1,\"result\":null,\"error\":{\"code\":20}}\n"), "w", "x"),
        ProbeStep::Fail("服务器返回错误: {\"code\":20}".to_string())
    );
    assert_eq!(
        stratum_after_subscribe(Some("{\"id\":1,\"result\":[[],\"ab\",4],\"error\":null}\n"), "worker.1", "p\"w"),
        ProbeStep::SendAuthorize {
            request: "{\"id\":2,\"method\":\"mining.authorize\",\"params\":[\"worker.1\",\"p\\\"w\"]}\n".to_string()
        }
    );
    assert_eq!(stratum_after_subscribe(Some("{\"id\":1,\"error\":null}"), "w", "x"), ProbeStep::Report(UNKNOWN.to_string()));
}

#[test]
fn authorization_reply_analysis() {
    let sub = "{\"id\":1,\"result\":[[[\"mining.set_difficulty\",\"1\"],[\"mining.notify\",\"2\"],7],\"f2pool08\",4],\"error\":null}";
    assert_eq!(stratum_after_authorize(sub, None), ProbeStep::Report(UNKNOWN.to_string()));
    assert_eq!(
        stratum_after_authorize(sub, Some("{\"id\":2,\"result\":true,\"error\":null}\n")),
        ProbeStep::Report(
            "支持方法: mining.set_difficulty, 支持方法: mining.notify, Extra Nonce 1: f2pool08, Extra Nonce 2 大小: 4, 认证成功, 🐟 检测到 F2Pool 矿池特征"
                .to_string()
        )
    );
    assert_eq!(
        stratum_after_authorize("{\"id\":1,\"result\":[[],\"ab\"]}", Some("{\"id\":2,\"result\":false}")),
        ProbeStep::Report("Extra Nonce 1: ab, 认证失败".to_string())
    );
    assert_eq!(
        stratum_after_authorize("{\"id\":1,\"result\":true}", Some("{\"id\":2}")),
        ProbeStep::Report("检测到标准 Stratum 协议".to_string())
    );
    match stratum_after_authorize(sub, Some("{")) {
        ProbeStep::Fail(e) => assert!(!e.is_empty()),
        other => panic!("unexpected {:?}", other),
    }
}

#[test]
fn analysis_of_built_values() {
    let sub = JsonValue::Object(vec![(
        "result".to_string(),
        JsonValue::Array(vec![
            JsonValue::Array(vec![]),
            JsonValue::Str("e1".to_string()),
            JsonValue::Number(JsonNumber::NegInt(-4)),
        ]),
    )]);
    let auth = JsonValue::Object(vec![("result".to_string(), JsonValue::Str("F2Pool".to_string()))]);
    assert_eq!(analyze_pool_response(&sub, &auth), "Extra Nonce 1: e1, 认证失败, 🐟 检测到 F2Pool 矿池特征");
}
