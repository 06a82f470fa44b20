use mochiclaw::weixin::{
    check_login_failed, check_login_request, login_from_qr, login_start, send_plan, send_succeeded, typing_status,
    typing_step, LoginStart, SendPlan, TypingStep, QR_CODE_URL,
};

#[test]
fn test_login_with_configured_token_is_done() {
    match login_start("tok", "https://base", "", 7) {
        LoginStart::Done(o) => {
            assert_eq!(o.status, "logged_in");
            assert_eq!(o.token, Some("tok".to_string()));
            assert_eq!(o.base_url, Some("https://base".to_string()));
        }
        LoginStart::FetchQr(_) => panic!("a configured token needs no QR code"),
    }
    match login_start("", "", "tag", 7) {
        LoginStart::FetchQr(e) => {
            assert_eq!((e.method.as_str(), e.url.as_str(), e.timeout_ms), ("GET", QR_CODE_URL, 10000));
            assert_eq!(e.headers.get("SKRouteTag"), Some(&"tag".to_string()));
            assert!(e.headers.get("Authorization").is_none());
            assert_eq!(e.headers.get("X-WECHAT-UIN"), Some(&"Nw==".to_string()));
        }
        LoginStart::Done(_) => panic!("no token means a QR login"),
    }
}

#[test]
fn test_login_from_qr_answers() {
    let failed = login_from_qr(false, Some("timeout".to_string()), None);
    assert_eq!((failed.status.as_str(), failed.error), ("error", Some("timeout".to_string())));
    let ok = login_from_qr(true, None, Some(r#"{"qrcode":"abc","qrcode_img_content":"https://qr/abc"}"#.to_string()));
    assert_eq!(ok.status, "need_qr");
    assert_eq!(ok.qr_url, Some("https://qr/abc".to_string()));
    assert_eq!(ok.temp_token, Some("abc".to_string()));
    let id_only = login_from_qr(true, None, Some(r#"{"qrcode":"abc"}"#.to_string()));
    assert_eq!(id_only.qr_url, Some("abc".to_string()));
    let bad = login_from_qr(true, None, Some("nope".to_string()));
    assert_eq!(bad.status, "error");
    assert!(bad.error.unwrap().starts_with("failed to parse QR response: "));
    let empty = login_from_qr(true, None, None);
    assert_eq!((empty.qr_url, empty.temp_token), (Some(String::new()), Some(String::new())));
}

#[test]
fn test_check_login_and_typing_and_send() {
    let r = check_login_request("abc", "", 1);
    assert_eq!(r.url, "https://ilinkai.weixin.qq.com/ilink/bot/get_qrcode_status?qrcode=abc");
    assert_eq!((r.method.as_str(), r.timeout_ms), ("GET", 35000));
    let f = check_login_failed(Some("down".to_string()));
    assert_eq!((f.status.as_str(), f.error), ("error", Some("down".to_string())));
    assert_eq!((typing_status(true), typing_status(false)), (1, 2));
    assert!(matches!(typing_step(Some("t".to_string())), TypingStep::Send(t) if t == "t"));
    assert!(matches!(typing_step(None), TypingStep::FetchTicket));
    let none = send_plan(None, Some("t".to_string()));
    assert!(matches!(none, SendPlan::NoContext));
    assert!(!send_succeeded(&none, true));
    let plan = send_plan(Some("ctx".to_string()), Some("t".to_string()));
    assert!(matches!(&plan, SendPlan::Send { stop_typing: Some(t), context_token } if t == "t" && context_token == "ctx"));
    assert!(send_succeeded(&plan, true));
    assert!(!send_succeeded(&plan, false));
}
