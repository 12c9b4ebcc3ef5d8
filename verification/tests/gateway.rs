use extrema_infra::arch::market_assets::exchange::prelude::HyperliquidAuth;
use queue_aware_smdp::arch::action_gateway::{
    ActionContext, ActionGateway, ActionKind, ActionSigner, DispatchTimes, GatewayError,
    PlaceOutcome, cancel_succeeded, parse_post_frame, place_outcome, sent_action,
};
use queue_aware_smdp::arch::execution_probe_module::state::ProbeSide;
use queue_aware_smdp::arch::execution_probe_module::utils::{make_cloid, sha256_hex};
use queue_aware_smdp::arch::schema::empty_envelope;
use queue_aware_smdp::arch::signing::{
    AssetError, InstrumentPlace, Signature, post_message, resolve_asset_id,
};
use queue_aware_smdp::json::{Json, decode};

fn frame(text: &str) -> Json {
    decode(text).unwrap()
}

fn answer(payload: &str) -> Json {
    frame(&format!(
        r#"{{"channel":"post","data":{{"id":3,"response":{{"payload":{payload}}}}}}}"#
    ))
}

fn statuses(list: &str) -> Json {
    answer(&format!(r#"{{"status":"ok","response":{{"data":{{"statuses":{list}}}}}}}"#))
}

fn context() -> ActionContext {
    ActionContext {
        action_id: "action-1".into(),
        probe_id: "probe-1".into(),
        decision_id: "decision-1".into(),
        intent_id: "place-1".into(),
        cloid: Some(make_cloid("run", 1)),
        oid: None,
        side: Some(ProbeSide::Bid),
        price: Some("29500.0".into()),
        size: Some("0.0005".into()),
        remaining_size: None,
    }
}

fn signer(vault_address: Option<&str>) -> ActionSigner {
    let key = "11".repeat(32);
    ActionSigner {
        auth: HyperliquidAuth {
            owner_address: "0xowner".into(),
            agent_private_key: key,
            owner_private_key: None,
            vault_address: None,
        },
        owner_address: "0xowner".into(),
        vault_address: vault_address.map(str::to_string),
    }
}

#[test]
fn parses_resting_and_cancel_responses() {
    let resting = frame(
        r#"{
            "channel":"post","data":{"id":1,"response":{"payload":{"status":"ok","response":{"data":{"statuses":[{"resting":{"oid":42}}]}}}}}
        }"#,
    );
    let canceled = frame(
        r#"{
            "channel":"post","data":{"id":2,"response":{"payload":{"status":"ok","response":{"data":{"statuses":["success"]}}}}}
        }"#,
    );
    assert_eq!(place_outcome(&resting).unwrap(), PlaceOutcome::Resting(42));
    assert!(cancel_succeeded(&canceled).is_ok());
}

#[test]
fn answers_name_their_request() {
    let found = statuses("[]");
    match parse_post_frame(&found) {
        Ok(Some((id, _))) => assert_eq!(id, 3),
        other => panic!("unexpected {other:?}"),
    }
    assert!(matches!(parse_post_frame(&frame(r#"{"channel":"pong"}"#)), Ok(None)));
    let nameless = frame(r#"{"channel":"post","data":{}}"#);
    let error = parse_post_frame(&nameless).unwrap_err();
    assert!(matches!(error, GatewayError::ResponseWithoutId));
    assert_eq!(error.message(), "HL post response missing data.id");
}

#[test]
fn placements_are_read_from_answers() {
    assert_eq!(
        place_outcome(&statuses(r#"[{"filled":{"oid":"77"}}]"#)).unwrap(),
        PlaceOutcome::Filled(77)
    );
    assert_eq!(
        place_outcome(&statuses(r#"[{"error":"no margin"}]"#)).unwrap(),
        PlaceOutcome::Rejected("no margin".into())
    );
    assert_eq!(
        place_outcome(&statuses("[]")).unwrap_err().message(),
        "HL place response has no status"
    );
    assert_eq!(
        place_outcome(&statuses(r#"[{"b":1,"a":[true,null]}]"#)).unwrap_err().message(),
        r#"unexpected HL place response: {"a":[true,null],"b":1}"#
    );
    assert_eq!(
        place_outcome(&answer(r#"{"status":"err"}"#)).unwrap_err().message(),
        r#"HL action response not ok: {"status":"err"}"#
    );
    assert_eq!(
        place_outcome(&answer(r#"{"status":"ok"}"#)).unwrap_err().message(),
        "HL action response missing statuses"
    );
    assert_eq!(
        place_outcome(&frame("{}")).unwrap_err().message(),
        "HL post response missing payload"
    );
}

#[test]
fn cancellations_are_read_from_answers() {
    assert_eq!(
        cancel_succeeded(&statuses("[]")).unwrap_err().message(),
        "HL cancel response has no status"
    );
    assert_eq!(
        cancel_succeeded(&statuses(r#"[{"error":"already filled"}]"#)).unwrap_err().message(),
        "already filled"
    );
    assert_eq!(
        cancel_succeeded(&statuses(r#"["failure"]"#)).unwrap_err().message(),
        r#"unexpected HL cancel response: "failure""#
    );
}

#[test]
fn requests_and_nonces_rise() {
    let mut gateway = ActionGateway::new(110_000);
    assert_eq!(gateway.asset_id(), 110_000);
    assert_eq!(gateway.begin_request(500), (1, 500));
    assert_eq!(gateway.begin_request(500), (2, 501));
    assert_eq!(gateway.begin_request(400), (3, 502));
    assert_eq!(gateway.begin_request(900), (4, 900));
}

#[test]
fn orders_need_side_price_and_size() {
    let gateway = ActionGateway::new(110_000);
    assert!(gateway.place_alo(&context()).is_ok());
    assert!(gateway.flatten_ioc(&context()).is_ok());
    let mut lacking = context();
    lacking.size = None;
    assert_eq!(gateway.place_alo(&lacking).unwrap_err().message(), "place action requires size");
    assert_eq!(gateway.flatten_ioc(&lacking).unwrap_err().message(), "IOC action requires size");
    lacking.price = None;
    assert_eq!(gateway.place_alo(&lacking).unwrap_err().message(), "place action requires price");
    assert_eq!(gateway.flatten_ioc(&lacking).unwrap_err().message(), "IOC action requires price");
    lacking.side = None;
    assert_eq!(gateway.place_alo(&lacking).unwrap_err().message(), "place action requires side");
    assert_eq!(gateway.flatten_ioc(&lacking).unwrap_err().message(), "IOC action requires side");
    let mut odd = context();
    odd.cloid = Some("probe".into());
    let refused = gateway.place_alo(&odd).unwrap_err();
    assert!(matches!(refused, GatewayError::OrderRefused(_)));
    assert!(refused.message().contains("cloid"));
    odd.cloid = None;
    assert!(gateway.place_alo(&odd).is_ok());
}

#[test]
fn orders_are_signed_and_posted() {
    let gateway = ActionGateway::new(110_000);
    let signer = signer(None);
    let order = gateway.place_alo(&context()).unwrap();
    let message = signer.signed_order(7, &order, 1_000).unwrap();
    let expected = format!(
        r#"{{"method":"post","id":7,"request":{{"type":"action","payload":{{"action":{{"type":"order","orders":[{{"a":110000,"b":true,"p":"29500","s":"0.0005","r":false,"t":{{"limit":{{"tif":"Alo"}}}},"c":"{}"}}],"grouping":"na"}},"nonce":1000,"signature":{{"r":"0x"#,
        make_cloid("run", 1)
    );
    assert!(message.starts_with(&expected), "{message}");
    assert!(message.ends_with("}}}}"));
    assert_eq!(message, signer.signed_order(7, &order, 1_000).unwrap());
    assert_ne!(message, signer.signed_order(7, &order, 1_001).unwrap());
    let payload = decode(&message).unwrap();
    let inner = payload.follow2("request", "payload").unwrap();
    let signature = inner.get("signature").unwrap();
    assert_eq!(signature.get_str("r").unwrap().len(), signature.get_str("r").unwrap().trim().len());
    assert!(signature.get_str("s").unwrap().starts_with("0x"));
    assert!(inner.get("vaultAddress").is_none());

    let flatten = gateway.flatten_ioc(&context()).unwrap();
    let posted = signer.signed_order(8, &flatten, 1_000).unwrap();
    assert!(posted.contains(r#""r":true,"t":{"limit":{"tif":"Ioc"}}"#));
}

#[test]
fn cancellations_are_signed_and_posted() {
    let vault = "0x00000000000000000000000000000000000000aa";
    let owned = signer(Some(vault));
    assert_eq!(owned.account_address(), vault);
    assert_eq!(signer(None).account_address(), "0xowner");
    let message = owned.signed_cancel(9, 110_000, 42, 5).unwrap();
    assert!(message.starts_with(
        r#"{"method":"post","id":9,"request":{"type":"action","payload":{"action":{"type":"cancel","cancels":[{"a":110000,"o":42}]},"nonce":5,"signature":{"r":"0x"#
    ));
    assert!(message.ends_with(&format!(r#"}},"vaultAddress":"{vault}"}}}}}}"#)));
    let bad = signer(Some("nowhere"));
    assert!(matches!(bad.signed_cancel(9, 110_000, 42, 5), Err(GatewayError::NotSigned(_))));
}

#[test]
fn posted_texts_are_escaped() {
    let signature = Signature { r: "a".into(), s: "b".into(), v: 27 };
    assert_eq!(
        post_message(1, "{}", 2, &signature, &Some("x\"y".into())),
        r#"{"method":"post","id":1,"request":{"type":"action","payload":{"action":{},"nonce":2,"signature":{"r":"a","s":"b","v":27},"vaultAddress":"x\"y"}}}"#
    );
}

#[test]
fn sent_actions_keep_what_was_sent() {
    let envelope = empty_envelope("run", "host", 1, "commit", "e-1".into(), "action", 10, 11);
    let times = DispatchTimes {
        sign_start_ns: 1,
        sign_end_ns: 2,
        command_enqueue_ns: 3,
        socket_write_ns: 4,
    };
    let sent = sent_action(envelope, context(), ActionKind::Ioc, 6, 7, times, "raw".into());
    assert_eq!(sent.request_id, 6);
    assert_eq!(sent.nonce, 7);
    assert_eq!(sent.socket_write_monotonic_ns, 4);
    assert_eq!(sent.record.action_type, "ioc");
    assert_eq!(sent.record.time_in_force.as_deref(), Some("Ioc"));
    assert!(sent.record.reduce_only);
    assert_eq!(sent.record.side.as_deref(), Some("buy"));
    assert_eq!(sent.record.payload_hash, sha256_hex(b"raw"));
    assert_eq!(sent.record.priority_fee, 0);
    assert_eq!(sent.record.transport, "ws");
}

#[test]
fn assets_are_resolved() {
    let place = |index, has_perp_dex, perp_dex_index| InstrumentPlace {
        index,
        has_perp_dex,
        perp_dex_index,
    };
    assert_eq!(resolve_asset_id(place(Some(5), true, Some(1)), "X").unwrap(), 110_005);
    assert_eq!(resolve_asset_id(place(Some(5), true, Some(0)), "X").unwrap(), 5);
    assert_eq!(resolve_asset_id(place(Some(5), false, Some(1)), "X").unwrap(), 5);
    assert_eq!(
        resolve_asset_id(place(None, true, Some(1)), "X").unwrap_err().message(),
        "HL instrument not found: X"
    );
    assert_eq!(
        resolve_asset_id(place(Some(5), true, None), "X").unwrap_err().message(),
        "HL perp dex index not initialized"
    );
    let beyond = resolve_asset_id(place(Some(5), true, Some(u32::MAX)), "X").unwrap_err();
    assert!(matches!(beyond, AssetError::OutOfRange(_)));
    assert!(beyond.message().contains("overflow"));
}
