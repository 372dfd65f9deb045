//! Driving a node through the Engine API.

use alloy_consensus::{Block, BlockBody, EthereumTxEnvelope, Header, TxEip4844};
use alloy_eips::eip4895::Withdrawals;
use alloy_primitives::B256;
use serde_json::Value;
use witness_bench::blocks::{load_block_from_disk, BlockFile, LoadedBlock};
use witness_bench::clock::Duration;
use witness_bench::engine::{
    measure_shape, rpc, EngineError, EngineOptions, ForkchoiceUpdate, Method, NewPayload,
    WitnessCalls, WitnessShape,
};

fn ns(nanos: u128) -> Duration {
    Duration { nanos }
}

fn header() -> Header {
    Header {
        number: 300,
        gas_used: 5,
        gas_limit: 30_000_000,
        base_fee_per_gas: Some(7),
        withdrawals_root: Some(B256::repeat_byte(1)),
        blob_gas_used: Some(0),
        excess_blob_gas: Some(0),
        parent_beacon_block_root: Some(B256::repeat_byte(2)),
        requests_hash: Some(B256::repeat_byte(3)),
        ..Default::default()
    }
}

fn consensus(header: Header, withdrawals: bool) -> Block<EthereumTxEnvelope<TxEip4844>> {
    let withdrawals = withdrawals.then_some(Withdrawals::default());
    Block { header, body: BlockBody { transactions: vec![], ommers: vec![], withdrawals } }
}

fn load(header: Header, withdrawals: bool) -> LoadedBlock {
    let file = BlockFile::Rlp(alloy_rlp::encode(consensus(header, withdrawals)));
    load_block_from_disk(&file, 300).unwrap().with_body(Ok(())).unwrap()
}

fn prepared() -> NewPayload {
    NewPayload::prepare(&load(header(), true)).unwrap()
}

fn parse(text: &str) -> Value {
    serde_json::from_str(text).unwrap()
}

fn options(witness_repeat: u32, skip_witness: bool) -> EngineOptions {
    EngineOptions { from: 300, to: None, witness_repeat, skip_witness }
}

const VALID: &str = "{\"id\":1,\"result\":{\"status\":\"VALID\",\"latestValidHash\":null}}";
const FCU: &str = "{\"id\":1,\"result\":{\"payloadStatus\":{\"status\":\"VALID\"}}}";

fn update() -> ForkchoiceUpdate {
    prepared().answered(parse(VALID), ns(40)).unwrap()
}

fn calls(witness_repeat: u32, skip_witness: bool) -> WitnessCalls {
    update().answered(parse(FCU), ns(50), &options(witness_repeat, skip_witness)).unwrap()
}

#[test]
fn the_range_ends_at_the_last_block() {
    assert_eq!(options(1, false).range_end(), Ok(300));
    assert_eq!(EngineOptions { to: Some(302), ..options(1, false) }.range_end(), Ok(302));
    assert_eq!(EngineOptions { to: Some(299), ..options(1, false) }.range_end(), Err(299));
}

#[test]
fn only_engine_methods_are_authenticated() {
    assert!(Method::NewPayload.authenticated());
    assert!(Method::ForkchoiceUpdated.authenticated());
    assert!(!Method::ExecutionWitness.authenticated());
}

#[test]
fn a_block_is_submitted_as_a_payload() {
    let request = prepared().request();
    let block = consensus(header(), true);
    let (payload, _) = alloy_rpc_types_engine::ExecutionPayload::from_block_slow(&block);
    let alloy_rpc_types_engine::ExecutionPayload::V3(payload) = payload else {
        panic!("a payload of the third version")
    };
    assert_eq!(request.get("jsonrpc"), Some(&Value::from("2.0")));
    assert_eq!(request.get("id"), Some(&Value::from(1)));
    assert_eq!(request.get("method"), Some(&Value::from("engine_newPayloadV4")));
    let params = request.get("params").unwrap().as_array().unwrap();
    assert_eq!(params.len(), 4);
    assert_eq!(params[0], serde_json::to_value(&payload).unwrap());
    assert_eq!(params[1], Value::Array(vec![]));
    assert_eq!(params[2], serde_json::to_value(B256::repeat_byte(2)).unwrap());
    assert_eq!(params[3], serde_json::to_value(B256::repeat_byte(3)).unwrap());
}

#[test]
fn a_block_needs_all_that_the_call_takes() {
    let fails = |header, withdrawals| NewPayload::prepare(&load(header, withdrawals)).unwrap_err();
    let no_requests = Header { requests_hash: None, ..header() };
    assert!(matches!(fails(no_requests, true), EngineError::NoRequestsHash { number: 300 }));

    let early = Header {
        number: 300,
        base_fee_per_gas: Some(7),
        ..Default::default()
    };
    assert!(matches!(fails(early, false), EngineError::NoRequestsHash { number: 300 }));

    let late = Header { block_access_list_hash: Some(B256::repeat_byte(9)), ..header() };
    assert!(matches!(fails(late, true), EngineError::NotV3 { number: 300 }));
}

#[test]
fn an_odd_header_is_submitted_like_any_other() {
    let odd = Header { base_fee_per_gas: None, ..header() };
    let mut value = serde_json::to_value(&odd).unwrap();
    let members = value.as_object_mut().unwrap();
    members.insert("hash".to_string(), serde_json::to_value(odd.hash_slow()).unwrap());
    members.insert("transactions".to_string(), Value::Array(vec![]));
    members.insert("uncles".to_string(), Value::Array(vec![]));
    members.insert("withdrawals".to_string(), Value::Array(vec![]));
    let file = BlockFile::Json(serde_json::to_vec(&value).unwrap());
    let block = load_block_from_disk(&file, 300).unwrap().with_body(Ok(())).unwrap();
    let request = NewPayload::prepare(&block).unwrap().request();
    let payload = &request.get("params").unwrap().as_array().unwrap()[0];
    assert_eq!(payload.get("baseFeePerGas"), Some(&Value::from("0x0")));
    assert_eq!(payload.get("blockHash"), Some(&Value::from(odd.hash_slow().to_string())));
}

#[test]
fn a_result_is_taken_out_of_its_response() {
    let result = rpc(Method::NewPayload, parse("{\"result\":[1]}")).unwrap();
    assert_eq!(result, parse("[1]"));
    assert_eq!(rpc(Method::NewPayload, parse("{\"result\":null}")).unwrap(), Value::Null);
    let failed = rpc(Method::NewPayload, parse("{\"result\":1,\"error\":\"busy\"}"));
    assert!(matches!(
        failed,
        Err(EngineError::Returned { method: Method::NewPayload, error }) if error == "busy"
    ));
    let nothing = rpc(Method::ExecutionWitness, parse("{\"id\":1}"));
    assert!(matches!(
        nothing,
        Err(EngineError::NoResult { method: Method::ExecutionWitness, response })
            if response == parse("{\"id\":1}")
    ));
}

#[test]
fn a_payload_must_be_valid() {
    let reply = "{\"result\":{\"status\":\"SYNCING\"}}";
    let error = prepared().answered(parse(reply), ns(1)).unwrap_err();
    assert!(matches!(
        error,
        EngineError::NotValid { method: Method::NewPayload, number: 300, status, result }
            if status.as_deref() == Some("SYNCING") && result == parse("{\"status\":\"SYNCING\"}")
    ));
    let error = prepared().answered(parse("{\"result\":{\"status\":7}}"), ns(1)).unwrap_err();
    assert!(matches!(error, EngineError::NotValid { status: None, .. }));
    let error = prepared().answered(parse("{\"error\":1}"), ns(1)).unwrap_err();
    assert!(matches!(
        error,
        EngineError::Returned { method: Method::NewPayload, error } if error == 1
    ));
    let error = prepared().answered(parse("{}"), ns(1)).unwrap_err();
    assert!(matches!(
        error,
        EngineError::NoResult { method: Method::NewPayload, response } if response == parse("{}")
    ));
}

#[test]
fn the_update_makes_the_block_head_safe_and_finalized() {
    let request = update().request();
    assert_eq!(request.get("method"), Some(&Value::from("engine_forkchoiceUpdatedV3")));
    let params = request.get("params").unwrap().as_array().unwrap();
    let hash = Value::from(header().hash_slow().to_string());
    for name in ["headBlockHash", "safeBlockHash", "finalizedBlockHash"] {
        assert_eq!(params[0].get(name), Some(&hash));
    }
    assert_eq!(params[0].as_object().unwrap().len(), 3);
    assert_eq!(params[1], Value::Null);
    assert_eq!(params.len(), 2);
}

#[test]
fn an_update_must_be_valid() {
    let reply = "{\"result\":{\"payloadStatus\":{\"status\":\"INVALID\"},\"status\":\"VALID\"}}";
    let error = update().answered(parse(reply), ns(1), &options(1, false)).unwrap_err();
    assert!(matches!(
        error,
        EngineError::NotValid { method: Method::ForkchoiceUpdated, number: 300, status, .. }
            if status.as_deref() == Some("INVALID")
    ));
    let error = update().answered(parse("{\"result\":{}}"), ns(1), &options(1, false)).unwrap_err();
    assert!(matches!(error, EngineError::NotValid { status: None, .. }));
}

const WITNESS: &str = "{\"result\":{\"state\":[\"0x0102\",\"0x03\",7,\"0\"],\"codes\":[\"0xaabbcc\"],\
                       \"keys\":[\"0x\"],\"headers\":{}}}";

#[test]
fn a_witness_is_counted_and_sized() {
    let shape = measure_shape(parse(WITNESS).get("result").unwrap());
    let expected = WitnessShape {
        nodes: 4,
        state_bytes: 3,
        codes: 1,
        codes_bytes: 3,
        keys: 1,
        headers: 0,
    };
    assert_eq!(shape, expected);
    let nothing = measure_shape(&Value::Null);
    assert_eq!((nothing.nodes, nothing.codes_bytes), (0, 0));
}

#[test]
fn the_witness_is_asked_for_as_often_as_wanted() {
    let mut calls = calls(3, false);
    let mut nanos = 100;
    while let Some(request) = calls.next_request() {
        assert_eq!(request.get("method"), Some(&Value::from("debug_executionWitness")));
        assert_eq!(request.get("params"), Some(&parse("[\"0x12c\"]")));
        let reply = if nanos == 100 { WITNESS } else { "{\"result\":{}}" };
        calls.answered(parse(reply), ns(nanos)).unwrap();
        nanos -= 20;
    }
    let row = calls.finish();
    assert_eq!((row.block.number, row.block.gas_used, row.block.tx_count), (300, 5, 0));
    assert_eq!(row.block.hash, header().hash_slow().0);
    assert_eq!((row.t_new_payload, row.t_fcu), (ns(40), ns(50)));
    assert_eq!(row.t_witness, Some(ns(100)));
    assert_eq!(row.t_witness_iters, vec![ns(100), ns(80), ns(60)]);
    assert_eq!(row.t_witness_warm, Some(ns(60)));
    assert_eq!(row.witness.unwrap().nodes, 4);
}

#[test]
fn a_failed_witness_call_is_passed_on() {
    let mut calls = calls(1, false);
    let error = calls.answered(parse("{\"error\":\"unknown block\"}"), ns(1)).unwrap_err();
    assert!(matches!(error, EngineError::Returned { method: Method::ExecutionWitness, .. }));
    assert!(calls.next_request().is_some());
}

#[test]
fn the_witness_can_be_skipped() {
    let calls = calls(3, true);
    assert!(calls.next_request().is_none());
    let row = calls.finish();
    assert_eq!((row.t_witness, row.t_witness_warm), (None, None));
    assert!(row.t_witness_iters.is_empty());
    assert!(row.witness.is_none());
}
