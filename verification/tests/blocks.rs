//! Loading blocks from files.

use alloy_consensus::{
    Block, BlockBody, EthereumTxEnvelope, Header, Transaction as _, TxEip4844, TxEnvelope,
};
use alloy_eips::eip2718::Decodable2718;
use alloy_primitives::{Address, B256};
use serde_json::Value;
use witness_bench::blocks::{
    block_object, check_identity, choose_file, decode_rpc_block, json_file_name, load_block_from_disk,
    rlp_file_name, BlockFile, CheckedBlock, FileKind, LoadError, LoadedBlock,
};

type EthBlock = Block<EthereumTxEnvelope<TxEip4844>>;

/// A transfer of one ether, signed with the key `0x4646...46`.
const TRANSFER: &str = "f86c098504a817c800825208943535353535353535353535353535353535353535880de0b\
                        6b3a76400008025a028ef61340bd939bc2195fe537567866003e1a15d3c71ff63e1590620\
                        aa636276a067cbe9d8997f761aecb703304b3800ccf555c9f3dc64214b297fb1966a3b6d83";

fn header() -> Header {
    Header {
        number: 77,
        gas_used: 21_000,
        gas_limit: 30_000_000,
        state_root: B256::repeat_byte(0x11),
        base_fee_per_gas: Some(7),
        ..Default::default()
    }
}

fn block() -> EthBlock {
    let raw = alloy_primitives::hex::decode(TRANSFER).unwrap();
    let tx = EthereumTxEnvelope::<TxEip4844>::decode_2718(&mut raw.as_slice()).unwrap();
    Block {
        header: header(),
        body: BlockBody { transactions: vec![tx], ommers: vec![], withdrawals: None },
    }
}

fn rlp(block: &EthBlock) -> BlockFile {
    BlockFile::Rlp(alloy_rlp::encode(block))
}

fn checked(block: &EthBlock) -> CheckedBlock {
    load_block_from_disk(&rlp(block), 77).unwrap()
}

fn rpc_block(hash: B256) -> Value {
    rpc_block_of(header(), hash)
}

fn rpc_block_of(header: Header, hash: B256) -> Value {
    let header = alloy_rpc_types_eth::Header {
        hash,
        inner: header,
        total_difficulty: None,
        size: None,
    };
    let block: alloy_rpc_types_eth::Block<alloy_rpc_types_eth::Transaction<TxEnvelope>> =
        alloy_rpc_types_eth::Block {
            header,
            uncles: vec![],
            transactions: alloy_rpc_types_eth::BlockTransactions::Full(vec![]),
            withdrawals: None,
        };
    serde_json::to_value(block).unwrap()
}

fn envelope(name: &str, value: Value) -> Value {
    let mut envelope = serde_json::Map::new();
    envelope.insert("id".to_string(), Value::from(1));
    envelope.insert(name.to_string(), value);
    Value::Object(envelope)
}

fn json(value: &Value) -> BlockFile {
    BlockFile::Json(serde_json::to_vec(value).unwrap())
}

#[test]
fn files_are_named_by_number() {
    assert_eq!(rlp_file_name(24785397), "24785397.rlp");
    assert_eq!(json_file_name(0), "0.json");
}

#[test]
fn the_rlp_file_comes_first() {
    assert_eq!(choose_file(true, true).unwrap(), FileKind::Rlp);
    assert_eq!(choose_file(true, false).unwrap(), FileKind::Rlp);
    assert_eq!(choose_file(false, true).unwrap(), FileKind::Json);
    assert!(matches!(choose_file(false, false), Err(LoadError::NoFile)));
}

#[test]
fn an_rlp_block_is_loaded_with_its_senders() {
    let block = block();
    let checked = checked(&block);
    assert_eq!(*checked.block(), block);
    let loaded: LoadedBlock = checked.with_body(Ok(())).unwrap();
    assert_eq!(loaded.number(), 77);
    assert_eq!(loaded.requests_hash(), None);
    let facts = loaded.facts();
    assert_eq!((facts.gas_used, facts.tx_count), (21_000, 1));
    assert_eq!(facts.state_root, [0x11; 32]);
    assert_eq!(facts.hash, header().hash_slow().0);
    let sender: Address = "0x9d8a62f656a8d1615c1294fd71e9cfb3e4855a4f".parse().unwrap();
    assert_eq!(loaded.block().body.transactions[0].nonce(), 9);
    let (recovered, senders) = loaded.into_recovered();
    assert_eq!(recovered, block);
    assert_eq!(senders, vec![sender.into_array()]);
}

#[test]
fn what_follows_an_rlp_block_is_not_read() {
    let mut bytes = alloy_rlp::encode(block());
    bytes.push(0xff);
    let checked = load_block_from_disk(&BlockFile::Rlp(bytes), 77).unwrap();
    assert_eq!(*checked.block(), block());
}

#[test]
fn bytes_that_are_no_block_are_turned_down() {
    let result = load_block_from_disk(&BlockFile::Rlp(vec![1, 2, 3]), 77);
    assert!(matches!(result, Err(LoadError::NotRlp(_))));
}

#[test]
fn a_file_may_hold_the_wrong_block() {
    let result = load_block_from_disk(&rlp(&block()), 78);
    assert!(matches!(result, Err(LoadError::WrongNumber { number: 78, holds: 77 })));
}

#[test]
fn a_body_that_does_not_match_is_turned_down() {
    let result = checked(&block()).with_body(Err("transactions root".to_string()));
    assert!(matches!(
        result,
        Err(LoadError::BodyMismatch { number: 77, reason }) if reason == "transactions root"
    ));
}

#[test]
fn a_broken_signature_has_no_sender() {
    let mut raw = alloy_primitives::hex::decode(TRANSFER).unwrap();
    // The first half of the signature, which no curve point has.
    let start = raw.len() - 65;
    raw[start..start + 32].fill(0xff);
    let tx = EthereumTxEnvelope::<TxEip4844>::decode_2718(&mut raw.as_slice()).unwrap();
    let mut block = block();
    block.body.transactions = vec![tx];
    let result = checked(&block).with_body(Ok(()));
    assert!(matches!(result, Err(LoadError::NoSenders { number: 77 })));
}

#[test]
fn an_rpc_block_is_loaded_from_its_envelope_or_alone() {
    let hash = header().hash_slow();
    let alone = rpc_block(hash);
    let enveloped = envelope("result", alone.clone());
    for value in [alone, enveloped] {
        let checked = load_block_from_disk(&json(&value), 77).unwrap();
        let loaded = checked.with_body(Ok(())).unwrap();
        assert_eq!(loaded.facts().hash, hash.0);
        assert_eq!((loaded.facts().gas_used, loaded.facts().tx_count), (21_000, 0));
        assert!(loaded.into_recovered().1.is_empty());
        let (block, reported) = decode_rpc_block(&serde_json::to_vec(&value).unwrap()).unwrap();
        assert_eq!((block.header, reported), (header(), hash.0));
    }
}

#[test]
fn an_rpc_block_may_skip_early_optional_fields() {
    // Such a header does not decode again from its own RLP encoding.
    let header = Header {
        base_fee_per_gas: None,
        withdrawals_root: Some(B256::repeat_byte(4)),
        ..header()
    };
    let encoded = alloy_rlp::encode(&header);
    assert!(<Header as alloy_rlp::Decodable>::decode(&mut encoded.as_slice()).is_err());

    let hash = header.hash_slow();
    let file = json(&rpc_block_of(header.clone(), hash));
    let loaded = load_block_from_disk(&file, 77).unwrap().with_body(Ok(())).unwrap();
    assert_eq!(loaded.facts().hash, hash.0);
    assert_eq!(loaded.block().header, header);
}

#[test]
fn a_number_comes_before_a_hash() {
    assert!(check_identity(7, [1; 32], None, 7).is_ok());
    assert!(check_identity(7, [1; 32], Some([1; 32]), 7).is_ok());
    let wrong = check_identity(8, [1; 32], Some([2; 32]), 7);
    assert!(matches!(wrong, Err(LoadError::WrongNumber { number: 7, holds: 8 })));
    let wrong = check_identity(7, [1; 32], Some([2; 32]), 7);
    assert!(matches!(
        wrong,
        Err(LoadError::WrongHash { number: 7, computed, reported })
            if computed == [1; 32] && reported == [2; 32]
    ));
}

#[test]
fn an_rpc_block_must_hash_to_what_it_reports() {
    let claimed = B256::repeat_byte(0x12);
    let result = load_block_from_disk(&json(&rpc_block(claimed)), 77);
    let hash = header().hash_slow().0;
    assert!(matches!(
        result,
        Err(LoadError::WrongHash { number: 77, computed, reported })
            if computed == hash && reported == claimed.0
    ));
    // The number is checked before the hash.
    let result = load_block_from_disk(&json(&rpc_block(claimed)), 1);
    assert!(matches!(result, Err(LoadError::WrongNumber { number: 1, holds: 77 })));
}

#[test]
fn responses_without_a_block_are_turned_down() {
    let load = |bytes: &[u8]| load_block_from_disk(&BlockFile::Json(bytes.to_vec()), 77);
    assert!(matches!(load(b"{"), Err(LoadError::NotJson(_))));
    assert!(matches!(load(b"null"), Err(LoadError::NullResult)));
    assert!(matches!(load(b"{\"result\":null}"), Err(LoadError::NullResult)));
    assert!(matches!(load(b"{\"result\":{}}"), Err(LoadError::NotRpcBlock(_))));
    assert!(matches!(load(b"[]"), Err(LoadError::NotRpcBlock(_))));
    let error = load(b"{\"result\":{},\"error\":{\"code\":-32000}}");
    assert!(matches!(
        error,
        Err(LoadError::RpcError(reported)) if reported.to_string() == "{\"code\":-32000}"
    ));
}

#[test]
fn the_block_object_is_the_result_or_the_whole() {
    let object = envelope("number", Value::from("0x1"));
    assert_eq!(block_object(object.clone()).unwrap(), object);
    assert_eq!(block_object(envelope("result", object.clone())).unwrap(), object);
    assert!(matches!(block_object(Value::Null), Err(LoadError::NullResult)));
    let failed = envelope("error", Value::from("no"));
    assert!(matches!(block_object(failed), Err(LoadError::RpcError(e)) if e == "no"));
}
