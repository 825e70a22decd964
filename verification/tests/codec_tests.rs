use ledger_sync::accumulator::{AccumulatorNode, NodeIndex};
use ledger_sync::codec::{key_round_trip, value_round_trip, KeyCodec, ValueCodec};
use ledger_sync::errors::StoreError;
use ledger_sync::hash::HashValue;

fn hash_from_byte(b: u8) -> HashValue {
    HashValue::from_slice(&[b; 32]).unwrap()
}

#[test]
fn node_index_encodes_to_exactly_eight_bytes() {
    let encoded = NodeIndex::new(0x0102030405060708).encode_key().unwrap();
    assert_eq!(encoded, vec![1, 2, 3, 4, 5, 6, 7, 8]);
    assert_eq!(NodeIndex::new(0).encode_key().unwrap().len(), 8);
    assert_eq!(NodeIndex::new(u64::MAX).encode_key().unwrap(), vec![0xff; 8]);
}

#[test]
fn node_index_decode_rejects_wrong_lengths() {
    assert_eq!(NodeIndex::decode_key(&[]), Err(StoreError::Corruption));
    assert_eq!(NodeIndex::decode_key(&[0; 7]), Err(StoreError::Corruption));
    assert_eq!(NodeIndex::decode_key(&[0; 9]), Err(StoreError::Corruption));
}

#[test]
fn node_index_decode_recovers_ordinal() {
    let decoded = NodeIndex::decode_key(&[1, 2, 3, 4, 5, 6, 7, 8]).unwrap();
    assert_eq!(decoded.to_inorder_index(), 0x0102030405060708);
    for ordinal in [0u64, 1, 42, 0xdead_beef, u64::MAX] {
        let encoded = NodeIndex::new(ordinal).encode_key().unwrap();
        assert_eq!(
            NodeIndex::decode_key(&encoded).unwrap().to_inorder_index(),
            ordinal
        );
    }
}

#[test]
fn node_index_round_trip_helper() {
    let x = NodeIndex::new(77);
    assert_eq!(key_round_trip(&x), x);
}

#[test]
fn hash_value_round_trips_through_both_codecs() {
    let mut bytes = [0u8; 32];
    for (i, b) in bytes.iter_mut().enumerate() {
        *b = i as u8;
    }
    let h = HashValue::from_slice(&bytes).unwrap();
    let encoded = h.encode_key().unwrap();
    assert_eq!(encoded.len(), 32);
    assert_eq!(encoded, bytes.to_vec());
    assert_eq!(HashValue::decode_key(&encoded).unwrap(), h);
    let encoded_value = h.encode_value().unwrap();
    assert_eq!(HashValue::decode_value(&encoded_value).unwrap(), h);
    assert_eq!(key_round_trip(&h), h);
    assert_eq!(value_round_trip(&h), h);
}

#[test]
fn hash_value_rejects_wrong_lengths() {
    assert_eq!(HashValue::from_slice(&[0; 31]), Err(StoreError::Corruption));
    assert_eq!(HashValue::from_slice(&[0; 33]), Err(StoreError::Corruption));
    assert_eq!(HashValue::from_slice(&[]), Err(StoreError::Corruption));
}

#[test]
fn accumulator_node_round_trips() {
    let node = AccumulatorNode::new(hash_from_byte(7), vec![9, 8, 7, 6, 5]);
    let encoded = node.encode_value().unwrap();
    assert_eq!(encoded.len(), 37);
    let decoded = AccumulatorNode::decode_value(&encoded).unwrap();
    assert_eq!(decoded.hash(), node.hash());
    assert_eq!(decoded.body, node.body);
}

#[test]
fn accumulator_node_with_empty_body_round_trips() {
    let node = AccumulatorNode::new(hash_from_byte(3), Vec::new());
    let encoded = node.encode_value().unwrap();
    assert_eq!(encoded.len(), 32);
    let decoded = AccumulatorNode::decode_value(&encoded).unwrap();
    assert_eq!(decoded.hash(), node.hash());
    assert!(decoded.body.is_empty());
}

#[test]
fn accumulator_node_decode_rejects_short_input() {
    assert!(matches!(
        AccumulatorNode::decode_value(&[0; 31]),
        Err(StoreError::Corruption)
    ));
}
