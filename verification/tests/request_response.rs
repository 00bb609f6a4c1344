use fuel_p2p::ids::PeerId;
use fuel_p2p::request_response::codec::{
    decode_frame, decode_request, encode_frame, encode_request, read_be32, write_be32, FrameError,
};
use fuel_p2p::request_response::inbound::{InboundRequest, InboundTable};
use fuel_p2p::request_response::messages::{
    RequestKind, RequestMessage, RequestResponseError, ResponseError, ResponseMessage,
    ResponseMessageErrorCode, ResponseSender, SendError,
};
use fuel_p2p::request_response::outbound::{OutboundRequest, OutboundTable, ReplyDelivery};
use fuel_p2p::types::{BlockHeader, SealedBlockHeader, Transaction, Transactions};

fn peer(n: u8) -> PeerId {
    PeerId([n; 32])
}

fn header(height: u32) -> SealedBlockHeader {
    SealedBlockHeader {
        entity: BlockHeader {
            height,
            application: vec![1, 2, 3],
            consensus: height.to_be_bytes().to_vec(),
            metadata: None,
        },
        consensus: vec![0; 64],
    }
}

#[test]
fn kinds() {
    assert_eq!(RequestMessage::SealedHeaders(0..1).kind(), RequestKind::SealedHeaders);
    assert_eq!(RequestMessage::Transactions(0..1).kind(), RequestKind::Transactions);
    assert_eq!(RequestMessage::TxPoolAllTransactionsIds.kind(), RequestKind::TxPoolAllTransactionsIds);
    assert_eq!(
        RequestMessage::TxPoolFullTransactions(vec![]).kind(),
        RequestKind::TxPoolFullTransactions
    );
    assert_eq!(ResponseMessage::SealedHeaders(Ok(vec![])).kind(), RequestKind::SealedHeaders);
    assert_eq!(
        ResponseMessage::Transactions(Err(ResponseMessageErrorCode::Timeout)).kind(),
        RequestKind::Transactions
    );
    assert_eq!(ResponseSender::TxPoolFullTransactions.kind(), RequestKind::TxPoolFullTransactions);
    let request = RequestMessage::TxPoolFullTransactions(vec![[1; 32], [2; 32]]);
    assert_eq!(request.clone(), request);
    assert_eq!(RequestMessage::SealedHeaders(2..6).clone(), RequestMessage::SealedHeaders(2..6));
}

#[test]
fn a_request_is_pending_until_its_response() {
    let mut table = OutboundTable::new(4, 100);
    assert_eq!(table.len(), 0);
    let id = table
        .register(peer(1), RequestKind::SealedHeaders, ResponseSender::SealedHeaders, 1_000)
        .unwrap();
    assert_eq!(id, 0);
    assert_eq!(table.len(), 1);
    assert_eq!(
        table.get(id),
        Some(OutboundRequest {
            peer: peer(1),
            deadline: 1_100,
            kind: RequestKind::SealedHeaders,
            reply_slot: ResponseSender::SealedHeaders,
        })
    );
    let delivery = table.on_response(id, ResponseMessage::SealedHeaders(Ok(vec![header(2)]))).unwrap();
    assert_eq!(
        delivery,
        ReplyDelivery {
            request_id: 0,
            reply_slot: ResponseSender::SealedHeaders,
            result: Ok((peer(1), ResponseMessage::SealedHeaders(Ok(vec![header(2)])))),
        }
    );
    assert_eq!(table.len(), 0);
    assert!(table.on_response(id, ResponseMessage::SealedHeaders(Ok(vec![]))).is_none());
    assert!(table.expire_next(u64::MAX).is_none());
    assert!(table.on_peer_disconnected(peer(1)).is_empty());
}

#[test]
fn a_response_of_another_kind_is_a_type_mismatch() {
    let mut table = OutboundTable::new(4, 100);
    let id = table
        .register(peer(1), RequestKind::Transactions, ResponseSender::Transactions, 0)
        .unwrap();
    let delivery = table.on_response(id, ResponseMessage::SealedHeaders(Ok(vec![header(1)]))).unwrap();
    assert_eq!(delivery.result, Err(ResponseError::TypeMismatch));
    assert_eq!(delivery.reply_slot, ResponseSender::Transactions);
    assert_eq!(table.len(), 0);
}

#[test]
fn a_slot_of_another_kind_is_a_type_mismatch() {
    let mut table = OutboundTable::new(4, 100);
    let id = table
        .register(peer(1), RequestKind::Transactions, ResponseSender::SealedHeaders, 0)
        .unwrap();
    let response = ResponseMessage::Transactions(Ok(vec![Transactions(vec![Transaction::new(vec![1])])]));
    assert_eq!(table.on_response(id, response).unwrap().result, Err(ResponseError::TypeMismatch));
}

#[test]
fn an_error_payload_of_the_right_kind_is_delivered() {
    let mut table = OutboundTable::new(4, 100);
    let id = table
        .register(peer(1), RequestKind::Transactions, ResponseSender::Transactions, 0)
        .unwrap();
    let response = ResponseMessage::Transactions(Err(ResponseMessageErrorCode::RequestedRangeTooLarge));
    assert_eq!(
        table.on_response(id, response).unwrap().result,
        Ok((
            peer(1),
            ResponseMessage::Transactions(Err(ResponseMessageErrorCode::RequestedRangeTooLarge))
        ))
    );
}

#[test]
fn the_table_refuses_when_full() {
    let mut table = OutboundTable::new(2, 100);
    assert_eq!(
        table.register(peer(1), RequestKind::SealedHeaders, ResponseSender::SealedHeaders, 0),
        Ok(0)
    );
    assert_eq!(
        table.register(peer(1), RequestKind::SealedHeaders, ResponseSender::SealedHeaders, 0),
        Ok(1)
    );
    assert_eq!(
        table.register(peer(1), RequestKind::SealedHeaders, ResponseSender::SealedHeaders, 0),
        Err(SendError::Full)
    );
    assert_eq!(table.len(), 2);
    table.on_response(0, ResponseMessage::SealedHeaders(Ok(vec![])));
    assert_eq!(
        table.register(peer(1), RequestKind::SealedHeaders, ResponseSender::SealedHeaders, 0),
        Ok(2)
    );
}

#[test]
fn requests_time_out_earliest_first() {
    let mut table = OutboundTable::new(8, 100);
    let a = table.register(peer(1), RequestKind::SealedHeaders, ResponseSender::SealedHeaders, 50).unwrap();
    let b = table.register(peer(2), RequestKind::Transactions, ResponseSender::Transactions, 10).unwrap();
    let c = table.register(peer(3), RequestKind::Transactions, ResponseSender::Transactions, 10).unwrap();
    assert!(table.expire_next(109).is_none());
    assert_eq!(table.len(), 3);
    let first = table.expire_next(200).unwrap();
    assert_eq!(first.request_id, b);
    assert_eq!(first.reply_slot, ResponseSender::Transactions);
    assert_eq!(first.result, Err(ResponseError::P2P(RequestResponseError::Timeout)));
    assert_eq!(table.expire_next(200).unwrap().request_id, c);
    assert_eq!(table.expire_next(200).unwrap().request_id, a);
    assert!(table.expire_next(200).is_none());
    assert_eq!(table.len(), 0);
}

#[test]
fn a_deadline_is_due_when_it_is_reached() {
    let mut table = OutboundTable::new(8, 1);
    let id = table.register(peer(1), RequestKind::SealedHeaders, ResponseSender::SealedHeaders, 7).unwrap();
    assert!(table.expire_next(7).is_none());
    assert_eq!(table.expire_next(8).unwrap().request_id, id);
}

#[test]
fn a_deadline_saturates() {
    let mut table = OutboundTable::new(8, 100);
    let id = table
        .register(peer(1), RequestKind::SealedHeaders, ResponseSender::SealedHeaders, u64::MAX - 1)
        .unwrap();
    assert_eq!(table.get(id).unwrap().deadline, u64::MAX);
}

#[test]
fn a_disconnect_ends_the_requests_of_that_peer() {
    let mut table = OutboundTable::new(8, 100);
    let a = table.register(peer(1), RequestKind::SealedHeaders, ResponseSender::SealedHeaders, 0).unwrap();
    let b = table.register(peer(2), RequestKind::Transactions, ResponseSender::Transactions, 0).unwrap();
    let c = table.register(peer(1), RequestKind::Transactions, ResponseSender::Transactions, 0).unwrap();
    let mut deliveries = table.on_peer_disconnected(peer(1));
    deliveries.sort_by_key(|d| d.request_id);
    assert_eq!(deliveries.len(), 2);
    assert_eq!(deliveries[0].request_id, a);
    assert_eq!(deliveries[0].reply_slot, ResponseSender::SealedHeaders);
    assert_eq!(deliveries[1].request_id, c);
    for d in &deliveries {
        assert_eq!(d.result, Err(ResponseError::P2P(RequestResponseError::PeerDisconnected)));
    }
    assert_eq!(table.len(), 1);
    assert!(table.get(b).is_some());
    assert!(table.on_peer_disconnected(peer(1)).is_empty());
}

#[test]
fn a_shutdown_ends_every_request() {
    let mut table = OutboundTable::new(8, 100);
    table.register(peer(1), RequestKind::SealedHeaders, ResponseSender::SealedHeaders, 0).unwrap();
    table.register(peer(2), RequestKind::Transactions, ResponseSender::Transactions, 0).unwrap();
    let deliveries = table.shutdown();
    assert_eq!(deliveries.len(), 2);
    for d in &deliveries {
        assert_eq!(d.result, Err(ResponseError::P2P(RequestResponseError::Shutdown)));
    }
    assert_eq!(table.len(), 0);
    assert!(table.is_closed());
    assert_eq!(
        table.register(peer(1), RequestKind::SealedHeaders, ResponseSender::SealedHeaders, 0),
        Err(SendError::Closed)
    );
}

#[test]
fn inbound_requests_are_answered_once() {
    let mut table = InboundTable::new(100);
    assert!(table.on_request(7, peer(1), RequestKind::Transactions, 10));
    assert!(!table.on_request(7, peer(2), RequestKind::SealedHeaders, 20));
    assert_eq!(table.len(), 1);
    assert_eq!(
        table.take(7),
        Some(InboundRequest { peer: peer(1), kind: RequestKind::Transactions, deadline: 110 })
    );
    assert_eq!(table.take(7), None);
    assert_eq!(table.len(), 0);
}

#[test]
fn inbound_requests_are_dropped_when_overdue() {
    let mut table = InboundTable::new(100);
    table.on_request(1, peer(1), RequestKind::Transactions, 0);
    table.on_request(2, peer(1), RequestKind::Transactions, 50);
    table.on_request(3, peer(1), RequestKind::Transactions, 0);
    assert_eq!(table.expire(99), 0);
    assert_eq!(table.expire(100), 2);
    assert_eq!(table.len(), 1);
    assert!(table.take(1).is_none());
    assert!(table.take(2).is_some());
}

#[test]
fn numbers_are_spelled_most_significant_first() {
    let mut out = vec![9u8];
    write_be32(&mut out, 0x0102_0304);
    assert_eq!(out, vec![9, 1, 2, 3, 4]);
    write_be32(&mut out, u32::MAX);
    assert_eq!(out, vec![9, 1, 2, 3, 4, 255, 255, 255, 255]);
    assert_eq!(read_be32(&out, 1), 0x0102_0304);
    assert_eq!(read_be32(&out, 5), u32::MAX);
    assert_eq!(read_be32(&vec![0, 0, 1, 0], 0), 256);
}

#[test]
fn frames() {
    assert_eq!(encode_frame(&vec![7, 8, 9], 16), Ok(vec![0, 0, 0, 3, 7, 8, 9]));
    assert_eq!(encode_frame(&vec![], 16), Ok(vec![0, 0, 0, 0]));
    assert_eq!(encode_frame(&vec![0; 16], 16).unwrap().len(), 20);
    assert_eq!(encode_frame(&vec![0; 17], 16), Err(FrameError::TooLarge));
    assert_eq!(decode_frame(&vec![0, 0, 0, 3, 7, 8, 9], 16), Ok(Some((vec![7, 8, 9], 7))));
    assert_eq!(decode_frame(&vec![0, 0, 0, 1, 7, 8, 9], 16), Ok(Some((vec![7], 5))));
    assert_eq!(decode_frame(&vec![0, 0, 0, 0], 16), Ok(Some((vec![], 4))));
    assert_eq!(decode_frame(&vec![0, 0, 0], 16), Ok(None));
    assert_eq!(decode_frame(&vec![0, 0, 0, 3, 7, 8], 16), Ok(None));
    assert_eq!(decode_frame(&vec![0, 0, 0, 17], 16), Err(FrameError::TooLarge));
    assert_eq!(decode_frame(&vec![255, 255, 255, 255, 1], 16), Err(FrameError::TooLarge));
    assert_eq!(decode_frame(&vec![0, 0, 0, 16], 16), Ok(None));
}

#[test]
fn requests_on_the_wire() {
    assert_eq!(
        encode_request(&RequestMessage::SealedHeaders(2..6)),
        Some(vec![0, 0, 0, 0, 2, 0, 0, 0, 6])
    );
    assert_eq!(
        encode_request(&RequestMessage::Transactions(0x0100..0x0001_0000)),
        Some(vec![1, 0, 0, 1, 0, 0, 1, 0, 0])
    );
    assert_eq!(encode_request(&RequestMessage::TxPoolAllTransactionsIds), Some(vec![2]));
    let mut expected = vec![3, 0, 0, 0, 2];
    expected.extend_from_slice(&[0xaa; 32]);
    expected.extend_from_slice(&[0xbb; 32]);
    assert_eq!(
        encode_request(&RequestMessage::TxPoolFullTransactions(vec![[0xaa; 32], [0xbb; 32]])),
        Some(expected)
    );
    assert_eq!(encode_request(&RequestMessage::TxPoolFullTransactions(vec![])), Some(vec![3, 0, 0, 0, 0]));
}

#[test]
fn requests_come_back_as_they_were_sent() {
    let requests = vec![
        RequestMessage::SealedHeaders(2..6),
        RequestMessage::SealedHeaders(0..0),
        RequestMessage::SealedHeaders(u32::MAX..0),
        RequestMessage::Transactions(0..2),
        RequestMessage::TxPoolAllTransactionsIds,
        RequestMessage::TxPoolFullTransactions(vec![]),
        RequestMessage::TxPoolFullTransactions((0..10u8).map(|n| [n; 32]).collect()),
    ];
    for request in requests {
        let bytes = encode_request(&request).unwrap();
        assert_eq!(decode_request(&bytes), Some(request));
    }
}

#[test]
fn malformed_requests_are_refused() {
    assert_eq!(decode_request(&vec![]), None);
    assert_eq!(decode_request(&vec![4]), None);
    assert_eq!(decode_request(&vec![0]), None);
    assert_eq!(decode_request(&vec![0, 0, 0, 0, 2, 0, 0, 0]), None);
    assert_eq!(decode_request(&vec![1, 0, 0, 0, 2, 0, 0, 0, 6, 0]), None);
    assert_eq!(decode_request(&vec![2, 0]), None);
    assert_eq!(decode_request(&vec![3, 0, 0, 0]), None);
    assert_eq!(decode_request(&vec![3, 0, 0, 0, 1]), None);
    let mut short = vec![3, 0, 0, 0, 1];
    short.extend_from_slice(&[0; 31]);
    assert_eq!(decode_request(&short), None);
    let mut miscounted = vec![3, 0, 0, 0, 2];
    miscounted.extend_from_slice(&[0; 32]);
    assert_eq!(decode_request(&miscounted), None);
}

#[test]
fn headers_are_compared_without_metadata() {
    let a = header(4);
    let mut b = header(4);
    b.entity.metadata = Some(vec![1]);
    b.consensus = vec![1; 64];
    assert!(a.eq_except_metadata(&b));
    assert!(!a.eq_except_metadata(&header(5)));
    let mut c = header(4);
    c.entity.application = vec![9];
    assert!(!a.eq_except_metadata(&c));
}

#[test]
fn a_protocol_violation_ends_the_request() {
    let mut table = OutboundTable::new(4, 100);
    let id = table.register(peer(1), RequestKind::Transactions, ResponseSender::Transactions, 0).unwrap();
    assert_eq!(
        table.on_protocol_violation(id),
        Some(ReplyDelivery {
            request_id: id,
            reply_slot: ResponseSender::Transactions,
            result: Err(ResponseError::ProtocolViolation),
        })
    );
    assert_eq!(table.on_protocol_violation(id), None);
    assert_eq!(table.len(), 0);
}
