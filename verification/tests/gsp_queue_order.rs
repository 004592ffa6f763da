use rustos::gpu::queue::{GspQueue, GspQueueError};
use rustos::gpu::rpc::{encode_gsp_rpc_with_sequences, GspRpcMessage};
use rustos::gpu::NVIDIA_GSP_SHARED_QUEUE_BYTES;

#[test]
fn messages_leave_the_queue_in_the_order_they_entered() {
    let first = encode_gsp_rpc_with_sequences(0x10, 1, 1, b"first").unwrap();
    let second = encode_gsp_rpc_with_sequences(0x20, 2, 2, &[7u8; 5000]).unwrap();
    let mut buffer = vec![0u8; NVIDIA_GSP_SHARED_QUEUE_BYTES];
    let mut queue = GspQueue::new(&mut buffer).unwrap();
    assert_eq!(queue.try_receive_message().unwrap(), None);
    assert_eq!(queue.write_message(&first).unwrap(), 1);
    assert_eq!(queue.write_message(&second).unwrap(), 3);
    let received = queue.try_receive_message().unwrap().unwrap();
    assert_eq!(received, first);
    assert_eq!(GspRpcMessage::parse(&received).unwrap().function(), 0x10);
    let received = queue.try_receive_message().unwrap().unwrap();
    assert_eq!(received, second);
    assert_eq!(queue.try_receive_message().unwrap(), None);
    assert_eq!(queue.read_pointer().unwrap(), queue.write_pointer().unwrap());
}

#[test]
fn a_full_queue_refuses_another_message() {
    let big = encode_gsp_rpc_with_sequences(0x30, 1, 1, &[1u8; 16 * 4096 - 64 - 48]).unwrap();
    let mut buffer = vec![0u8; NVIDIA_GSP_SHARED_QUEUE_BYTES];
    let mut queue = GspQueue::new(&mut buffer).unwrap();
    for _ in 0..3 {
        queue.write_message(&big).unwrap();
    }
    assert_eq!(queue.available_entries().unwrap(), 62 - 48);
    assert!(matches!(queue.write_message(&big), Err(GspQueueError::QueueFull { .. })));
}

#[test]
fn the_callers_buffer_holds_what_the_queue_wrote() {
    let message = encode_gsp_rpc_with_sequences(65, 3, 3, b"static-info").unwrap();
    let mut buffer = vec![0u8; NVIDIA_GSP_SHARED_QUEUE_BYTES];
    let mut queue = GspQueue::new(&mut buffer).unwrap();
    assert_eq!(queue.write_message(&message).unwrap(), 1);
    let bytes = queue.into_buffer();
    assert_eq!(&bytes[4096..8192], &message[..]);
    assert_eq!(bytes[16], 1);
    assert_eq!(&buffer[4096..8192], &message[..]);
    assert_eq!(GspRpcMessage::parse(&buffer[4096..8192]).unwrap().function(), 65);
}
