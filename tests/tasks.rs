use calipertron::codec::Command;
use calipertron::ring::{ReadStatus, RingBuffer};
use calipertron::tasks::{InboundError, InboundTask, StreamAction, StreamEvent, StreamPhase, StreamTask};

#[test]
fn command_through_inbound_path() {
    let mut task = InboundTask::new();
    assert!(!task.wants_packet());
    task.on_enabled();
    assert!(task.wants_packet());
    let c = Command::SetFrequency { frequency_khz_bits: 12.5f64.to_bits() };
    let mut packet = [0u8; 64];
    let n = c.serialize(&mut packet).unwrap();
    assert_eq!(task.on_packet(&packet[..n]), Ok(c));
}

#[test]
fn inbound_garbage_is_a_decode_failure() {
    let task = InboundTask::new();
    assert_eq!(task.on_packet(&[9, 9, 9]), Err(InboundError::DecodeFailure));
    assert_eq!(task.on_packet(&[0u8; 64]), Err(InboundError::DecodeFailure));
}

#[test]
fn inbound_transfer_error_then_reconnect() {
    let mut task = InboundTask::new();
    task.on_enabled();
    task.on_transfer_error();
    assert!(!task.wants_packet());
    task.on_enabled();
    assert!(task.wants_packet());
    let mut packet = [0u8; 9];
    let c = Command::SetFrequency { frequency_khz_bits: 3.0f64.to_bits() };
    c.serialize(&mut packet).unwrap();
    assert_eq!(task.on_packet(&packet), Ok(c));
}

#[test]
fn stream_starts_capture_on_enable_and_alternates() {
    let mut rb = RingBuffer::new(8, 4).unwrap();
    let mut task = StreamTask::new();
    rb.push(1);
    assert_eq!(task.step(&mut rb, StreamEvent::ReadDone), StreamAction::WaitEnabled);
    assert_eq!(task.step(&mut rb, StreamEvent::Enabled), StreamAction::Read);
    assert!(task.started);
    for s in 0..4 {
        rb.push(s);
    }
    let mut buf = [0u16; 4];
    assert_eq!(rb.read_exact(&mut buf), Ok(ReadStatus::Ready));
    assert_eq!(buf, [0, 1, 2, 3]);
    assert_eq!(task.step(&mut rb, StreamEvent::ReadDone), StreamAction::Send);
    assert_eq!(task.step(&mut rb, StreamEvent::WriteDone), StreamAction::Read);
    assert_eq!(task.phase, StreamPhase::AwaitRead);
}

#[test]
fn stream_disconnect_then_reconnect() {
    let mut rb = RingBuffer::new(8, 4).unwrap();
    let mut task = StreamTask::new();
    task.step(&mut rb, StreamEvent::Enabled);
    for s in 0..7 {
        rb.push(s);
    }
    let mut buf = [0u16; 4];
    assert_eq!(rb.read_exact(&mut buf), Ok(ReadStatus::Ready));
    assert_eq!(task.step(&mut rb, StreamEvent::ReadDone), StreamAction::Send);
    assert_eq!(task.step(&mut rb, StreamEvent::WriteFailed), StreamAction::WaitEnabled);
    assert_eq!(rb.read_exact(&mut buf), Ok(ReadStatus::Pending));
    assert_eq!(task.step(&mut rb, StreamEvent::Enabled), StreamAction::Read);
    for s in 20..24 {
        rb.push(s);
    }
    assert_eq!(rb.read_exact(&mut buf), Ok(ReadStatus::Ready));
    assert_eq!(buf, [20, 21, 22, 23]);
}

#[test]
fn stream_read_error_clears_and_reads_on() {
    let mut rb = RingBuffer::new(8, 4).unwrap();
    let mut task = StreamTask::new();
    task.step(&mut rb, StreamEvent::Enabled);
    for s in 0..9 {
        rb.push(s);
    }
    let mut buf = [0u16; 4];
    assert!(rb.read_exact(&mut buf).is_err());
    assert_eq!(task.step(&mut rb, StreamEvent::ReadFailed), StreamAction::Read);
    for s in 30..34 {
        rb.push(s);
    }
    assert_eq!(rb.read_exact(&mut buf), Ok(ReadStatus::Ready));
    assert_eq!(buf, [30, 31, 32, 33]);
}
