use ampfuzz::byte_count::{AmpByteCount, UdpByteCount};
use ampfuzz::status_type::StatusType;

fn describe(s: &StatusType<String>) -> String {
    match s {
        StatusType::Normal => "normal".to_string(),
        StatusType::Timeout => "timeout".to_string(),
        StatusType::Crash => "crash".to_string(),
        StatusType::Skip => "skip".to_string(),
        StatusType::Error => "error".to_string(),
        StatusType::Amp(path, amp) => format!("amp {} {}", path, amp.bytes_out.l2_size()),
    }
}

#[test]
fn amplification_outcome_carries_sample() {
    let amp = AmpByteCount { bytes_in: UdpByteCount::from_l7(10), bytes_out: UdpByteCount::from_l7(1000) };
    let s = StatusType::Amp("queue/id_1".to_string(), amp);
    assert_eq!(describe(&s), "amp queue/id_1 1046");
    assert_eq!(describe(&StatusType::Timeout), "timeout");
    assert_eq!(describe(&StatusType::Normal), "normal");
}
