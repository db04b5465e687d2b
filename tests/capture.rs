use airbag::capture::{FrameBuffer, UnwindStep, MAX_FRAMES};
use airbag::trace::{format_trace, ResolvedFrame};

#[test]
fn deep_stack_is_truncated() {
    let mut buffer = FrameBuffer::new(MAX_FRAMES);
    let mut stops = 0;
    for pc in 1..=1000usize {
        if buffer.record(pc) == UnwindStep::Stop {
            stops += 1;
        }
    }
    assert_eq!(buffer.len(), 30);
    assert_eq!(stops, 1000 - 30);
    let addresses = buffer.addresses();
    assert_eq!(addresses, (1..=30usize).collect::<Vec<_>>());
}

#[test]
fn limit_is_capped_and_null_skipped() {
    let mut buffer = FrameBuffer::new(1000);
    for pc in 0..40usize {
        buffer.record(pc);
    }
    assert_eq!(buffer.len(), 30);
    assert_eq!(buffer.addresses()[0], 1);

    let mut small = FrameBuffer::new(2);
    assert_eq!(small.record(0), UnwindStep::Continue);
    assert_eq!(small.record(7), UnwindStep::Continue);
    assert_eq!(small.record(0), UnwindStep::Continue);
    assert_eq!(small.record(8), UnwindStep::Continue);
    assert_eq!(small.record(9), UnwindStep::Stop);
    assert_eq!(small.addresses(), vec![7, 8]);
}

#[test]
fn shallow_stack_keeps_all() {
    let mut buffer = FrameBuffer::new(MAX_FRAMES);
    buffer.record(0x10);
    buffer.record(0x20);
    assert_eq!(buffer.addresses(), vec![0x10, 0x20]);
    let empty = FrameBuffer::new(0);
    assert_eq!(empty.len(), 0);
}

#[test]
fn trace_lines_are_rendered() {
    let frames = vec![
        ResolvedFrame {
            address: 0xdeadbeef,
            module: "/system/lib64/libfoo.so".to_string(),
            symbol: "crash_here".to_string(),
        },
        ResolvedFrame { address: 0, module: String::new(), symbol: String::new() },
    ];
    let text = format_trace(&frames);
    assert_eq!(
        text,
        "  #0 at /system/lib64/libfoo.so: 0x00000000deadbeef  crash_here\n  #1 at : 0x0000000000000000  \n"
    );
    assert_eq!(format_trace(&vec![]), "");
}

#[test]
fn frame_index_in_decimal() {
    let frames: Vec<ResolvedFrame> = (0..12usize)
        .map(|i| ResolvedFrame { address: 0xabc0 + i, module: "m".to_string(), symbol: "s".to_string() })
        .collect();
    let text = format_trace(&frames);
    let last = text.lines().last().unwrap();
    assert_eq!(last, "  #11 at m: 0x000000000000abcb  s");
    assert_eq!(text.lines().count(), 12);
}
