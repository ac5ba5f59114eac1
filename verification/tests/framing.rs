use iot_debugger::framing::{Frame, FrameAssembler, Next, ReadEvent, IDLE_THRESHOLD_MS};

fn frame_bytes(frame: Option<Frame>) -> Option<Vec<u8>> {
    frame.map(|f| f.bytes)
}

#[test]
fn idle_threshold_is_thirty_milliseconds() {
    assert_eq!(IDLE_THRESHOLD_MS, 30);
}

#[test]
fn bytes_gather_until_the_line_falls_silent() {
    let mut assembler = FrameAssembler::new();
    let step = assembler.step(ReadEvent::Data(vec![1, 2]), 1000);
    assert_eq!(step.frame, None);
    assert_eq!(step.next, Next::Read);
    let step = assembler.step(ReadEvent::Data(vec![3]), 1010);
    assert_eq!(step.frame, None);
    assert_eq!(assembler.pending(), 3);
    let step = assembler.step(ReadEvent::Quiet, 1039);
    assert_eq!(step.frame, None);
    assert_eq!(step.next, Next::Read);
    let step = assembler.step(ReadEvent::Quiet, 1040);
    assert_eq!(frame_bytes(step.frame), Some(vec![1, 2, 3]));
    assert_eq!(step.next, Next::Read);
    assert_eq!(assembler.pending(), 0);
}

#[test]
fn silence_with_nothing_pending_pauses() {
    let mut assembler = FrameAssembler::new();
    let step = assembler.step(ReadEvent::Quiet, 5);
    assert_eq!(step.frame, None);
    assert_eq!(step.next, Next::Pause);
    let step = assembler.step(ReadEvent::Quiet, 5000);
    assert_eq!(step.frame, None);
    assert_eq!(step.next, Next::Pause);
    assert!(!assembler.is_finished());
}

#[test]
fn an_empty_read_counts_as_silence() {
    let mut assembler = FrameAssembler::new();
    let step = assembler.step(ReadEvent::Data(vec![]), 0);
    assert_eq!(step.frame, None);
    assert_eq!(step.next, Next::Pause);
    assembler.step(ReadEvent::Data(vec![9]), 10);
    let step = assembler.step(ReadEvent::Data(vec![]), 39);
    assert_eq!(step.frame, None);
    let step = assembler.step(ReadEvent::Data(vec![]), 40);
    assert_eq!(frame_bytes(step.frame), Some(vec![9]));
}

#[test]
fn new_bytes_restart_the_idle_timer() {
    let mut assembler = FrameAssembler::new();
    assembler.step(ReadEvent::Data(vec![1]), 0);
    assembler.step(ReadEvent::Data(vec![2]), 29);
    let step = assembler.step(ReadEvent::Quiet, 58);
    assert_eq!(step.frame, None);
    let step = assembler.step(ReadEvent::Quiet, 59);
    assert_eq!(frame_bytes(step.frame), Some(vec![1, 2]));
}

#[test]
fn one_frame_for_each_group() {
    let groups: Vec<Vec<u8>> = vec![vec![0x01, 0x02, 0x03], vec![0xFF], vec![0x10, 0x20]];
    let mut assembler = FrameAssembler::new();
    let mut frames: Vec<Vec<u8>> = Vec::new();
    let mut now: u64 = 0;
    for group in &groups {
        for byte in group {
            now += 1;
            let step = assembler.step(ReadEvent::Data(vec![*byte]), now);
            assert_eq!(step.frame, None);
        }
        now += IDLE_THRESHOLD_MS;
        let step = assembler.step(ReadEvent::Quiet, now);
        if let Some(frame) = step.frame {
            frames.push(frame.bytes);
        }
    }
    assert_eq!(frames, groups);
    assert_eq!(assembler.pending(), 0);
}

#[test]
fn a_stream_that_never_idles_is_one_frame_at_cancel() {
    let mut assembler = FrameAssembler::new();
    let mut expected: Vec<u8> = Vec::new();
    for i in 0..1000u64 {
        let byte = (i % 251) as u8;
        expected.push(byte);
        let step = assembler.step(ReadEvent::Data(vec![byte]), i);
        assert_eq!(step.frame, None);
        if i % 7 == 0 {
            let step = assembler.step(ReadEvent::Quiet, i);
            assert_eq!(step.frame, None);
        }
    }
    let step = assembler.step(ReadEvent::Cancelled, 1000);
    assert_eq!(frame_bytes(step.frame), Some(expected));
    assert_eq!(step.next, Next::Stop);
    assert!(assembler.is_finished());
}

#[test]
fn cancel_with_nothing_pending_emits_nothing() {
    let mut assembler = FrameAssembler::new();
    let step = assembler.step(ReadEvent::Cancelled, 0);
    assert_eq!(step.frame, None);
    assert_eq!(step.next, Next::Stop);
    assert!(assembler.is_finished());
}

#[test]
fn a_failed_read_flushes_and_ends_the_loop() {
    let mut assembler = FrameAssembler::new();
    assembler.step(ReadEvent::Data(vec![4, 5]), 100);
    let step = assembler.step(ReadEvent::Failed, 101);
    assert_eq!(frame_bytes(step.frame), Some(vec![4, 5]));
    assert_eq!(step.next, Next::Stop);
    assert!(assembler.is_finished());
}

#[test]
fn nothing_leaves_a_finished_assembler() {
    let mut assembler = FrameAssembler::new();
    assembler.step(ReadEvent::Failed, 0);
    let step = assembler.step(ReadEvent::Data(vec![1, 2, 3]), 10);
    assert_eq!(step.frame, None);
    assert_eq!(step.next, Next::Stop);
    assert_eq!(assembler.pending(), 0);
    let step = assembler.step(ReadEvent::Quiet, 1000);
    assert_eq!(step.frame, None);
    assert_eq!(step.next, Next::Stop);
    let step = assembler.step(ReadEvent::Cancelled, 1001);
    assert_eq!(step.frame, None);
    assert_eq!(step.next, Next::Stop);
}

#[test]
fn a_clock_that_steps_back_counts_as_no_time() {
    let mut assembler = FrameAssembler::new();
    assembler.step(ReadEvent::Data(vec![1]), 500);
    let step = assembler.step(ReadEvent::Quiet, 100);
    assert_eq!(step.frame, None);
    let step = assembler.step(ReadEvent::Quiet, 530);
    assert_eq!(frame_bytes(step.frame), Some(vec![1]));
}
