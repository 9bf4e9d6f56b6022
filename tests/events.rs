use uinput::event::{emit_batch, emit_writes, encode_events, InputEvent};

const EV_KEY: u16 = 1;
const KEY_A: u16 = 30;

#[test]
fn new_event_has_zero_timestamp() {
    let e = InputEvent::new(EV_KEY, KEY_A, 1);
    assert_eq!(e.time_sec, 0);
    assert_eq!(e.time_usec, 0);
    assert_eq!((e.event_type, e.code, e.value), (EV_KEY, KEY_A, 1));
}

#[test]
fn encoding_is_the_fixed_record_layout() {
    let e = InputEvent { time_sec: 0x0102, time_usec: -1, event_type: EV_KEY, code: 0x1e, value: -2 };
    let b = encode_events(&[e]);
    let mut want = vec![0x02u8, 0x01, 0, 0, 0, 0, 0, 0];
    want.extend_from_slice(&[0xff; 8]);
    want.extend_from_slice(&[0x01, 0x00, 0x1e, 0x00, 0xfe, 0xff, 0xff, 0xff]);
    assert_eq!(b, want);
}

#[test]
fn encoding_concatenates_records() {
    let a = InputEvent::new(EV_KEY, KEY_A, 1);
    let z = InputEvent::new(EV_KEY, KEY_A, 0);
    let both = encode_events(&[a, z]);
    assert_eq!(both.len(), 48);
    assert_eq!(&both[..24], &encode_events(&[a])[..]);
    assert_eq!(&both[24..], &encode_events(&[z])[..]);
    assert!(encode_events(&[]).is_empty());
}

#[test]
fn empty_batch_gets_only_the_terminator() {
    let r = emit_batch(&[]);
    assert_eq!(r, vec![InputEvent::syn_report()]);
}

#[test]
fn batch_ends_with_exactly_one_terminator() {
    let down = InputEvent::new(EV_KEY, KEY_A, 1);
    let up = InputEvent::new(EV_KEY, KEY_A, 0);
    let r = emit_batch(&[down, up]);
    assert_eq!(r, vec![down, up, InputEvent::syn_report()]);
    let syn = InputEvent::syn_report();
    assert_eq!(r.iter().filter(|e| **e == syn).count(), 1);
}

#[test]
fn emit_writes_records_then_terminator() {
    let down = InputEvent::new(EV_KEY, KEY_A, 1);
    let (first, second) = emit_writes(&[down]);
    assert_eq!(first, encode_events(&[down]));
    assert_eq!(second, vec![0u8; 24]);
}
