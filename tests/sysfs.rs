use uinput::sysfs::{decode_sysname, select_event_node, sysname_len, topology_dir, ResolveError};

fn sysname_buffer(name: &[u8]) -> [u8; 32] {
    let mut buf = [0u8; 32];
    buf[..name.len()].copy_from_slice(name);
    buf
}

#[test]
fn sysname_stops_at_first_zero() {
    let buf = sysname_buffer(b"input12");
    assert_eq!(sysname_len(&buf), 7);
    assert_eq!(decode_sysname(&buf).unwrap(), "input12");
}

#[test]
fn sysname_filling_the_buffer_is_taken_whole() {
    let buf = [b'a'; 32];
    assert_eq!(sysname_len(&buf), 32);
    assert_eq!(decode_sysname(&buf).unwrap(), "a".repeat(32));
}

#[test]
fn sysname_that_is_not_text_is_an_error() {
    let buf = sysname_buffer(&[0x69, 0xff, 0xfe]);
    assert_eq!(decode_sysname(&buf), Err(ResolveError::InvalidName));
}

#[test]
fn topology_dir_appends_the_name() {
    assert_eq!(topology_dir("input12"), "/sys/devices/virtual/input/input12");
}

#[test]
fn first_event_entry_is_chosen() {
    let entries = vec![b"name".to_vec(), b"even".to_vec(), b"event3".to_vec(), b"event4".to_vec()];
    assert_eq!(select_event_node(&entries).unwrap(), b"/dev/input/event3".to_vec());
}

#[test]
fn no_event_entry_is_not_found() {
    let entries = vec![b"name".to_vec(), b"capabilities".to_vec(), b"eve".to_vec()];
    assert_eq!(select_event_node(&entries), Err(ResolveError::NoEventNode));
    assert_eq!(select_event_node(&[]), Err(ResolveError::NoEventNode));
}
