//! Event records, their wire encoding, and the batches written to the device.
use crate::capability::EV_SYN;
use vstd::prelude::*;

verus! {

/// Code of the synchronization record that ends a batch.
pub const SYN_REPORT: u16 = 0;

/// Size in bytes of one encoded record.
pub const RECORD_SIZE: usize = 24;

/// One input event as the kernel exchanges it: a timestamp, a type, a code, a value.
#[derive(Clone, Copy, Debug, PartialEq, Eq, Structural)]
pub struct InputEvent {
    pub time_sec: i64,
    pub time_usec: i64,
    pub event_type: u16,
    pub code: u16,
    pub value: i32,
}

/// The record that terminates every batch.
pub open spec fn sync_record() -> InputEvent {
    InputEvent { time_sec: 0, time_usec: 0, event_type: EV_SYN, code: SYN_REPORT, value: 0 }
}

impl InputEvent {
    /// A record with a zero timestamp; the kernel stamps it on arrival.
    pub fn new(event_type: u16, code: u16, value: i32) -> (r: Self)
        ensures
            r == (InputEvent { time_sec: 0, time_usec: 0, event_type, code, value }),
    {
        InputEvent { time_sec: 0, time_usec: 0, event_type, code, value }
    }

    /// The synchronization record.
    pub fn syn_report() -> (r: Self)
        ensures
            r == sync_record(),
    {
        InputEvent::new(EV_SYN, SYN_REPORT, 0)
    }
}

/// The `n` low bytes of `x`, least significant first.
pub open spec fn le_bytes(x: nat, n: nat) -> Seq<u8>
    decreases n,
{
    if n == 0 {
        seq![]
    } else {
        seq![(x % 256) as u8] + le_bytes(x / 256, (n - 1) as nat)
    }
}

/// The wire layout of one record on a 64-bit little-endian kernel: seconds,
/// microseconds, type, code, value, each least significant byte first.
pub open spec fn event_bytes(e: InputEvent) -> Seq<u8> {
    le_bytes((e.time_sec as u64) as nat, 8) + le_bytes((e.time_usec as u64) as nat, 8)
        + le_bytes(e.event_type as nat, 2) + le_bytes(e.code as nat, 2) + le_bytes(
        (e.value as u32) as nat,
        4,
    )
}

/// The records of `s`, encoded one after the other.
pub open spec fn events_bytes(s: Seq<InputEvent>) -> Seq<u8>
    decreases s.len(),
{
    if s.len() == 0 {
        seq![]
    } else {
        events_bytes(s.drop_last()) + event_bytes(s.last())
    }
}

proof fn lemma_le_bytes_len(x: nat, n: nat)
    ensures
        le_bytes(x, n).len() == n,
    decreases n,
{
    if n > 0 {
        lemma_le_bytes_len(x / 256, (n - 1) as nat);
    }
}

/// Every record takes the same number of bytes.
pub proof fn lemma_event_bytes_len(e: InputEvent)
    ensures
        event_bytes(e).len() == RECORD_SIZE,
{
    lemma_le_bytes_len((e.time_sec as u64) as nat, 8);
    lemma_le_bytes_len((e.time_usec as u64) as nat, 8);
    lemma_le_bytes_len(e.event_type as nat, 2);
    lemma_le_bytes_len(e.code as nat, 2);
    lemma_le_bytes_len((e.value as u32) as nat, 4);
}

fn push_le(out: &mut Vec<u8>, x: u64, n: usize)
    ensures
        final(out)@ == old(out)@ + le_bytes(x as nat, n as nat),
{
    let ghost start = out@;
    let mut v: u64 = x;
    let mut i: usize = 0;
    while i < n
        invariant
            i <= n,
            out@ + le_bytes(v as nat, (n - i) as nat) == start + le_bytes(x as nat, n as nat),
        decreases n - i,
    {
        let ghost before = out@;
        let byte = (v % 256) as u8;
        let ghost rest = le_bytes((v / 256) as nat, (n - i - 1) as nat);
        assert(le_bytes(v as nat, (n - i) as nat) == seq![byte] + rest);
        out.push(byte);
        assert(out@ + rest =~= before + (seq![byte] + rest));
        v = v / 256;
        i = i + 1;
    }
}

fn push_event(out: &mut Vec<u8>, e: InputEvent)
    ensures
        final(out)@ == old(out)@ + event_bytes(e),
{
    let ghost start = out@;
    push_le(out, e.time_sec as u64, 8);
    push_le(out, e.time_usec as u64, 8);
    push_le(out, e.event_type as u64, 2);
    push_le(out, e.code as u64, 2);
    push_le(out, (e.value as u32) as u64, 4);
    assert(out@ =~= start + event_bytes(e));
}

/// The records, encoded one after the other as the kernel reads them.
pub fn encode_events(events: &[InputEvent]) -> (r: Vec<u8>)
    ensures
        r@ == events_bytes(events@),
{
    let mut out: Vec<u8> = Vec::new();
    let mut i: usize = 0;
    while i < events.len()
        invariant
            i <= events@.len(),
            out@ == events_bytes(events@.take(i as int)),
        decreases events.len() - i,
    {
        assert(events@.take(i + 1).drop_last() =~= events@.take(i as int));
        push_event(&mut out, events[i]);
        i = i + 1;
    }
    assert(events@.take(i as int) =~= events@);
    out
}

/// The records of a batch: the given records as they are, then one synchronization record.
pub fn emit_batch(messages: &[InputEvent]) -> (r: Vec<InputEvent>)
    ensures
        r@ == messages@.push(sync_record()),
{
    let mut r: Vec<InputEvent> = Vec::new();
    let mut i: usize = 0;
    while i < messages.len()
        invariant
            i <= messages@.len(),
            r@ == messages@.take(i as int),
        decreases messages.len() - i,
    {
        r.push(messages[i]);
        i = i + 1;
        assert(r@ =~= messages@.take(i as int));
    }
    assert(messages@.take(i as int) =~= messages@);
    r.push(InputEvent::syn_report());
    r
}

/// The two writes that post a batch: first the given records verbatim, then the
/// synchronization record alone.
pub fn emit_writes(messages: &[InputEvent]) -> (r: (Vec<u8>, Vec<u8>))
    ensures
        r.0@ == events_bytes(messages@),
        r.1@ == events_bytes(seq![sync_record()]),
{
    let first = encode_events(messages);
    let syn = [InputEvent::syn_report()];
    let second = encode_events(&syn);
    proof {
        assert(syn@ =~= seq![sync_record()]);
    }
    (first, second)
}

/// Posting a batch of `messages` puts on the wire the records of `messages`
/// followed by exactly one record more, the synchronization record, which is last.
pub proof fn lemma_emit_appends_one_sync(messages: Seq<InputEvent>)
    ensures
        events_bytes(messages) + events_bytes(seq![sync_record()]) == events_bytes(
            messages.push(sync_record()),
        ),
        events_bytes(seq![sync_record()]) == event_bytes(sync_record()),
        event_bytes(sync_record()).len() == RECORD_SIZE,
        messages.push(sync_record()).last() == sync_record(),
        messages.push(sync_record()).drop_last() == messages,
{
    let one = seq![sync_record()];
    assert(one.drop_last() =~= Seq::<InputEvent>::empty());
    assert(events_bytes(one.drop_last()) =~= Seq::<u8>::empty());
    assert(one.last() == sync_record());
    assert(events_bytes(one) =~= event_bytes(sync_record()));
    assert(messages.push(sync_record()).drop_last() =~= messages);
    lemma_event_bytes_len(sync_record());
}

} // verus!
