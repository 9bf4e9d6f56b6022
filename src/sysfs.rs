//! Discovery of the event node that the kernel creates beside a new device.
use vstd::prelude::*;
use vstd::string::StringExecFns;

verus! {

/// Size of the buffer into which the kernel writes a device's short name.
pub const SYSNAME_SIZE: usize = 32;

#[derive(Clone, Copy, Debug, PartialEq, Eq, Structural)]
pub enum ResolveError {
    /// The short name is not valid UTF-8 text.
    InvalidName,
    /// The device's topology directory holds no event entry.
    NoEventNode,
}

/// The text that a byte string holds as UTF-8, if it is valid UTF-8.
pub uninterp spec fn utf8_text(b: Seq<u8>) -> Option<Seq<char>>;

/// Relies on std::str::from_utf8: it accepts exactly the valid UTF-8 byte strings,
/// and the text it yields depends on the bytes alone.
#[verifier::external_body]
fn utf8_string(bytes: &[u8]) -> (r: Option<String>)
    ensures
        r is None <==> utf8_text(bytes@) is None,
        r matches Some(s) ==> utf8_text(bytes@) == Some(s@),
{
    match std::str::from_utf8(bytes) {
        Ok(s) => Some(s.to_owned()),
        Err(_) => None,
    }
}

/// The bytes of `buf` before its first zero byte; all of `buf` if it has none.
pub open spec fn sysname_bytes(buf: Seq<u8>) -> Seq<u8>
    decreases buf.len(),
{
    if buf.len() == 0 {
        seq![]
    } else if buf[0] == 0 {
        seq![]
    } else {
        seq![buf[0]] + sysname_bytes(buf.skip(1))
    }
}

/// Length of the name in `buf`: the index of its first zero byte, or its length.
pub fn sysname_len(buf: &[u8]) -> (r: usize)
    ensures
        r <= buf@.len(),
        buf@.take(r as int) == sysname_bytes(buf@),
{
    let mut i: usize = 0;
    assert(buf@.skip(0) =~= buf@);
    assert(buf@.take(0) + sysname_bytes(buf@) =~= sysname_bytes(buf@));
    while i < buf.len()
        invariant
            i <= buf@.len(),
            sysname_bytes(buf@) == buf@.take(i as int) + sysname_bytes(buf@.skip(i as int)),
        decreases buf.len() - i,
    {
        let ghost rest = buf@.skip(i as int);
        assert(rest[0] == buf@[i as int]);
        if buf[i] == 0 {
            assert(sysname_bytes(rest) == Seq::<u8>::empty());
            assert(buf@.take(i as int) + Seq::<u8>::empty() =~= buf@.take(i as int));
            return i;
        }
        assert(rest.skip(1) =~= buf@.skip(i + 1));
        assert(buf@.take(i as int) + (seq![buf@[i as int]] + sysname_bytes(buf@.skip(i + 1)))
            =~= buf@.take(i + 1) + sysname_bytes(buf@.skip(i + 1)));
        i = i + 1;
    }
    assert(buf@.skip(i as int).len() == 0);
    assert(buf@.take(i as int) + sysname_bytes(buf@.skip(i as int)) =~= buf@.take(i as int));
    i
}

/// The device's short name, read from the buffer the kernel filled: the bytes up to
/// the first zero byte (or all of them), decoded as UTF-8.
pub fn decode_sysname(buf: &[u8]) -> (r: Result<String, ResolveError>)
    ensures
        r is Err <==> utf8_text(sysname_bytes(buf@)) is None,
        r matches Err(e) ==> e == ResolveError::InvalidName,
        r matches Ok(s) ==> utf8_text(sysname_bytes(buf@)) == Some(s@),
{
    let n = sysname_len(buf);
    let name = &buf[0..n];
    assert(name@ =~= sysname_bytes(buf@));
    match utf8_string(name) {
        Some(s) => Ok(s),
        None => Err(ResolveError::InvalidName),
    }
}

/// Directory under which the kernel lists the nodes of virtual input devices.
pub open spec fn topology_root() -> Seq<char> {
    "/sys/devices/virtual/input/"@
}

/// The topology directory of the device with short name `name`.
pub fn topology_dir(name: &str) -> (r: String)
    ensures
        r@ == topology_root() + name@,
{
    let mut r = "/sys/devices/virtual/input/".to_owned();
    r.append(name);
    r
}

/// The prefix that marks the event node among a device's topology entries.
pub open spec fn event_prefix() -> Seq<u8> {
    seq![0x65u8, 0x76u8, 0x65u8, 0x6eu8, 0x74u8]
}

pub open spec fn is_event_name(fname: Seq<u8>) -> bool {
    fname.len() >= 5 && fname.take(5) == event_prefix()
}

/// Whether a topology entry names an event node.
pub fn is_event_entry(fname: &[u8]) -> (r: bool)
    ensures
        r == is_event_name(fname@),
{
    if fname.len() < 5 {
        return false;
    }
    let r = fname[0] == 0x65u8 && fname[1] == 0x76u8 && fname[2] == 0x65u8 && fname[3] == 0x6eu8
        && fname[4] == 0x74u8;
    assert(r <==> fname@.take(5) =~= event_prefix());
    r
}

/// The first entry that names an event node.
pub fn find_event_entry(entries: &[Vec<u8>]) -> (r: Option<usize>)
    ensures
        r matches Some(i) ==> i < entries@.len() && is_event_name(entries@[i as int]@),
        r matches Some(i) ==> forall|j: int| 0 <= j < i ==> !is_event_name(#[trigger] entries@[j]@),
        r is None ==> forall|j: int| 0 <= j < entries@.len() ==> !is_event_name(#[trigger] entries@[j]@),
{
    let mut i: usize = 0;
    while i < entries.len()
        invariant
            i <= entries@.len(),
            forall|j: int| 0 <= j < i ==> !is_event_name(#[trigger] entries@[j]@),
        decreases entries.len() - i,
    {
        if is_event_entry(entries[i].as_slice()) {
            return Some(i);
        }
        i = i + 1;
    }
    None
}

/// Directory of the input device nodes, as bytes.
pub open spec fn input_dir() -> Seq<u8> {
    seq![0x2fu8, 0x64u8, 0x65u8, 0x76u8, 0x2fu8, 0x69u8, 0x6eu8, 0x70u8, 0x75u8, 0x74u8, 0x2fu8]
}

/// Path of the event node named by the first event entry among `entries`, the
/// entries of a device's topology directory.
pub fn select_event_node(entries: &[Vec<u8>]) -> (r: Result<Vec<u8>, ResolveError>)
    ensures
        r is Err <==> forall|j: int| 0 <= j < entries@.len() ==> !is_event_name(#[trigger] entries@[j]@),
        r matches Err(e) ==> e == ResolveError::NoEventNode,
        r matches Ok(p) ==> exists|i: int|
            0 <= i < entries@.len() && is_event_name(entries@[i]@) && (forall|j: int|
                0 <= j < i ==> !is_event_name(#[trigger] entries@[j]@)) && p@ == input_dir()
                + entries@[i]@,
{
    match find_event_entry(entries) {
        None => Err(ResolveError::NoEventNode),
        Some(i) => {
            let mut p: Vec<u8> = vec![0x2fu8, 0x64u8, 0x65u8, 0x76u8, 0x2fu8, 0x69u8, 0x6eu8, 0x70u8, 0x75u8, 0x74u8, 0x2fu8];
            assert(p@ =~= input_dir());
            let name = &entries[i];
            let mut k: usize = 0;
            while k < name.len()
                invariant
                    k <= name@.len(),
                    p@ == input_dir() + name@.take(k as int),
                decreases name.len() - k,
            {
                p.push(name[k]);
                k = k + 1;
                assert(p@ =~= input_dir() + name@.take(k as int));
            }
            assert(name@.take(k as int) =~= name@);
            Ok(p)
        }
    }
}

} // verus!
