//! Capability declaration and the setup record of a new device.
use crate::capability::{ascending_below, lemma_ascending_contents, CapabilitySet, Category};
use vstd::prelude::*;

verus! {

/// Capacity of the kernel's device-name buffer, terminator included.
pub const UINPUT_MAX_NAME_SIZE: usize = 80;

/// Bus type of a USB device.
pub const BUS_USB: u16 = 0x03;

/// One capability declaration to the control handle, in the order it must be issued.
#[derive(Clone, Copy, Debug, PartialEq, Eq, Structural)]
pub enum Command {
    SetEvBit(u16),
    SetKeyBit(u16),
    SetLedBit(u16),
    SetMscBit(u16),
    SetRelBit(u16),
    SetSwBit(u16),
}

/// The declaration of one code of `cat`.
pub open spec fn code_command(cat: Category, code: u16) -> Command {
    match cat {
        Category::Key => Command::SetKeyBit(code),
        Category::Led => Command::SetLedBit(code),
        Category::Relative => Command::SetRelBit(code),
        Category::Switch => Command::SetSwBit(code),
        Category::Misc => Command::SetMscBit(code),
    }
}

/// The declarations for `codes` of `cat`: the event type first, then each code in turn.
pub open spec fn declaration(cat: Category, codes: Seq<u16>) -> Seq<Command> {
    seq![Command::SetEvBit(cat.spec_event_type())] + codes.map_values(
        |c: u16| code_command(cat, c),
    )
}

/// The codes of `cat` that `cmds` declares.
pub open spec fn declared_codes(cmds: Seq<Command>, cat: Category) -> Set<u16> {
    Set::new(|c: u16| cmds.contains(code_command(cat, c)))
}

fn make_code_command(cat: Category, code: u16) -> (r: Command)
    ensures
        r == code_command(cat, code),
{
    match cat {
        Category::Key => Command::SetKeyBit(code),
        Category::Led => Command::SetLedBit(code),
        Category::Relative => Command::SetRelBit(code),
        Category::Switch => Command::SetSwBit(code),
        Category::Misc => Command::SetMscBit(code),
    }
}

/// The declarations that announce `set`: its event type, then its codes in ascending order.
pub fn declare(set: &CapabilitySet) -> (r: Vec<Command>)
    requires
        set.wf(),
    ensures
        r@ == declaration(set.kind(), ascending_below(set@, set.kind().capacity())),
{
    let cat = set.category();
    let codes = set.iter();
    let mut r: Vec<Command> = Vec::new();
    r.push(Command::SetEvBit(cat.event_type()));
    let mut i: usize = 0;
    while i < codes.len()
        invariant
            i <= codes@.len(),
            r@.len() == i + 1,
            r@[0] == Command::SetEvBit(cat.spec_event_type()),
            forall|k: int| 0 <= k < i ==> r@[k + 1] == code_command(cat, codes@[k]),
        decreases codes.len() - i,
    {
        r.push(make_code_command(cat, codes[i]));
        i = i + 1;
    }
    assert(r@ =~= declaration(cat, codes@));
    r
}

/// Declaring a capability set announces its event type first and then exactly the
/// codes of the set, each once, in ascending order.
pub proof fn lemma_declaration_exact(set: &CapabilitySet)
    requires
        set.wf(),
    ensures
        ({
            let cat = set.kind();
            let d = declaration(cat, ascending_below(set@, cat.capacity()));
            &&& d[0] == Command::SetEvBit(cat.spec_event_type())
            &&& declared_codes(d, cat) == set@
            &&& forall|i: int, j: int|
                1 <= i < j < d.len() ==> d[i] != d[j]
        }),
{
    let cat = set.kind();
    let codes = ascending_below(set@, cat.capacity());
    let d = declaration(cat, codes);
    set.lemma_codes_in_range();
    lemma_ascending_contents(set@, cat.capacity());
    crate::capability::lemma_ascending_sorted(set@, cat.capacity());
    assert forall|c: u16| declared_codes(d, cat).contains(c) == set@.contains(c) by {
        if d.contains(code_command(cat, c)) {
            let i = choose|i: int| 0 <= i < d.len() && d[i] == code_command(cat, c);
            assert(i >= 1);
            assert(d[i] == code_command(cat, codes[i - 1]));
            assert(codes[i - 1] == c);
            assert(codes.contains(c));
        }
        if set@.contains(c) {
            assert(codes.contains(c));
            let k = choose|k: int| 0 <= k < codes.len() && codes[k] == c;
            assert(d[k + 1] == code_command(cat, c));
        }
    }
    assert(declared_codes(d, cat) =~= set@);
    assert forall|i: int, j: int| 1 <= i < j < d.len() implies d[i] != d[j] by {
        assert(codes[i - 1] < codes[j - 1]);
    }
}

/// Bus identity of a device.
#[derive(Clone, Copy, Debug, PartialEq, Eq, Structural)]
pub struct InputId {
    pub bustype: u16,
    pub vendor: u16,
    pub product: u16,
    pub version: u16,
}

impl InputId {
    pub fn new(bustype: u16, vendor: u16, product: u16, version: u16) -> (r: Self)
        ensures
            r == (InputId { bustype, vendor, product, version }),
    {
        InputId { bustype, vendor, product, version }
    }
}

/// The identity a device gets when none is given.
pub open spec fn default_id() -> InputId {
    InputId { bustype: BUS_USB, vendor: 0x1234, product: 0x5678, version: 0x111 }
}

/// `name` followed by zero bytes up to the buffer's capacity.
pub open spec fn padded_name(name: Seq<u8>) -> Seq<u8> {
    name + Seq::new((UINPUT_MAX_NAME_SIZE - name.len()) as nat, |i: int| 0u8)
}

/// The record handed to the kernel's setup call.
#[derive(Debug)]
pub struct SetupRecord {
    pub id: InputId,
    pub name: Vec<u8>,
    pub ff_effects_max: u32,
}

/// Everything a device is created from: the declarations in the order they are
/// issued, then the setup record.
#[derive(Debug)]
pub struct DeviceSetup {
    pub commands: Vec<Command>,
    pub setup: SetupRecord,
}

#[derive(Clone, Copy, Debug, PartialEq, Eq, Structural)]
pub enum BuildError {
    /// The name with its terminator does not fit in the name buffer.
    NameTooLong { len: usize },
}

/// Accumulates a device's name, identity and capability declarations.
pub struct VirtualDeviceBuilder {
    name: Vec<u8>,
    id: Option<InputId>,
    commands: Vec<Command>,
}

impl VirtualDeviceBuilder {
    pub closed spec fn spec_name(&self) -> Seq<u8> {
        self.name@
    }

    pub closed spec fn spec_id(&self) -> Option<InputId> {
        self.id
    }

    pub closed spec fn spec_commands(&self) -> Seq<Command> {
        self.commands@
    }

    /// A builder with an empty name, no identity and nothing declared.
    pub fn new() -> (r: Self)
        ensures
            r.spec_name() == Seq::<u8>::empty(),
            r.spec_id() == None::<InputId>,
            r.spec_commands() == Seq::<Command>::empty(),
    {
        VirtualDeviceBuilder { name: Vec::new(), id: None, commands: Vec::new() }
    }

    /// Sets the device name; its length is checked by `build`.
    pub fn name(self, name: &[u8]) -> (r: Self)
        ensures
            r.spec_name() == name@,
            r.spec_id() == self.spec_id(),
            r.spec_commands() == self.spec_commands(),
    {
        let mut v: Vec<u8> = Vec::new();
        let mut i: usize = 0;
        while i < name.len()
            invariant
                i <= name@.len(),
                v@ == name@.take(i as int),
            decreases name.len() - i,
        {
            v.push(name[i]);
            i = i + 1;
            assert(v@ =~= name@.take(i as int));
        }
        assert(name@.take(i as int) =~= name@);
        VirtualDeviceBuilder { name: v, ..self }
    }

    pub fn input_id(self, id: InputId) -> (r: Self)
        ensures
            r.spec_name() == self.spec_name(),
            r.spec_id() == Some(id),
            r.spec_commands() == self.spec_commands(),
    {
        VirtualDeviceBuilder { id: Some(id), ..self }
    }

    /// Appends the declarations of `set`: its event type, then each of its codes in
    /// ascending order.
    pub fn with_capabilities(self, set: &CapabilitySet) -> (r: Self)
        requires
            set.wf(),
        ensures
            r.spec_name() == self.spec_name(),
            r.spec_id() == self.spec_id(),
            r.spec_commands() == self.spec_commands() + declaration(
                set.kind(),
                ascending_below(set@, set.kind().capacity()),
            ),
    {
        let mut b = self;
        let d = declare(set);
        let ghost before = b.commands@;
        let mut i: usize = 0;
        while i < d.len()
            invariant
                i <= d@.len(),
                b.commands@ == before + d@.take(i as int),
                b.name@ == self.name@,
                b.id == self.id,
                before == self.commands@,
            decreases d.len() - i,
        {
            b.commands.push(d[i]);
            i = i + 1;
            assert(b.commands@ =~= before + d@.take(i as int));
        }
        assert(d@.take(i as int) =~= d@);
        b
    }

    pub fn with_keys(self, keys: &CapabilitySet) -> (r: Self)
        requires
            keys.wf(),
            keys.kind() == Category::Key,
        ensures
            r.spec_name() == self.spec_name(),
            r.spec_id() == self.spec_id(),
            r.spec_commands() == self.spec_commands() + declaration(
                Category::Key,
                ascending_below(keys@, Category::Key.capacity()),
            ),
    {
        self.with_capabilities(keys)
    }

    pub fn with_miscs(self, miscs: &CapabilitySet) -> (r: Self)
        requires
            miscs.wf(),
            miscs.kind() == Category::Misc,
        ensures
            r.spec_name() == self.spec_name(),
            r.spec_id() == self.spec_id(),
            r.spec_commands() == self.spec_commands() + declaration(
                Category::Misc,
                ascending_below(miscs@, Category::Misc.capacity()),
            ),
    {
        self.with_capabilities(miscs)
    }

    pub fn with_leds(self, leds: &CapabilitySet) -> (r: Self)
        requires
            leds.wf(),
            leds.kind() == Category::Led,
        ensures
            r.spec_name() == self.spec_name(),
            r.spec_id() == self.spec_id(),
            r.spec_commands() == self.spec_commands() + declaration(
                Category::Led,
                ascending_below(leds@, Category::Led.capacity()),
            ),
    {
        self.with_capabilities(leds)
    }

    pub fn with_relative_axes(self, axes: &CapabilitySet) -> (r: Self)
        requires
            axes.wf(),
            axes.kind() == Category::Relative,
        ensures
            r.spec_name() == self.spec_name(),
            r.spec_id() == self.spec_id(),
            r.spec_commands() == self.spec_commands() + declaration(
                Category::Relative,
                ascending_below(axes@, Category::Relative.capacity()),
            ),
    {
        self.with_capabilities(axes)
    }

    pub fn with_switches(self, switches: &CapabilitySet) -> (r: Self)
        requires
            switches.wf(),
            switches.kind() == Category::Switch,
        ensures
            r.spec_name() == self.spec_name(),
            r.spec_id() == self.spec_id(),
            r.spec_commands() == self.spec_commands() + declaration(
                Category::Switch,
                ascending_below(switches@, Category::Switch.capacity()),
            ),
    {
        self.with_capabilities(switches)
    }

    /// The declarations so far, in the order they are issued.
    pub fn commands(&self) -> (r: &[Command])
        ensures
            r@ == self.spec_commands(),
    {
        self.commands.as_slice()
    }

    pub fn name_bytes(&self) -> (r: &[u8])
        ensures
            r@ == self.spec_name(),
    {
        self.name.as_slice()
    }

    /// Finalizes the builder: checks that the name and its terminator fit the name
    /// buffer, then yields the declarations and the setup record.
    pub fn build(self) -> (r: Result<DeviceSetup, BuildError>)
        ensures
            r is Err <==> self.spec_name().len() + 1 >= UINPUT_MAX_NAME_SIZE,
            r matches Err(e) ==> e == (BuildError::NameTooLong { len: self.spec_name().len() as usize }),
            r matches Ok(d) ==> {
                &&& d.commands@ == self.spec_commands()
                &&& d.setup.id == match self.spec_id() {
                    Some(id) => id,
                    None => default_id(),
                }
                &&& d.setup.name@ == padded_name(self.spec_name())
                &&& d.setup.ff_effects_max == 0
            },
    {
        let len = self.name.len();
        if len >= UINPUT_MAX_NAME_SIZE - 1 {
            return Err(BuildError::NameTooLong { len });
        }
        let mut buf: Vec<u8> = Vec::new();
        let mut i: usize = 0;
        while i < UINPUT_MAX_NAME_SIZE
            invariant
                len == self.name@.len(),
                len + 1 < UINPUT_MAX_NAME_SIZE,
                i <= UINPUT_MAX_NAME_SIZE,
                buf@ == padded_name(self.name@).take(i as int),
            decreases UINPUT_MAX_NAME_SIZE - i,
        {
            if i < len {
                buf.push(self.name[i]);
            } else {
                buf.push(0u8);
            }
            i = i + 1;
            assert(buf@ =~= padded_name(self.name@).take(i as int));
        }
        assert(padded_name(self.name@).take(i as int) =~= padded_name(self.name@));
        let id = match self.id {
            Some(id) => id,
            None => InputId::new(BUS_USB, 0x1234, 0x5678, 0x111),
        };
        Ok(DeviceSetup {
            commands: self.commands,
            setup: SetupRecord { id, name: buf, ff_effects_max: 0 },
        })
    }
}

} // verus!
