use uinput::builder::{BuildError, Command, InputId, VirtualDeviceBuilder, BUS_USB, UINPUT_MAX_NAME_SIZE};
use uinput::capability::{CapabilitySet, Category};
use uinput::event::{emit_batch, InputEvent};

const EV_KEY: u16 = 1;
const KEY_LEFTCTRL: u16 = 29;
const KEY_A: u16 = 30;

fn keys(codes: &[u16]) -> CapabilitySet {
    let mut s = CapabilitySet::new(Category::Key);
    for c in codes {
        s.insert(*c);
    }
    s
}

fn key_bitmap(codes: &[u16]) -> Vec<u8> {
    let mut raw = vec![0u8; 96];
    for c in codes {
        raw[(*c / 8) as usize] |= 1 << (*c % 8);
    }
    raw
}

#[test]
fn single_key_device_round() {
    let set = keys(&[KEY_A]);
    let setup = VirtualDeviceBuilder::new().name(b"Test").with_keys(&set).build().unwrap();
    assert_eq!(setup.commands, vec![Command::SetEvBit(EV_KEY), Command::SetKeyBit(KEY_A)]);
    let mut name = b"Test".to_vec();
    name.resize(UINPUT_MAX_NAME_SIZE, 0);
    assert_eq!(setup.setup.name, name);
    assert_eq!(setup.setup.ff_effects_max, 0);
    assert_eq!(setup.setup.id, InputId::new(BUS_USB, 0x1234, 0x5678, 0x111));

    let down = InputEvent::new(EV_KEY, KEY_A, 1);
    assert_eq!(emit_batch(&[down]), vec![down, InputEvent::syn_report()]);
    let pressed = CapabilitySet::from_bits(Category::Key, &key_bitmap(&[KEY_A]));
    assert_eq!(pressed.iter(), vec![KEY_A]);

    let up = InputEvent::new(EV_KEY, KEY_A, 0);
    assert_eq!(emit_batch(&[up]), vec![up, InputEvent::syn_report()]);
    let released = CapabilitySet::from_bits(Category::Key, &key_bitmap(&[]));
    assert!(released.iter().is_empty());
}

#[test]
fn chord_is_one_batch() {
    let set = keys(&[KEY_A, KEY_LEFTCTRL]);
    let setup = VirtualDeviceBuilder::new().name(b"Chord").with_keys(&set).build().unwrap();
    assert_eq!(
        setup.commands,
        vec![Command::SetEvBit(EV_KEY), Command::SetKeyBit(KEY_LEFTCTRL), Command::SetKeyBit(KEY_A)]
    );
    let ctrl = InputEvent::new(EV_KEY, KEY_LEFTCTRL, 1);
    let a = InputEvent::new(EV_KEY, KEY_A, 1);
    let batch = emit_batch(&[ctrl, a]);
    let syn = InputEvent::syn_report();
    assert_eq!(batch.iter().filter(|e| **e == syn).count(), 1);
    assert_eq!(*batch.last().unwrap(), syn);
    let state = CapabilitySet::from_bits(Category::Key, &key_bitmap(&[KEY_LEFTCTRL, KEY_A]));
    assert_eq!(state.iter(), vec![KEY_LEFTCTRL, KEY_A]);
}

#[test]
fn name_of_full_capacity_is_refused() {
    let name = vec![b'x'; UINPUT_MAX_NAME_SIZE];
    let r = VirtualDeviceBuilder::new().name(&name).with_keys(&keys(&[KEY_A])).build();
    assert_eq!(r.unwrap_err(), BuildError::NameTooLong { len: 80 });
}

#[test]
fn name_without_room_for_terminator_is_refused() {
    let name = vec![b'x'; UINPUT_MAX_NAME_SIZE - 1];
    let r = VirtualDeviceBuilder::new().name(&name).build();
    assert_eq!(r.unwrap_err(), BuildError::NameTooLong { len: 79 });
}

#[test]
fn longest_accepted_name() {
    let name = vec![b'x'; UINPUT_MAX_NAME_SIZE - 2];
    let setup = VirtualDeviceBuilder::new().name(&name).build().unwrap();
    assert_eq!(&setup.setup.name[..78], &name[..]);
    assert_eq!(&setup.setup.name[78..], &[0u8, 0][..]);
    assert!(setup.commands.is_empty());
}

#[test]
fn empty_name_builds() {
    let setup = VirtualDeviceBuilder::new().build().unwrap();
    assert_eq!(setup.setup.name, vec![0u8; UINPUT_MAX_NAME_SIZE]);
}

#[test]
fn given_identity_is_kept() {
    let id = InputId::new(0x06, 1, 2, 3);
    let setup = VirtualDeviceBuilder::new().name(b"Id").input_id(id).build().unwrap();
    assert_eq!(setup.setup.id, id);
}

#[test]
fn each_category_declares_its_event_type_first() {
    let mut leds = CapabilitySet::new(Category::Led);
    leds.insert(2);
    leds.insert(0);
    let mut miscs = CapabilitySet::new(Category::Misc);
    miscs.insert(4);
    let mut rels = CapabilitySet::new(Category::Relative);
    rels.insert(1);
    rels.insert(0);
    let mut sws = CapabilitySet::new(Category::Switch);
    sws.insert(5);
    let b = VirtualDeviceBuilder::new()
        .with_leds(&leds)
        .with_miscs(&miscs)
        .with_relative_axes(&rels)
        .with_switches(&sws);
    assert_eq!(
        b.commands(),
        &[
            Command::SetEvBit(0x11),
            Command::SetLedBit(0),
            Command::SetLedBit(2),
            Command::SetEvBit(0x04),
            Command::SetMscBit(4),
            Command::SetEvBit(0x02),
            Command::SetRelBit(0),
            Command::SetRelBit(1),
            Command::SetEvBit(0x05),
            Command::SetSwBit(5),
        ][..]
    );
}

#[test]
fn empty_set_declares_only_the_event_type() {
    let b = VirtualDeviceBuilder::new().with_keys(&CapabilitySet::new(Category::Key));
    assert_eq!(b.commands(), &[Command::SetEvBit(EV_KEY)][..]);
    assert!(b.name_bytes().is_empty());
}
