//! Fixed-size capability bitmaps, one per event category.
use vstd::prelude::*;

verus! {

/// An event category whose codes a device may declare or report.
#[derive(Clone, Copy, Debug, PartialEq, Eq, Structural)]
pub enum Category {
    Key,
    Led,
    Relative,
    Switch,
    Misc,
}

pub const EV_SYN: u16 = 0x00;
pub const EV_KEY: u16 = 0x01;
pub const EV_REL: u16 = 0x02;
pub const EV_MSC: u16 = 0x04;
pub const EV_SW: u16 = 0x05;
pub const EV_LED: u16 = 0x11;

impl Category {
    /// Number of codes in the category's code space (its largest code plus one).
    pub open spec fn capacity(self) -> nat {
        match self {
            Category::Key => 768,
            Category::Led => 16,
            Category::Relative => 16,
            Category::Switch => 17,
            Category::Misc => 8,
        }
    }

    /// Number of bytes of the category's bitmap.
    pub open spec fn byte_len(self) -> nat {
        (self.capacity() + 7) / 8
    }

    /// The event type under which codes of this category travel.
    pub open spec fn spec_event_type(self) -> u16 {
        match self {
            Category::Key => EV_KEY,
            Category::Led => EV_LED,
            Category::Relative => EV_REL,
            Category::Switch => EV_SW,
            Category::Misc => EV_MSC,
        }
    }

    pub fn code_count(self) -> (r: u16)
        ensures
            r as nat == self.capacity(),
    {
        match self {
            Category::Key => 768,
            Category::Led => 16,
            Category::Relative => 16,
            Category::Switch => 17,
            Category::Misc => 8,
        }
    }

    pub fn bitmap_len(self) -> (r: usize)
        ensures
            r as nat == self.byte_len(),
    {
        match self {
            Category::Key => 96,
            Category::Led => 2,
            Category::Relative => 2,
            Category::Switch => 3,
            Category::Misc => 1,
        }
    }

    pub fn event_type(self) -> (r: u16)
        ensures
            r == self.spec_event_type(),
    {
        match self {
            Category::Key => EV_KEY,
            Category::Led => EV_LED,
            Category::Relative => EV_REL,
            Category::Switch => EV_SW,
            Category::Misc => EV_MSC,
        }
    }
}

/// Whether bit `c` of a little-endian-within-byte bitmap is set.
pub open spec fn bitmap_has(bits: Seq<u8>, c: int) -> bool {
    (bits[c / 8] >> ((c % 8) as u8)) & 1u8 == 1u8
}

/// The set of codes of `cat` whose bits `raw` sets.
pub open spec fn decoded(cat: Category, raw: Seq<u8>) -> Set<u16> {
    Set::new(|c: u16| (c as nat) < cat.capacity() && bitmap_has(raw, c as int))
}

/// The codes of `s` below `n`, in ascending order.
pub open spec fn ascending_below(s: Set<u16>, n: nat) -> Seq<u16>
    decreases n,
{
    if n == 0 {
        seq![]
    } else {
        let prev = ascending_below(s, (n - 1) as nat);
        if s.contains((n - 1) as u16) {
            prev.push((n - 1) as u16)
        } else {
            prev
        }
    }
}

/// The ascending enumeration below `n` holds exactly the codes of `s` below `n`.
pub proof fn lemma_ascending_contents(s: Set<u16>, n: nat)
    requires
        n <= 0x10000,
    ensures
        forall|x: u16| #[trigger]
            ascending_below(s, n).contains(x) <==> (s.contains(x) && (x as nat) < n),
    decreases n,
{
    broadcast use vstd::seq_lib::lemma_seq_contains_after_push;

    if n > 0 {
        let m = (n - 1) as nat;
        lemma_ascending_contents(s, m);
        let p = ascending_below(s, m);
        assert forall|x: u16| #[trigger]
            ascending_below(s, n).contains(x) <==> (s.contains(x) && (x as nat) < n) by {
            if s.contains(m as u16) {
                assert(ascending_below(s, n) == p.push(m as u16));
                assert(p.push(m as u16).contains(x) <==> (p.contains(x) || x == m as u16));
            }
        }
    }
}

/// The ascending enumeration below `n` is strictly increasing.
pub proof fn lemma_ascending_sorted(s: Set<u16>, n: nat)
    requires
        n <= 0x10000,
    ensures
        forall|i: int, j: int|
            0 <= i < j < ascending_below(s, n).len() ==> ascending_below(s, n)[i]
                < ascending_below(s, n)[j],
    decreases n,
{
    if n > 0 {
        let m = (n - 1) as nat;
        lemma_ascending_sorted(s, m);
        lemma_ascending_contents(s, m);
        let p = ascending_below(s, m);
        assert forall|i: int| 0 <= i < p.len() implies p[i] < m by {
            assert(p.contains(p[i]));
        }
    }
}

proof fn lemma_or_bit(b: u8, j: u8, k: u8) by (bit_vector)
    requires
        j < 8,
        k < 8,
    ensures
        ((b | (1u8 << j)) >> k) & 1u8 == 1u8 <==> (k == j || (b >> k) & 1u8 == 1u8),
{
}

/// A set of codes of one category, held as the bitmap that the kernel reads and fills.
pub struct CapabilitySet {
    category: Category,
    bits: Vec<u8>,
}

impl View for CapabilitySet {
    type V = Set<u16>;

    closed spec fn view(&self) -> Set<u16> {
        decoded(self.category, self.bits@)
    }
}

impl CapabilitySet {
    pub closed spec fn wf(&self) -> bool {
        self.bits.len() == self.category.byte_len()
    }

    pub closed spec fn kind(&self) -> Category {
        self.category
    }

    /// An empty set of the given category.
    pub fn new(category: Category) -> (r: Self)
        ensures
            r.wf(),
            r.kind() == category,
            r@ == Set::<u16>::empty(),
    {
        let n = category.bitmap_len();
        let mut bits: Vec<u8> = Vec::new();
        let mut i: usize = 0;
        while i < n
            invariant
                i <= n,
                bits.len() == i,
                forall|j: int| 0 <= j < i ==> bits@[j] == 0u8,
            decreases n - i,
        {
            bits.push(0u8);
            i = i + 1;
        }
        let r = CapabilitySet { category, bits };
        assert forall|c: u16| !r@.contains(c) by {
            if (c as nat) < category.capacity() {
                let b = r.bits@[(c / 8) as int];
                let k = (c % 8) as u8;
                assert(b == 0u8);
                assert((0u8 >> k) & 1u8 == 0u8) by (bit_vector);
            }
        }
        assert(r@ =~= Set::<u16>::empty());
        r
    }

    /// Every code of the set lies in the category's code space.
    pub proof fn lemma_codes_in_range(&self)
        ensures
            forall|c: u16| #[trigger] self@.contains(c) ==> (c as nat) < self.kind().capacity(),
    {
    }

    pub fn category(&self) -> (r: Category)
        ensures
            r == self.kind(),
    {
        self.category
    }

    /// Adds `code`; adding a code already present changes nothing.
    pub fn insert(&mut self, code: u16)
        requires
            old(self).wf(),
            (code as nat) < old(self).kind().capacity(),
        ensures
            final(self).wf(),
            final(self).kind() == old(self).kind(),
            final(self)@ == old(self)@.insert(code),
    {
        let i: usize = (code / 8) as usize;
        let j: u8 = (code % 8) as u8;
        let b = self.bits[i];
        let nb = b | (1u8 << j);
        self.bits.set(i, nb);
        proof {
            let o = old(self).bits@;
            let n = self.bits@;
            assert forall|c: u16| #[trigger] self@.contains(c) == old(self)@.insert(code).contains(c) by {
                if (c as nat) < self.category.capacity() {
                    if c / 8 == code / 8 {
                        lemma_or_bit(b, j, (c % 8) as u8);
                    } else {
                        assert(n[(c / 8) as int] == o[(c / 8) as int]);
                    }
                }
            }
            assert(self@ =~= old(self)@.insert(code));
        }
    }

    pub fn contains(&self, code: u16) -> (r: bool)
        requires
            self.wf(),
        ensures
            r == self@.contains(code),
    {
        if code >= self.category.code_count() {
            false
        } else {
            let b = self.bits[(code / 8) as usize];
            (b >> ((code % 8) as u8)) & 1u8 == 1u8
        }
    }

    /// The codes of the set, in ascending order.
    pub fn iter(&self) -> (r: Vec<u16>)
        requires
            self.wf(),
        ensures
            r@ == ascending_below(self@, self.kind().capacity()),
    {
        let n = self.category.code_count();
        let mut r: Vec<u16> = Vec::new();
        let mut c: u16 = 0;
        while c < n
            invariant
                self.wf(),
                c <= n,
                n as nat == self.kind().capacity(),
                r@ == ascending_below(self@, c as nat),
            decreases n - c,
        {
            if self.contains(c) {
                r.push(c);
            }
            c = c + 1;
        }
        r
    }

    /// The set as the kernel's bitmap of the category.
    pub fn as_bits(&self) -> (r: &[u8])
        requires
            self.wf(),
        ensures
            r@.len() == self.kind().byte_len(),
            decoded(self.kind(), r@) == self@,
    {
        self.bits.as_slice()
    }

    /// Replaces the contents by the codes that the bitmap `raw` sets.
    pub fn load_bits(&mut self, raw: &[u8])
        requires
            old(self).wf(),
            raw@.len() == old(self).kind().byte_len(),
        ensures
            final(self).wf(),
            final(self).kind() == old(self).kind(),
            final(self)@ == decoded(old(self).kind(), raw@),
    {
        let mut i: usize = 0;
        while i < raw.len()
            invariant
                self.category == old(self).category,
                self.bits.len() == raw@.len(),
                i <= raw@.len(),
                forall|j: int| 0 <= j < i ==> self.bits@[j] == raw@[j],
            decreases raw.len() - i,
        {
            self.bits.set(i, raw[i]);
            i = i + 1;
        }
        assert(self.bits@ =~= raw@);
    }

    /// A set of `category` holding the codes that the bitmap `raw` sets.
    pub fn from_bits(category: Category, raw: &[u8]) -> (r: Self)
        requires
            raw@.len() == category.byte_len(),
        ensures
            r.wf(),
            r.kind() == category,
            r@ == decoded(category, raw@),
    {
        let mut r = CapabilitySet::new(category);
        r.load_bits(raw);
        r
    }
}

} // verus!
