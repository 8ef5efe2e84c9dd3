//! The CRC-32 checksum that ZIP archives store for every entry.

use vstd::prelude::*;

verus! {

/// The reflected generator polynomial of CRC-32.
pub const POLYNOMIAL: u32 = 0xEDB8_8320u32;

/// One division step: the register moves right by one bit, and the polynomial
/// is subtracted where a one fell out.
pub open spec fn shift_bit(c: u32) -> u32 {
    if c & 1 == 1 {
        (c >> 1) ^ POLYNOMIAL
    } else {
        c >> 1
    }
}

/// Eight division steps.
pub open spec fn shift_byte(c: u32) -> u32 {
    shift_bit(shift_bit(shift_bit(shift_bit(shift_bit(shift_bit(shift_bit(shift_bit(c))))))))
}

/// The register after the byte `b` has been taken in.
pub open spec fn absorb_byte(c: u32, b: u8) -> u32 {
    shift_byte(c ^ (b as u32))
}

/// The register after all of `bytes` have been taken in, one after the other,
/// starting from the register `c`.
pub open spec fn absorb(c: u32, bytes: Seq<u8>) -> u32
    decreases bytes.len(),
{
    if bytes.len() == 0 {
        c
    } else {
        absorb_byte(absorb(c, bytes.drop_last()), bytes.last())
    }
}

/// The CRC-32 checksum of `bytes`: the register starts with all bits set, and
/// the checksum is its complement at the end.
pub open spec fn crc32(bytes: Seq<u8>) -> u32 {
    absorb(0xFFFF_FFFFu32, bytes) ^ 0xFFFF_FFFFu32
}

proof fn lemma_table_lookup(c: u32, b: u8)
    by (bit_vector)
    ensures
        shift_byte(c ^ (b as u32)) == shift_byte((c ^ (b as u32)) & 0xff) ^ (c >> 8),
        (c ^ (b as u32)) & 0xff < 256,
{
}

fn step_bit(c: u32) -> (r: u32)
    ensures
        r == shift_bit(c),
{
    if c & 1 == 1 {
        (c >> 1) ^ POLYNOMIAL
    } else {
        c >> 1
    }
}

fn step_byte(c: u32) -> (r: u32)
    ensures
        r == shift_byte(c),
{
    step_bit(step_bit(step_bit(step_bit(step_bit(step_bit(step_bit(step_bit(c))))))))
}

/// The result of eight division steps for every byte.
struct Table {
    entries: Vec<u32>,
}

impl Table {
    #[verifier::type_invariant]
    spec fn filled(&self) -> bool {
        &&& self.entries@.len() == 256
        &&& forall|i: int| 0 <= i < 256 ==> self.entries@[i] == shift_byte(i as u32)
    }

    /// What the table holds, entry by entry.
    closed spec fn values(&self) -> Seq<u32> {
        self.entries@
    }

    /// Computes the table: one entry for every byte, which holds what eight
    /// division steps make of that byte.
    fn new() -> (r: Table)
        ensures
            r.values().len() == 256,
            forall|i: int| 0 <= i < 256 ==> r.values()[i] == shift_byte(i as u32),
    {
        let mut entries: Vec<u32> = Vec::new();
        let mut i: u32 = 0;
        while i < 256
            invariant
                i <= 256,
                entries@.len() == i,
                forall|j: int| 0 <= j < i ==> entries@[j] == shift_byte(j as u32),
            decreases 256 - i,
        {
            entries.push(step_byte(i));
            i = i + 1;
        }
        Table { entries }
    }

    /// Looks up what eight division steps make of the byte `x`.
    fn get(&self, x: u32) -> (r: u32)
        requires
            x < 256,
        ensures
            r == self.values()[x as int],
            r == shift_byte(x),
    {
        proof {
            use_type_invariant(self);
        }
        self.entries[x as usize]
    }
}

/// A register together with the bytes that led to it.
struct Sum {
    register: u32,
    seen: Ghost<Seq<u8>>,
}

impl Sum {
    #[verifier::type_invariant]
    spec fn matched(&self) -> bool {
        self.register == absorb(0xFFFF_FFFFu32, self.seen@)
    }
}

/// A running CRC-32 over the bytes handed to it so far.
pub struct Crc32 {
    table: Table,
    sum: Sum,
}

impl Crc32 {
    /// All bytes taken in so far, in order.
    pub closed spec fn bytes(&self) -> Seq<u8> {
        self.sum.seen@
    }

    /// A checksum over no bytes yet.
    pub fn new() -> (r: Crc32)
        ensures
            r.bytes() == Seq::<u8>::empty(),
    {
        Crc32 { table: Table::new(), sum: Sum { register: 0xFFFF_FFFFu32, seen: Ghost(Seq::empty()) } }
    }

    /// Takes in `data` after what was taken in before.
    pub fn update(&mut self, data: &[u8])
        ensures
            final(self).bytes() == old(self).bytes() + data@,
    {
        proof {
            use_type_invariant(&self.sum);
        }
        let ghost before = self.sum.seen@;
        let mut c: u32 = self.sum.register;
        let mut i: usize = 0;
        while i < data.len()
            invariant
                i <= data.len(),
                c == absorb(0xFFFF_FFFFu32, before + data@.subrange(0, i as int)),
            decreases data.len() - i,
        {
            let b: u8 = data[i];
            let x: u32 = (c ^ (b as u32)) & 0xff;
            proof {
                lemma_table_lookup(c, b);
                let shorter = before + data@.subrange(0, i as int);
                let longer = before + data@.subrange(0, i + 1);
                assert(longer.drop_last() =~= shorter);
                assert(longer.last() == b);
            }
            c = self.table.get(x) ^ (c >> 8);
            i = i + 1;
        }
        proof {
            assert(data@.subrange(0, data.len() as int) =~= data@);
        }
        self.sum = Sum { register: c, seen: Ghost(before + data@) };
    }

    /// The checksum of everything taken in so far.
    pub fn value(&self) -> (r: u32)
        ensures
            r == crc32(self.bytes()),
    {
        proof {
            use_type_invariant(&self.sum);
        }
        self.sum.register ^ 0xFFFF_FFFFu32
    }
}

} // verus!
