use vstd::prelude::*;

verus! {

/// The Adler-32 modulus (RFC 1950): the largest prime below 65536.
pub const ADLER_MOD: u32 = 65521;

/// One Adler-32 step: folds one byte into the running pair `(a, b)`.
pub open spec fn adler_step(acc: (nat, nat), byte: u8) -> (nat, nat) {
    let a2 = ((acc.0 + byte) % 65521) as nat;
    (a2, ((acc.1 + a2) % 65521) as nat)
}

/// Folds a whole byte sequence into a running Adler-32 pair, front to
/// back.
pub open spec fn adler_fold(acc: (nat, nat), data: Seq<u8>) -> (nat, nat)
    decreases data.len(),
{
    if data.len() == 0 {
        acc
    } else {
        adler_fold(adler_step(acc, data[0]), data.skip(1))
    }
}

/// Folding one more byte at the back is one more step.
pub proof fn lemma_adler_fold_push(acc: (nat, nat), data: Seq<u8>, byte: u8)
    ensures
        adler_fold(acc, data.push(byte)) == adler_step(adler_fold(acc, data), byte),
    decreases data.len(),
{
    reveal_with_fuel(adler_fold, 2);
    if data.len() == 0 {
        assert(data.push(byte).skip(1) =~= Seq::<u8>::empty());
        assert(data.push(byte)[0] == byte);
    } else {
        assert(data.push(byte)[0] == data[0]);
        assert(data.push(byte).skip(1) =~= data.skip(1).push(byte));
        lemma_adler_fold_push(adler_step(acc, data[0]), data.skip(1), byte);
    }
}

/// A running Adler-32 checksum accumulator (RFC 1950). `a` starts at 1
/// and `b` at 0; both stay below the modulus.
pub struct Adler32 {
    a: u16,
    b: u16,
}

impl Adler32 {
    /// The mathematical value of the accumulator pair.
    pub closed spec fn model(&self) -> (nat, nat) {
        (self.a as nat, self.b as nat)
    }

    /// Both halves stay reduced modulo 65521.
    pub closed spec fn wf(&self) -> bool {
        self.a < 65521 && self.b < 65521
    }

    /// A fresh accumulator: the fold of the empty sequence.
    pub fn new() -> (r: Adler32)
        ensures
            r.wf(),
            r.model() == adler_fold((1nat, 0nat), Seq::<u8>::empty()),
    {
        Adler32 { a: 1, b: 0 }
    }

    /// Folds `data` into the accumulator, byte by byte.
    pub fn update(&mut self, data: &Vec<u8>)
        requires
            old(self).wf(),
        ensures
            final(self).wf(),
            final(self).model() == adler_fold(old(self).model(), data@),
    {
        proof {
            assert(data@.skip(0) =~= data@);
        }
        let mut i: usize = 0;
        while i < data.len()
            invariant
                i <= data@.len(),
                self.wf(),
                adler_fold(self.model(), data@.skip(i as int)) == adler_fold(
                    old(self).model(),
                    data@,
                ),
            decreases data@.len() - i,
        {
            let ghost pre = self.model();
            let byte = data[i];
            self.a = (((self.a as u32) + (byte as u32)) % ADLER_MOD) as u16;
            self.b = (((self.b as u32) + (self.a as u32)) % ADLER_MOD) as u16;
            proof {
                assert(self.model() == adler_step(pre, byte));
                assert(data@.skip(i as int)[0] == data@[i as int]);
                assert(data@.skip(i as int).skip(1) =~= data@.skip(i + 1));
            }
            i = i + 1;
        }
        proof {
            assert(data@.skip(data@.len() as int) =~= Seq::<u8>::empty());
        }
    }

    /// The finished checksum: `b * 65536 + a`.
    pub fn finish(&self) -> (r: u32)
        requires
            self.wf(),
        ensures
            r == self.model().1 * 65536 + self.model().0,
    {
        (self.b as u32) * 65536 + (self.a as u32)
    }
}

} // verus!
