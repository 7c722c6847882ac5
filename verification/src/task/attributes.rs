//! The attribute bits of a thread.

use vstd::prelude::*;

verus! {

/// Which attributes a thread carries, as a value of the model.
pub struct Flags {
    /// The thread is runnable: it stands in a run queue or is running.
    pub queued: bool,
    /// The thread chose to block.
    pub asleep: bool,
    /// A wake-up reached the thread while it could not be queued.
    pub awake: bool,
    /// The thread has finished and awaits destruction.
    pub zombie: bool,
}

impl Flags {
    pub open spec fn none() -> Flags {
        Flags { queued: false, asleep: false, awake: false, zombie: false }
    }

    pub open spec fn queued() -> Flags {
        Flags { queued: true, asleep: false, awake: false, zombie: false }
    }

    pub open spec fn asleep() -> Flags {
        Flags { queued: false, asleep: true, awake: false, zombie: false }
    }

    pub open spec fn awake() -> Flags {
        Flags { queued: false, asleep: false, awake: true, zombie: false }
    }

    pub open spec fn zombie() -> Flags {
        Flags { queued: false, asleep: false, awake: false, zombie: true }
    }

    /// Every attribute of `self` or of `other`.
    pub open spec fn union(self, other: Flags) -> Flags {
        Flags {
            queued: self.queued || other.queued,
            asleep: self.asleep || other.asleep,
            awake: self.awake || other.awake,
            zombie: self.zombie || other.zombie,
        }
    }

    /// The attributes of `self` that `other` lacks.
    pub open spec fn difference(self, other: Flags) -> Flags {
        Flags {
            queued: self.queued && !other.queued,
            asleep: self.asleep && !other.asleep,
            awake: self.awake && !other.awake,
            zombie: self.zombie && !other.zombie,
        }
    }

    /// `self` has every attribute of `other`.
    pub open spec fn includes(self, other: Flags) -> bool {
        &&& other.queued ==> self.queued
        &&& other.asleep ==> self.asleep
        &&& other.awake ==> self.awake
        &&& other.zombie ==> self.zombie
    }

    /// The bit pattern that stands for these attributes.
    pub open spec fn bits(self) -> int {
        (if self.queued { 1int } else { 0 }) + (if self.asleep { 2int } else { 0 })
            + (if self.awake { 4int } else { 0 }) + (if self.zombie { 8int } else { 0 })
    }

    /// The letter that a listing of threads shows for these attributes.
    pub open spec fn letter(self) -> char {
        if self.zombie {
            'Z'
        } else if self.awake {
            'W'
        } else if self.asleep {
            'S'
        } else if self.queued {
            'R'
        } else {
            '-'
        }
    }
}

/// The attributes that a bit pattern stands for.
spec fn flags_of(bits: usize) -> Flags {
    Flags {
        queued: bits & 0b0001 != 0,
        asleep: bits & 0b0010 != 0,
        awake: bits & 0b0100 != 0,
        zombie: bits & 0b1000 != 0,
    }
}

/// No bit beyond the four attributes is set.
spec fn known_bits(bits: usize) -> bool {
    bits & !0b1111usize == 0
}

proof fn lemma_single_bits()
    ensures
        flags_of(0) == Flags::none() && known_bits(0),
        flags_of(0b0001) == Flags::queued() && known_bits(0b0001),
        flags_of(0b0010) == Flags::asleep() && known_bits(0b0010),
        flags_of(0b0100) == Flags::awake() && known_bits(0b0100),
        flags_of(0b1000) == Flags::zombie() && known_bits(0b1000),
{
    assert(0usize & 1 == 0 && 0usize & 2 == 0 && 0usize & 4 == 0 && 0usize & 8 == 0 && 0usize
        & !0b1111usize == 0) by (bit_vector);
    assert(1usize & 1 != 0 && 1usize & 2 == 0 && 1usize & 4 == 0 && 1usize & 8 == 0 && 1usize
        & !0b1111usize == 0) by (bit_vector);
    assert(2usize & 1 == 0 && 2usize & 2 != 0 && 2usize & 4 == 0 && 2usize & 8 == 0 && 2usize
        & !0b1111usize == 0) by (bit_vector);
    assert(4usize & 1 == 0 && 4usize & 2 == 0 && 4usize & 4 != 0 && 4usize & 8 == 0 && 4usize
        & !0b1111usize == 0) by (bit_vector);
    assert(8usize & 1 == 0 && 8usize & 2 == 0 && 8usize & 4 == 0 && 8usize & 8 != 0 && 8usize
        & !0b1111usize == 0) by (bit_vector);
}

proof fn lemma_bits_or(a: usize, b: usize)
    requires
        known_bits(a),
        known_bits(b),
    ensures
        flags_of(a | b) == flags_of(a).union(flags_of(b)),
        known_bits(a | b),
{
    assert(((a | b) & 1 != 0 <==> (a & 1 != 0) || (b & 1 != 0)) && ((a | b) & 2 != 0 <==> (a & 2
        != 0) || (b & 2 != 0)) && ((a | b) & 4 != 0 <==> (a & 4 != 0) || (b & 4 != 0)) && ((a | b)
        & 8 != 0 <==> (a & 8 != 0) || (b & 8 != 0)) && (a & !0b1111usize == 0 && b & !0b1111usize
        == 0 ==> (a | b) & !0b1111usize == 0)) by (bit_vector);
}

proof fn lemma_bits_and_not(a: usize, b: usize)
    requires
        known_bits(a),
    ensures
        flags_of(a & !b) == flags_of(a).difference(flags_of(b)),
        known_bits(a & !b),
{
    assert(((a & !b) & 1 != 0 <==> (a & 1 != 0) && !(b & 1 != 0)) && ((a & !b) & 2 != 0 <==> (a
        & 2 != 0) && !(b & 2 != 0)) && ((a & !b) & 4 != 0 <==> (a & 4 != 0) && !(b & 4 != 0)) && ((
    a & !b) & 8 != 0 <==> (a & 8 != 0) && !(b & 8 != 0)) && (a & !0b1111usize == 0 ==> (a & !b)
        & !0b1111usize == 0)) by (bit_vector);
}

proof fn lemma_bits_subset(a: usize, b: usize)
    requires
        known_bits(a),
        known_bits(b),
    ensures
        (a & b == b) <==> flags_of(a).includes(flags_of(b)),
{
    assert(a & !0b1111usize == 0 && b & !0b1111usize == 0 ==> ((a & b == b) <==> ((b & 1 != 0
        ==> a & 1 != 0) && (b & 2 != 0 ==> a & 2 != 0) && (b & 4 != 0 ==> a & 4 != 0) && (b & 8
        != 0 ==> a & 8 != 0)))) by (bit_vector);
}

proof fn lemma_bits_value(a: usize)
    requires
        known_bits(a),
    ensures
        a == flags_of(a).bits(),
{
    assert(a & !0b1111usize == 0 ==> a == (a & 1) + (a & 2) + (a & 4) + (a & 8) && (a & 1 == 0 || a
        & 1 == 1) && (a & 2 == 0 || a & 2 == 2) && (a & 4 == 0 || a & 4 == 4) && (a & 8 == 0 || a
        & 8 == 8)) by (bit_vector);
}

/// The attribute bits of a thread, each of which is set and cleared alone.
#[derive(Debug, Copy, Clone, PartialEq, Eq, Structural)]
pub struct ThreadAttributes {
    bits: usize,
}

impl View for ThreadAttributes {
    type V = Flags;

    closed spec fn view(&self) -> Flags {
        flags_of(self.bits)
    }
}

impl ThreadAttributes {
    #[verifier::type_invariant]
    spec fn only_known_bits(self) -> bool {
        known_bits(self.bits)
    }

    /// No attribute.
    pub fn empty() -> (r: Self)
        ensures
            r@ == Flags::none(),
    {
        proof {
            lemma_single_bits();
        }
        ThreadAttributes { bits: 0 }
    }

    /// `QUEUED`: the thread stands in a run queue or is running.
    pub fn queued() -> (r: Self)
        ensures
            r@ == Flags::queued(),
    {
        proof {
            lemma_single_bits();
        }
        ThreadAttributes { bits: 0b0001 }
    }

    /// `ASLEEP`: the thread chose to block.
    pub fn asleep() -> (r: Self)
        ensures
            r@ == Flags::asleep(),
    {
        proof {
            lemma_single_bits();
        }
        ThreadAttributes { bits: 0b0010 }
    }

    /// `AWAKE`: a wake-up is latched for the thread.
    pub fn awake() -> (r: Self)
        ensures
            r@ == Flags::awake(),
    {
        proof {
            lemma_single_bits();
        }
        ThreadAttributes { bits: 0b0100 }
    }

    /// `ZOMBIE`: the thread has finished and awaits destruction.
    pub fn zombie() -> (r: Self)
        ensures
            r@ == Flags::zombie(),
    {
        proof {
            lemma_single_bits();
        }
        ThreadAttributes { bits: 0b1000 }
    }

    /// The bit pattern: 1 for `QUEUED`, 2 for `ASLEEP`, 4 for `AWAKE`, 8 for `ZOMBIE`.
    pub fn bits(&self) -> (r: usize)
        ensures
            r == self@.bits(),
    {
        proof {
            use_type_invariant(self);
            lemma_bits_value(self.bits);
        }
        self.bits
    }

    pub fn is_empty(&self) -> (r: bool)
        ensures
            r == (self@ == Flags::none()),
    {
        proof {
            use_type_invariant(self);
            lemma_bits_value(self.bits);
        }
        self.bits == 0
    }

    /// Whether every attribute of `other` is set.
    pub fn contains(&self, other: ThreadAttributes) -> (r: bool)
        ensures
            r == self@.includes(other@),
    {
        proof {
            use_type_invariant(self);
            use_type_invariant(&other);
            lemma_bits_subset(self.bits, other.bits);
        }
        (self.bits & other.bits) == other.bits
    }

    /// Sets the attributes of `other`.
    pub fn insert(&mut self, other: ThreadAttributes)
        ensures
            final(self)@ == old(self)@.union(other@),
    {
        proof {
            use_type_invariant(&*self);
            use_type_invariant(&other);
            lemma_bits_or(self.bits, other.bits);
        }
        self.bits = self.bits | other.bits;
    }

    /// Clears the attributes of `other`.
    pub fn remove(&mut self, other: ThreadAttributes)
        ensures
            final(self)@ == old(self)@.difference(other@),
    {
        proof {
            use_type_invariant(&*self);
            lemma_bits_and_not(self.bits, other.bits);
        }
        self.bits = self.bits & !other.bits;
    }

    /// Sets the attributes of `other` and tells whether all of them were set before.
    pub fn test_and_set(&mut self, other: ThreadAttributes) -> (r: bool)
        ensures
            r == old(self)@.includes(other@),
            final(self)@ == old(self)@.union(other@),
    {
        let r = self.contains(other);
        self.insert(other);
        r
    }

    /// Clears the attributes of `other` and tells whether all of them were set before.
    pub fn test_and_clear(&mut self, other: ThreadAttributes) -> (r: bool)
        ensures
            r == old(self)@.includes(other@),
            final(self)@ == old(self)@.difference(other@),
    {
        let r = self.contains(other);
        self.remove(other);
        r
    }

    /// The letter that a listing of threads shows: `Z` for a zombie, else `W`
    /// for a latched wake-up, else `S` for a sleeper, else `R` for a runnable
    /// thread, else `-`.
    pub fn to_char(&self) -> (r: char)
        ensures
            r == self@.letter(),
    {
        if self.contains(Self::zombie()) {
            'Z'
        } else if self.contains(Self::awake()) {
            'W'
        } else if self.contains(Self::asleep()) {
            'S'
        } else if self.contains(Self::queued()) {
            'R'
        } else {
            '-'
        }
    }
}

} // verus!
