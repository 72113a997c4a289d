//! Six values, one per BAR.
use vstd::prelude::*;

verus! {

/// One value for each of the six BARs.
#[derive(Debug, Clone, Copy)]
pub struct Slots<T> {
    /// BAR 0.
    pub s0: T,
    /// BAR 1.
    pub s1: T,
    /// BAR 2.
    pub s2: T,
    /// BAR 3.
    pub s3: T,
    /// BAR 4.
    pub s4: T,
    /// BAR 5.
    pub s5: T,
}

impl<T> Slots<T> {
    /// The value of a BAR.
    pub open spec fn at(self, i: int) -> T {
        if i == 0 {
            self.s0
        } else if i == 1 {
            self.s1
        } else if i == 2 {
            self.s2
        } else if i == 3 {
            self.s3
        } else if i == 4 {
            self.s4
        } else {
            self.s5
        }
    }

    /// The values with that of one BAR replaced.
    pub open spec fn with(self, i: int, value: T) -> Slots<T> {
        if i == 0 {
            Slots { s0: value, ..self }
        } else if i == 1 {
            Slots { s1: value, ..self }
        } else if i == 2 {
            Slots { s2: value, ..self }
        } else if i == 3 {
            Slots { s3: value, ..self }
        } else if i == 4 {
            Slots { s4: value, ..self }
        } else {
            Slots { s5: value, ..self }
        }
    }

    /// The values as a sequence.
    pub open spec fn to_seq(self) -> Seq<T> {
        seq![self.s0, self.s1, self.s2, self.s3, self.s4, self.s5]
    }
}

impl<T: Copy> Slots<T> {
    /// Gives all BARs the same value.
    pub fn all(value: T) -> (r: Self)
        ensures
            r == all_slots(value),
    {
        Slots { s0: value, s1: value, s2: value, s3: value, s4: value, s5: value }
    }

    /// Takes the values from an array.
    pub fn from_array(a: &[T; 6]) -> (r: Self)
        ensures
            r == slots_of(a@),
            forall|i: int| 0 <= i < 6 ==> #[trigger] r.at(i) == a[i],
    {
        Slots { s0: a[0], s1: a[1], s2: a[2], s3: a[3], s4: a[4], s5: a[5] }
    }

    /// Returns the value of a BAR.
    pub fn get(&self, i: usize) -> (r: T)
        requires
            i < 6,
        ensures
            r == self.at(i as int),
    {
        if i == 0 {
            self.s0
        } else if i == 1 {
            self.s1
        } else if i == 2 {
            self.s2
        } else if i == 3 {
            self.s3
        } else if i == 4 {
            self.s4
        } else {
            self.s5
        }
    }

    /// Replaces the value of a BAR.
    pub fn set(&mut self, i: usize, value: T)
        requires
            i < 6,
        ensures
            *final(self) == old(self).with(i as int, value),
    {
        if i == 0 {
            self.s0 = value;
        } else if i == 1 {
            self.s1 = value;
        } else if i == 2 {
            self.s2 = value;
        } else if i == 3 {
            self.s3 = value;
        } else if i == 4 {
            self.s4 = value;
        } else {
            self.s5 = value;
        }
    }

    /// Returns the values in order.
    pub fn to_vec(&self) -> (r: Vec<T>)
        ensures
            r@ == self.to_seq(),
    {
        let mut v: Vec<T> = Vec::new();
        v.push(self.s0);
        v.push(self.s1);
        v.push(self.s2);
        v.push(self.s3);
        v.push(self.s4);
        v.push(self.s5);
        v
    }
}

/// The values in a sequence of six.
pub open spec fn slots_of<T>(s: Seq<T>) -> Slots<T> {
    Slots { s0: s[0], s1: s[1], s2: s[2], s3: s[3], s4: s[4], s5: s[5] }
}

/// The same value for all BARs.
pub open spec fn all_slots<T>(value: T) -> Slots<T> {
    Slots { s0: value, s1: value, s2: value, s3: value, s4: value, s5: value }
}

/// A value that was put is what is there, and the others stay.
pub proof fn law_with<T>(slots: Slots<T>, i: int, j: int, value: T)
    requires
        0 <= i < 6,
        0 <= j < 6,
    ensures
        slots.with(i, value).at(j) == if i == j {
            value
        } else {
            slots.at(j)
        },
{
}

}
