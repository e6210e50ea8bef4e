use vstd::prelude::*;

verus! {

/// The largest balance a `Cookies` value can hold.
pub const MAX_COOKIES: u8 = 255;

/// Addition of two balances that stops at `MAX_COOKIES`.
pub open spec fn sat_add(a: u8, b: u8) -> u8 {
    if a + b > 255 {
        255
    } else {
        (a + b) as u8
    }
}

/// Subtraction of two balances that stops at zero.
pub open spec fn sat_sub(a: u8, b: u8) -> u8 {
    if a < b {
        0
    } else {
        (a - b) as u8
    }
}

/// A scarce balance of cookies, between 0 and 255.
///
/// Arithmetic on it saturates: it never wraps and never fails.
#[derive(Copy, Clone, Debug)]
pub struct Cookies(pub u8);

impl Cookies {
    /// Half of the balance, rounded down; a balance of at most one gives nothing.
    pub fn half(self) -> (r: Cookies)
        ensures
            r.0 == self.0 / 2,
            self.0 <= 1 ==> r.0 == 0,
    {
        if self.0 > 1 {
            Cookies(self.0 / 2)
        } else {
            Cookies(0)
        }
    }

    /// The sum of two balances, held at 255.
    pub fn add(self, other: Cookies) -> (r: Cookies)
        ensures
            r.0 == sat_add(self.0, other.0),
    {
        if other.0 < MAX_COOKIES - self.0 {
            Cookies(self.0 + other.0)
        } else {
            Cookies(MAX_COOKIES)
        }
    }

    /// The difference of two balances, held at zero.
    pub fn subtract(self, other: Cookies) -> (r: Cookies)
        ensures
            r.0 == sat_sub(self.0, other.0),
    {
        if other.0 < self.0 {
            Cookies(self.0 - other.0)
        } else {
            Cookies(0)
        }
    }

    /// Adds `other` to this balance in place, held at 255.
    pub fn add_assign(&mut self, other: Cookies)
        ensures
            final(self).0 == sat_add(old(self).0, other.0),
    {
        if other.0 < MAX_COOKIES - self.0 {
            self.0 = self.0 + other.0;
        } else {
            self.0 = MAX_COOKIES;
        }
    }

    /// Takes `other` from this balance in place, held at zero.
    pub fn sub_assign(&mut self, other: Cookies)
        ensures
            final(self).0 == sat_sub(old(self).0, other.0),
    {
        if other.0 < self.0 {
            self.0 = self.0 - other.0;
        } else {
            self.0 = 0;
        }
    }
}

impl Default for Cookies {
    fn default() -> (r: Cookies)
        ensures
            r.0 == 0,
    {
        Cookies(0)
    }
}

impl PartialEq for Cookies {
    fn eq(&self, other: &Cookies) -> (r: bool) {
        self.0 == other.0
    }

    fn ne(&self, other: &Cookies) -> (r: bool) {
        self.0 != other.0
    }
}

impl vstd::std_specs::cmp::PartialEqSpecImpl for Cookies {
    open spec fn obeys_eq_spec() -> bool {
        true
    }

    open spec fn eq_spec(&self, other: &Cookies) -> bool {
        self.0 == other.0
    }
}

impl PartialOrd for Cookies {
    fn partial_cmp(&self, other: &Cookies) -> (r: Option<std::cmp::Ordering>) {
        if self.0 < other.0 {
            Some(std::cmp::Ordering::Less)
        } else if self.0 > other.0 {
            Some(std::cmp::Ordering::Greater)
        } else {
            Some(std::cmp::Ordering::Equal)
        }
    }

    fn lt(&self, other: &Cookies) -> (r: bool) {
        self.0 < other.0
    }

    fn le(&self, other: &Cookies) -> (r: bool) {
        self.0 <= other.0
    }

    fn gt(&self, other: &Cookies) -> (r: bool) {
        self.0 > other.0
    }

    fn ge(&self, other: &Cookies) -> (r: bool) {
        self.0 >= other.0
    }
}

impl vstd::std_specs::cmp::PartialOrdSpecImpl for Cookies {
    open spec fn obeys_partial_cmp_spec() -> bool {
        true
    }

    open spec fn partial_cmp_spec(&self, other: &Cookies) -> Option<std::cmp::Ordering> {
        if self.0 < other.0 {
            Some(std::cmp::Ordering::Less)
        } else if self.0 > other.0 {
            Some(std::cmp::Ordering::Greater)
        } else {
            Some(std::cmp::Ordering::Equal)
        }
    }
}

/// Saturating arithmetic never leaves the byte range: a sum is at most 255,
/// a difference at least 0, and each is exact whenever it fits.
pub proof fn lemma_saturation_bounds(a: Cookies, b: Cookies)
    ensures
        sat_add(a.0, b.0) <= 255,
        sat_sub(a.0, b.0) >= 0,
        a.0 + b.0 <= 255 ==> sat_add(a.0, b.0) == a.0 + b.0,
        a.0 + b.0 > 255 ==> sat_add(a.0, b.0) == 255,
        a.0 >= b.0 ==> sat_sub(a.0, b.0) == a.0 - b.0,
        a.0 < b.0 ==> sat_sub(a.0, b.0) == 0,
{
}

} // verus!
