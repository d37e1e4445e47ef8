use vstd::prelude::*;

use crate::text::{decimal, push_decimal, push_str, string_from};

verus! {

/// The resident memory that a probe run may reach.
pub const MEMORY_BUDGET_BYTES: u64 = 52428800;

/// What a memory probe run measured.
#[derive(Clone, Copy, Debug, PartialEq, Eq, Structural)]
pub struct MemoryProbe {
    pub raw_count: u64,
    pub visible_count: u64,
    pub find_count: u64,
    pub retained_heap_bytes: usize,
    pub rss_bytes: u64,
    pub append_millis: u128,
    pub filter_millis: u128,
    pub find_millis: u128,
}

impl MemoryProbe {
    /// Whether the run stayed under the memory budget.
    pub fn within_budget(&self) -> (r: bool)
        ensures
            r == (self.rss_bytes < MEMORY_BUDGET_BYTES),
    {
        self.rss_bytes < MEMORY_BUDGET_BYTES
    }
}

/// `n` in decimal, padded with zeros on the left to `width` digits.
pub open spec fn zero_padded(n: nat, width: nat) -> Seq<char> {
    let d = decimal(n);
    if d.len() >= width {
        d
    } else {
        Seq::new((width - d.len()) as nat, |i: int| '0') + d
    }
}

/// The probe's synthetic HiLog record number `index`.
pub open spec fn probe_record_spec(index: u64) -> Seq<char> {
    "08-30 20:10:01.001 120 121 I ArkUI/Render frame committed seq="@ + zero_padded(index as nat, 10)
        + " payload=abcdefghijklmnopqrstuvwxyz0123456789"@
}

pub fn probe_record(index: u64) -> (r: String)
    ensures
        r@ == probe_record_spec(index),
{
    let mut out = string_from("08-30 20:10:01.001 120 121 I ArkUI/Render frame committed seq=");
    let mut number = String::new();
    push_decimal(&mut number, index);
    let digits = crate::text::chars_of(number.as_str()).len();
    assert(number@ =~= decimal(index as nat));
    let ghost head = out@;
    let mut k = digits;
    while k < 10
        invariant
            digits <= k,
            k <= 10 || k == digits,
            out@ == head + Seq::new((k - digits) as nat, |i: int| '0'),
        decreases 10 - k,
    {
        crate::text::push_char(&mut out, '0');
        assert(head + Seq::new((k - digits) as nat, |i: int| '0').push('0') =~= head + Seq::new(
            (k + 1 - digits) as nat,
            |i: int| '0',
        ));
        k += 1;
    }
    push_str(&mut out, number.as_str());
    push_str(&mut out, " payload=abcdefghijklmnopqrstuvwxyz0123456789");
    proof {
        if digits >= 10 {
            assert(Seq::new((k - digits) as nat, |i: int| '0') =~= Seq::<char>::empty());
        }
    }
    out
}

/// Whether a screen needs drawing: set by changes, cleared by drawing.
pub struct RedrawState {
    dirty: bool,
}

impl RedrawState {
    pub closed spec fn is_dirty(&self) -> bool {
        self.dirty
    }

    /// A fresh screen needs its first draw.
    pub fn new() -> (r: Self)
        ensures
            r.is_dirty(),
    {
        RedrawState { dirty: true }
    }

    pub fn mark(&mut self)
        ensures
            final(self).is_dirty(),
    {
        self.dirty = true;
    }

    pub fn mark_if(&mut self, changed: bool)
        ensures
            final(self).is_dirty() == (old(self).is_dirty() || changed),
    {
        self.dirty = self.dirty || changed;
    }

    /// Whether to draw now; afterwards nothing is pending.
    pub fn take(&mut self) -> (r: bool)
        ensures
            r == old(self).is_dirty(),
            !final(self).is_dirty(),
    {
        let r = self.dirty;
        self.dirty = false;
        r
    }
}

} // verus!
