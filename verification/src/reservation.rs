//! Bandwidth reservations.
use vstd::prelude::*;
use crate::bignat::BigNat;

verus! {

/// A share of the processor: `runtime_us` microseconds out of every
/// `period_us`.
#[derive(Clone, Copy, Debug, PartialEq, Eq, Structural)]
pub struct Reservation {
    pub runtime_us: u64,
    pub period_us: u64,
}

impl Reservation {
    /// A reservation grants some time, and no more than the period has.
    pub open spec fn valid(self) -> bool {
        0 < self.runtime_us <= self.period_us
    }

    pub fn new(runtime_us: u64, period_us: u64) -> (reservation: Reservation)
        ensures
            reservation.runtime_us == runtime_us,
            reservation.period_us == period_us,
    {
        Reservation { runtime_us, period_us }
    }

    pub fn is_valid(&self) -> (ok: bool)
        ensures
            ok == self.valid(),
    {
        0 < self.runtime_us && self.runtime_us <= self.period_us
    }
}

/// The share of the processor that all reservations together may take, in
/// hundredths.
pub const MAX_RESOURCE_PERCENT: u64 = 95;

/// The product of the periods of `rs`: the denominator under which the
/// utilisations `runtime_us / period_us` add up.
pub open spec fn load_den(rs: Seq<Reservation>) -> nat
    decreases rs.len(),
{
    if rs.len() == 0 {
        1
    } else {
        load_den(rs.drop_last()) * rs.last().period_us as nat
    }
}

/// The numerator of the sum of the utilisations of `rs` over `load_den(rs)`.
pub open spec fn load_num(rs: Seq<Reservation>) -> nat
    decreases rs.len(),
{
    if rs.len() == 0 {
        0
    } else {
        load_num(rs.drop_last()) * rs.last().period_us as nat + rs.last().runtime_us as nat
            * load_den(rs.drop_last())
    }
}

pub open spec fn periods_positive(rs: Seq<Reservation>) -> bool {
    forall|i: int| 0 <= i < rs.len() ==> (#[trigger] rs[i]).period_us > 0
}

/// The utilisations of `rs` add up to at most 0.95.  With a period of zero
/// among them there is no sum, and no budget either.
pub open spec fn within_budget(rs: Seq<Reservation>) -> bool {
    periods_positive(rs) && 100 * load_num(rs) <= MAX_RESOURCE_PERCENT * load_den(rs)
}

/// `request` can be granted beside `current`: it is a reservation, and with
/// it the budget still holds.
pub open spec fn admissible(current: Seq<Reservation>, request: Reservation) -> bool {
    request.valid() && within_budget(current.push(request))
}

proof fn lemma_load_den_positive(rs: Seq<Reservation>)
    requires
        periods_positive(rs),
    ensures
        load_den(rs) > 0,
    decreases rs.len(),
{
    if rs.len() > 0 {
        let init = rs.drop_last();
        assert forall|i: int| 0 <= i < init.len() implies (#[trigger] init[i]).period_us > 0 by {
            assert(init[i] == rs[i]);
        }
        lemma_load_den_positive(init);
        assert(rs.last() == rs[rs.len() - 1]);
        assert(load_den(init) * rs.last().period_us as nat > 0) by (nonlinear_arith)
            requires
                load_den(init) > 0,
                rs.last().period_us > 0,
        ;
    }
}

/// The sum with one term taken out, times the period of that term, plus its
/// runtime over the rest, is the sum.
proof fn lemma_load_remove(rs: Seq<Reservation>, i: int)
    requires
        0 <= i < rs.len(),
    ensures
        load_den(rs) == load_den(rs.remove(i)) * rs[i].period_us as nat,
        load_num(rs) == load_num(rs.remove(i)) * rs[i].period_us as nat + rs[i].runtime_us as nat
            * load_den(rs.remove(i)),
    decreases rs.len(),
{
    let init = rs.drop_last();
    let last = rs.last();
    if i == rs.len() - 1 {
        assert(rs.remove(i) =~= init);
    } else {
        let rest = rs.remove(i);
        assert(rest.drop_last() =~= init.remove(i));
        assert(rest.last() == last);
        assert(init[i] == rs[i]);
        lemma_load_remove(init, i);
        let p = rs[i].period_us as nat;
        let r = rs[i].runtime_us as nat;
        let q = last.period_us as nat;
        let t = last.runtime_us as nat;
        let n0 = load_num(init.remove(i));
        let d0 = load_den(init.remove(i));
        assert((d0 * p) * q == (d0 * q) * p) by (nonlinear_arith);
        assert((n0 * p + r * d0) * q + t * (d0 * p) == (n0 * q + t * d0) * p + r * (d0 * q))
            by (nonlinear_arith);
    }
}

/// Taking a reservation away keeps the budget.
pub proof fn lemma_budget_remove(rs: Seq<Reservation>, i: int)
    requires
        0 <= i < rs.len(),
        within_budget(rs),
    ensures
        within_budget(rs.remove(i)),
{
    let rest = rs.remove(i);
    assert forall|j: int| 0 <= j < rest.len() implies (#[trigger] rest[j]).period_us > 0 by {
        if j < i {
            assert(rest[j] == rs[j]);
        } else {
            assert(rest[j] == rs[j + 1]);
        }
    }
    lemma_load_remove(rs, i);
    let p = rs[i].period_us as nat;
    let r = rs[i].runtime_us as nat;
    let n0 = load_num(rest);
    let d0 = load_den(rest);
    assert(100 * n0 <= 95 * d0) by (nonlinear_arith)
        requires
            100 * (n0 * p + r * d0) <= 95 * (d0 * p),
            p > 0,
    ;
}

/// One reservation alone is within the budget exactly when its runtime is
/// at most 95 hundredths of its period.
pub proof fn law_budget_of_one(r: Reservation)
    ensures
        within_budget(seq![r]) <==> r.period_us > 0 && 100 * r.runtime_us <= 95 * r.period_us,
{
    let rs = seq![r];
    assert(rs.drop_last() =~= Seq::<Reservation>::empty());
    assert(rs.last() == r);
    assert(rs[0] == r);
    assert(load_den(rs.drop_last()) == 1);
    assert(load_num(rs.drop_last()) == 0);
    assert(load_den(rs) == r.period_us) by (nonlinear_arith)
        requires
            load_den(rs) == 1 * r.period_us as nat,
    ;
    assert(load_num(rs) == r.runtime_us) by (nonlinear_arith)
        requires
            load_num(rs) == 0 * r.period_us as nat + r.runtime_us as nat * 1,
    ;
}

/// Whether the utilisations of `rs` add up to at most 0.95.  The sum is
/// taken exactly.
pub fn fits_budget(rs: &Vec<Reservation>) -> (ok: bool)
    ensures
        ok == within_budget(rs@),
{
    let mut num = BigNat::from_u64(0);
    let mut den = BigNat::from_u64(1);
    let mut i: usize = 0;
    assert(rs@.take(0) =~= Seq::<Reservation>::empty());
    while i < rs.len()
        invariant
            i <= rs@.len(),
            periods_positive(rs@.take(i as int)),
            num@ == load_num(rs@.take(i as int)),
            den@ == load_den(rs@.take(i as int)),
        decreases rs@.len() - i,
    {
        let period_us = rs[i].period_us;
        let runtime_us = rs[i].runtime_us;
        if period_us == 0 {
            return false;
        }
        proof {
            let done = rs@.take(i as int);
            let next = rs@.take(i + 1);
            assert(next.drop_last() =~= done);
            assert(next.last() == rs@[i as int]);
            assert forall|j: int| 0 <= j < next.len() implies (#[trigger] next[j]).period_us
                > 0 by {
                if j < i {
                    assert(next[j] == done[j]);
                }
            }
            assert(runtime_us as nat * load_den(done) == load_den(done) * runtime_us as nat)
                by (nonlinear_arith);
        }
        let scaled = num.times(period_us);
        let added = den.times(runtime_us);
        num = scaled.plus(&added);
        den = den.times(period_us);
        i += 1;
    }
    assert(rs@.take(rs@.len() as int) =~= rs@);
    let left = num.times(100);
    let right = den.times(MAX_RESOURCE_PERCENT);
    proof {
        assert(num@ * 100 == 100 * num@) by (nonlinear_arith);
        assert(den@ * 95 == 95 * den@) by (nonlinear_arith);
    }
    left.at_most(&right)
}

/// The admission test: whether `request` can be granted beside the
/// reservations in `current`.
pub fn admits(current: &Vec<Reservation>, request: &Reservation) -> (ok: bool)
    ensures
        ok == admissible(current@, *request),
{
    if !request.is_valid() {
        return false;
    }
    let mut all: Vec<Reservation> = Vec::new();
    let mut i: usize = 0;
    while i < current.len()
        invariant
            i <= current@.len(),
            all@ == current@.take(i as int),
        decreases current@.len() - i,
    {
        all.push(current[i]);
        assert(current@.take(i + 1) =~= current@.take(i as int).push(current@[i as int]));
        i += 1;
    }
    assert(current@.take(current@.len() as int) =~= current@);
    all.push(*request);
    fits_budget(&all)
}

/// `request` can take the place of the reservation at `index` of
/// `current`: it is a reservation, and with it in that place the budget
/// still holds.
pub open spec fn admissible_in_place(
    current: Seq<Reservation>,
    index: int,
    request: Reservation,
) -> bool {
    request.valid() && within_budget(current.update(index, request))
}

/// The admission test for a change: whether `request` can be granted in the
/// place of the reservation at `index` of `current`.
pub fn admits_in_place(current: &Vec<Reservation>, index: usize, request: &Reservation) -> (ok:
    bool)
    requires
        index < current@.len(),
    ensures
        ok == admissible_in_place(current@, index as int, *request),
{
    if !request.is_valid() {
        return false;
    }
    let mut all: Vec<Reservation> = Vec::new();
    let mut i: usize = 0;
    while i < current.len()
        invariant
            i <= current@.len(),
            index < current@.len(),
            all@ == current@.update(index as int, *request).take(i as int),
        decreases current@.len() - i,
    {
        if i == index {
            all.push(*request);
        } else {
            all.push(current[i]);
        }
        assert(current@.update(index as int, *request).take(i + 1) =~= current@.update(
            index as int,
            *request,
        ).take(i as int).push(current@.update(index as int, *request)[i as int]));
        i += 1;
    }
    assert(current@.update(index as int, *request).take(current@.len() as int)
        =~= current@.update(index as int, *request));
    fits_budget(&all)
}

} // verus!
