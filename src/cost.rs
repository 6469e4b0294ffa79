//! The cost model: each reservation priced, and the fleet's yearly totals.
use vstd::prelude::*;
use crate::cache::AWSHandler;
use crate::errors::{DataViolation, ErrorKind, JawsError};
use crate::model::{ChargeFrequency, RecurringCharge, Reservation};
use crate::money::MAX_AMOUNT;

verus! {

pub const HOURS_PER_YEAR: i128 = 8760;

/// A year of 365 days; leap years are not accounted for.
pub const SECONDS_PER_YEAR: i64 = 31_536_000;

pub const SECONDS_PER_DAY: i64 = 86_400;

/// Division that rounds toward zero, as Rust's integer division does.
pub open spec fn trunc_div(a: int, b: int) -> int {
    if a >= 0 {
        a / b
    } else {
        -((-a) / b)
    }
}

/// An amount the report can carry: not negative, and within the range of
/// the decimal type used for display.
pub open spec fn valid_amount(a: i128) -> bool {
    0 <= a <= MAX_AMOUNT
}

/// The amounts of a reservation are valid.
pub open spec fn valid_reservation(r: Reservation) -> bool {
    &&& valid_amount(r.fixed_price)
    &&& forall|k: int|
        0 <= k < r.recurring_charges@.len() ==> valid_amount(
            #[trigger] r.recurring_charges@[k].amount,
        )
}

/// The first frequency, in order, that is not hourly.
pub open spec fn first_other_frequency(charges: Seq<RecurringCharge>) -> Option<String>
    decreases charges.len(),
{
    if charges.len() == 0 {
        None
    } else {
        match charges[0].frequency {
            ChargeFrequency::Other(f) => Some(f),
            ChargeFrequency::Hourly => first_other_frequency(charges.drop_first()),
        }
    }
}

/// The first unsupported charge frequency over all reservations, in order.
pub open spec fn first_unsupported(res: Seq<Reservation>) -> Option<String>
    decreases res.len(),
{
    if res.len() == 0 {
        None
    } else {
        match first_other_frequency(res[0].recurring_charges@) {
            Some(f) => Some(f),
            None => first_unsupported(res.drop_first()),
        }
    }
}

/// The sum of the amounts of `charges`.
pub open spec fn charges_sum(charges: Seq<RecurringCharge>) -> int
    decreases charges.len(),
{
    if charges.len() == 0 {
        0
    } else {
        charges_sum(charges.drop_last()) + charges.last().amount
    }
}

/// The recurring hourly cost of a reservation.
pub open spec fn recurring_hourly(r: Reservation) -> int {
    charges_sum(r.recurring_charges@)
}

pub open spec fn reserved_yearly(r: Reservation) -> int {
    recurring_hourly(r) * HOURS_PER_YEAR * r.instance_count
}

pub open spec fn on_demand_yearly(rate: int, r: Reservation) -> int {
    rate * HOURS_PER_YEAR * r.instance_count
}

/// The on-demand rate that `h` holds for the type of `r`.
pub open spec fn rate_for(h: AWSHandler, r: Reservation) -> int {
    h.rate_of(r.instance_type@).unwrap() as int
}

pub open spec fn total_reserved(res: Seq<Reservation>) -> int
    decreases res.len(),
{
    if res.len() == 0 {
        0
    } else {
        total_reserved(res.drop_last()) + reserved_yearly(res.last())
    }
}

pub open spec fn total_on_demand(res: Seq<Reservation>, h: AWSHandler) -> int
    decreases res.len(),
{
    if res.len() == 0 {
        0
    } else {
        total_on_demand(res.drop_last(), h) + on_demand_yearly(rate_for(h, res.last()), res.last())
    }
}

/// Every amount of the model can be shown: each recurring hourly cost and
/// both yearly totals are within range (each row's yearly costs are then too).
pub open spec fn model_fits(res: Seq<Reservation>, h: AWSHandler) -> bool {
    &&& forall|i: int| 0 <= i < res.len() ==> #[trigger] recurring_hourly(res[i]) <= MAX_AMOUNT
    &&& total_reserved(res) <= MAX_AMOUNT
    &&& total_on_demand(res, h) <= MAX_AMOUNT
}

/// The text of the zone of a reservation: `None` for a regional one.
pub open spec fn zone_text(r: Reservation) -> Seq<char> {
    match r.availability_zone {
        Some(z) => z@,
        None => "None"@,
    }
}

/// One priced row: a reservation group with its derived financial fields.
#[derive(Clone, Debug, PartialEq, Eq)]
pub struct ReservationElement {
    pub name: String,
    pub qty: u32,
    pub az: String,
    /// End of the term, in seconds since the Unix epoch.
    pub expiry: i64,
    /// Whole days until expiry; negative once expired.
    pub days_remaining: i64,
    pub term_years: i64,
    pub res_model: String,
    pub res_recurring: i128,
    pub res_fixed: i128,
    pub res_yearly: i128,
    pub odm_rate: i128,
    pub odm_yearly: i128,
    /// On-demand minus reserved yearly cost; negative where the reservation costs more.
    pub saving_yearly: i128,
}

impl ReservationElement {
    /// Every amount of the row is one the report can show.
    pub open spec fn wf(&self) -> bool {
        &&& valid_amount(self.res_recurring)
        &&& valid_amount(self.res_fixed)
        &&& valid_amount(self.res_yearly)
        &&& valid_amount(self.odm_rate)
        &&& valid_amount(self.odm_yearly)
        &&& -MAX_AMOUNT <= self.saving_yearly <= MAX_AMOUNT
    }
}

/// `e` is the row that prices `r` at on-demand rate `rate`, at time `now`.
pub open spec fn prices(e: ReservationElement, r: Reservation, rate: int, now: int) -> bool {
    &&& e.name@ == r.instance_type@
    &&& e.qty == r.instance_count
    &&& e.az@ == zone_text(r)
    &&& e.expiry == r.end
    &&& e.days_remaining == trunc_div(r.end - now, SECONDS_PER_DAY as int)
    &&& e.term_years == trunc_div(r.duration as int, SECONDS_PER_YEAR as int)
    &&& e.res_model@ == r.offering_type@
    &&& e.res_recurring == recurring_hourly(r)
    &&& e.res_fixed == r.fixed_price
    &&& e.res_yearly == reserved_yearly(r)
    &&& e.odm_rate == rate
    &&& e.odm_yearly == on_demand_yearly(rate, r)
    &&& e.saving_yearly == on_demand_yearly(rate, r) - reserved_yearly(r)
}

/// The priced rows of a set of reservations, with yearly totals.
#[derive(Clone, Debug, PartialEq, Eq)]
pub struct CalculationModel {
    pub elements: Vec<ReservationElement>,
    pub total_odm_yearly: i128,
    pub total_actual_yearly: i128,
}

impl CalculationModel {
    /// Every amount of the model is one the report can show.
    pub open spec fn wf(&self) -> bool {
        &&& valid_amount(self.total_odm_yearly)
        &&& valid_amount(self.total_actual_yearly)
        &&& forall|i: int| 0 <= i < self.elements@.len() ==> #[trigger] self.elements@[i].wf()
    }

    /// The yearly saving of the fleet, always derived from the two totals.
    pub fn total_saving(&self) -> (r: i128)
        requires
            self.wf(),
        ensures
            r == self.total_odm_yearly - self.total_actual_yearly,
    {
        self.total_odm_yearly - self.total_actual_yearly
    }
}

/// Whole days from `now` to `end`, rounded toward zero: negative once `end` has passed.
pub fn days_remaining(end: i64, now: i64) -> (r: i64)
    ensures
        r == trunc_div(end - now, SECONDS_PER_DAY as int),
{
    let diff: i128 = end as i128 - now as i128;
    if diff >= 0 {
        (diff / SECONDS_PER_DAY as i128) as i64
    } else {
        let days = (-diff) / SECONDS_PER_DAY as i128;
        (-days) as i64
    }
}

/// Whole years of 365 days in a term of `duration` seconds, rounded toward zero.
pub fn term_years(duration: i64) -> (r: i64)
    ensures
        r == trunc_div(duration as int, SECONDS_PER_YEAR as int),
{
    if duration >= 0 {
        duration / SECONDS_PER_YEAR
    } else {
        let years = (-(duration as i128)) / SECONDS_PER_YEAR as i128;
        (-years) as i64
    }
}

/// The first charge frequency in `charges` that is not hourly.
pub fn first_unsupported_frequency(charges: &Vec<RecurringCharge>) -> (r: Option<String>)
    ensures
        r == first_other_frequency(charges@),
{
    let mut k: usize = 0;
    assert(charges@.skip(0) =~= charges@);
    while k < charges.len()
        invariant
            k <= charges@.len(),
            first_other_frequency(charges@) == first_other_frequency(charges@.skip(k as int)),
        decreases charges@.len() - k,
    {
        assert(charges@.skip(k as int).drop_first() =~= charges@.skip(k + 1));
        assert(charges@.skip(k as int)[0] == charges@[k as int]);
        match &charges[k].frequency {
            ChargeFrequency::Other(f) => {
                return Some(f.clone());
            },
            ChargeFrequency::Hourly => {},
        }
        k = k + 1;
    }
    None
}

proof fn lemma_charges_sum_bounds(charges: Seq<RecurringCharge>, k: int)
    requires
        0 <= k <= charges.len(),
        forall|j: int| 0 <= j < charges.len() ==> valid_amount(#[trigger] charges[j].amount),
    ensures
        0 <= charges_sum(charges.take(k)) <= charges_sum(charges),
    decreases charges.len() - k,
{
    let prefix = charges.take(k);
    assert forall|j: int| 0 <= j < prefix.len() implies valid_amount(#[trigger] prefix[j].amount) by {
        assert(prefix[j] == charges[j]);
    }
    lemma_charges_nonneg(prefix);
    if k < charges.len() {
        lemma_charges_sum_bounds(charges, k + 1);
        assert(charges.take(k + 1).drop_last() =~= charges.take(k));
        assert(charges.take(k + 1).last() == charges[k]);
        assert(valid_amount(charges[k].amount));
    } else {
        assert(charges.take(k) =~= charges);
        lemma_charges_nonneg(charges);
    }
}

proof fn lemma_charges_nonneg(charges: Seq<RecurringCharge>)
    requires
        forall|j: int| 0 <= j < charges.len() ==> valid_amount(#[trigger] charges[j].amount),
    ensures
        charges_sum(charges) >= 0,
    decreases charges.len(),
{
    if charges.len() > 0 {
        let init = charges.drop_last();
        assert forall|j: int| 0 <= j < init.len() implies valid_amount(#[trigger] init[j].amount) by {
            assert(init[j] == charges[j]);
        }
        lemma_charges_nonneg(init);
        assert(valid_amount(charges[charges.len() - 1].amount));
    }
}

/// The recurring hourly cost of a reservation: the sum of its charges.
/// Every charge must be hourly; a charge of any other frequency is refused.
pub fn sum_recurring_charges(charges: &Vec<RecurringCharge>) -> (r: Result<i128, JawsError>)
    requires
        forall|k: int| 0 <= k < charges@.len() ==> valid_amount(#[trigger] charges@[k].amount),
    ensures
        first_other_frequency(charges@) matches Some(f) ==> (r matches Err(e) && e.kind
            == ErrorKind::DataAssumption(DataViolation::UnsupportedFrequency { frequency: f })),
        first_other_frequency(charges@) is None && charges_sum(charges@) > MAX_AMOUNT ==> (
        r matches Err(e) && e.kind == ErrorKind::DataAssumption(DataViolation::AmountOutOfRange)),
        first_other_frequency(charges@) is None && charges_sum(charges@) <= MAX_AMOUNT ==> r
            == Ok::<i128, JawsError>(charges_sum(charges@) as i128),
{
    if let Some(f) = first_unsupported_frequency(charges) {
        return Err(JawsError::data(DataViolation::UnsupportedFrequency { frequency: f }));
    }
    let mut sum: i128 = 0;
    let mut k: usize = 0;
    while k < charges.len()
        invariant
            k <= charges@.len(),
            forall|j: int| 0 <= j < charges@.len() ==> valid_amount(#[trigger] charges@[j].amount),
            sum == charges_sum(charges@.take(k as int)),
            first_other_frequency(charges@) is None,
            0 <= sum <= MAX_AMOUNT,
        decreases charges@.len() - k,
    {
        assert(charges@.take(k + 1).drop_last() =~= charges@.take(k as int));
        let amount = charges[k].amount;
        assert(valid_amount(charges@[k as int].amount));
        if sum + amount > MAX_AMOUNT {
            proof {
                lemma_charges_sum_bounds(charges@, k + 1);
            }
            return Err(JawsError::data(DataViolation::AmountOutOfRange));
        }
        sum = sum + amount;
        k = k + 1;
    }
    assert(charges@.take(charges@.len() as int) =~= charges@);
    Ok(sum)
}

proof fn lemma_hourly_nonneg(r: Reservation)
    requires
        valid_reservation(r),
    ensures
        recurring_hourly(r) >= 0,
        reserved_yearly(r) >= 0,
{
    lemma_charges_nonneg(r.recurring_charges@);
    let x = recurring_hourly(r);
    let c = r.instance_count as int;
    assert(x * HOURS_PER_YEAR * c >= 0) by (nonlinear_arith)
        requires
            x >= 0,
            c >= 0,
    ;
}

proof fn lemma_odm_nonneg(rate: int, r: Reservation)
    requires
        rate >= 0,
    ensures
        on_demand_yearly(rate, r) >= 0,
{
    let c = r.instance_count as int;
    assert(rate * HOURS_PER_YEAR * c >= 0) by (nonlinear_arith)
        requires
            rate >= 0,
            c >= 0,
    ;
}

/// Totals over a prefix never exceed the totals over all reservations.
proof fn lemma_totals_mono(res: Seq<Reservation>, h: AWSHandler, k: int)
    requires
        h.wf(),
        0 <= k <= res.len(),
        forall|i: int| 0 <= i < res.len() ==> valid_reservation(#[trigger] res[i]),
        forall|i: int| 0 <= i < res.len() ==> #[trigger] h.rate_of(res[i].instance_type@) is Some,
    ensures
        0 <= total_reserved(res.take(k)) <= total_reserved(res),
        0 <= total_on_demand(res.take(k), h) <= total_on_demand(res, h),
    decreases res.len() - k,
{
    let prefix = res.take(k);
    assert forall|i: int| 0 <= i < prefix.len() implies valid_reservation(#[trigger] prefix[i]) by {
        assert(prefix[i] == res[i]);
    }
    assert forall|i: int| 0 <= i < prefix.len() implies #[trigger] h.rate_of(
        prefix[i].instance_type@,
    ) is Some by {
        assert(prefix[i] == res[i]);
    }
    lemma_totals_nonneg(prefix, h);
    if k < res.len() {
        lemma_totals_mono(res, h, k + 1);
        let next = res.take(k + 1);
        assert(next.drop_last() =~= res.take(k));
        assert(next.last() == res[k]);
        lemma_hourly_nonneg(res[k]);
        crate::cache::lemma_rate_in_range(h, res[k].instance_type@);
        lemma_odm_nonneg(rate_for(h, res[k]), res[k]);
    } else {
        assert(res.take(k) =~= res);
        lemma_totals_nonneg(res, h);
    }
}

proof fn lemma_totals_nonneg(res: Seq<Reservation>, h: AWSHandler)
    requires
        h.wf(),
        forall|i: int| 0 <= i < res.len() ==> valid_reservation(#[trigger] res[i]),
        forall|i: int| 0 <= i < res.len() ==> #[trigger] h.rate_of(res[i].instance_type@) is Some,
    ensures
        total_reserved(res) >= 0,
        total_on_demand(res, h) >= 0,
    decreases res.len(),
{
    if res.len() > 0 {
        let init = res.drop_last();
        assert forall|i: int| 0 <= i < init.len() implies valid_reservation(#[trigger] init[i]) by {
            assert(init[i] == res[i]);
        }
        assert forall|i: int| 0 <= i < init.len() implies #[trigger] h.rate_of(
            init[i].instance_type@,
        ) is Some by {
            assert(init[i] == res[i]);
        }
        lemma_totals_nonneg(init, h);
        let last = res[res.len() - 1];
        lemma_hourly_nonneg(last);
        crate::cache::lemma_rate_in_range(h, last.instance_type@);
        lemma_odm_nonneg(rate_for(h, last), last);
    }
}

proof fn lemma_all_hourly(res: Seq<Reservation>, i: int)
    requires
        first_unsupported(res) is None,
        0 <= i < res.len(),
    ensures
        first_other_frequency(res[i].recurring_charges@) is None,
    decreases i,
{
    if i > 0 {
        assert(res.drop_first()[i - 1] == res[i]);
        lemma_all_hourly(res.drop_first(), i - 1);
    }
}

/// Prices each reservation at the cached on-demand rate of its type, at
/// time `now` (seconds since the Unix epoch), and totals the yearly costs.
/// A non-hourly recurring charge anywhere is refused first; then an amount
/// that would leave the displayable range is refused.
#[verifier::rlimit(50)]
pub fn calculate_model(reservations: &Vec<Reservation>, handler: &AWSHandler, now: i64) -> (r:
    Result<CalculationModel, JawsError>)
    requires
        handler.wf(),
        forall|i: int| 0 <= i < reservations@.len() ==> valid_reservation(#[trigger] reservations@[i]),
        forall|i: int|
            0 <= i < reservations@.len() ==> #[trigger] handler.rate_of(
                reservations@[i].instance_type@,
            ) is Some,
    ensures
        first_unsupported(reservations@) matches Some(f) ==> (r matches Err(e) && e.kind
            == ErrorKind::DataAssumption(DataViolation::UnsupportedFrequency { frequency: f })),
        first_unsupported(reservations@) is None && !model_fits(reservations@, *handler) ==> (
        r matches Err(e) && e.kind == ErrorKind::DataAssumption(DataViolation::AmountOutOfRange)),
        first_unsupported(reservations@) is None && model_fits(reservations@, *handler) ==> (
        r matches Ok(m) && m.wf() && m.elements@.len() == reservations@.len() && (forall|i: int|
            0 <= i < reservations@.len() ==> #[trigger] prices(
                m.elements@[i],
                reservations@[i],
                rate_for(*handler, reservations@[i]),
                now as int,
            )) && m.total_actual_yearly == total_reserved(reservations@) && m.total_odm_yearly
            == total_on_demand(reservations@, *handler)),
{
    let ghost res = reservations@;
    // Refuse unsupported charges before pricing anything.
    let mut i: usize = 0;
    assert(res.skip(0) =~= res);
    while i < reservations.len()
        invariant
            i <= res.len(),
            res == reservations@,
            first_unsupported(res) == first_unsupported(res.skip(i as int)),
        decreases res.len() - i,
    {
        assert(res.skip(i as int).drop_first() =~= res.skip(i + 1));
        assert(res.skip(i as int)[0] == res[i as int]);
        if let Some(f) = first_unsupported_frequency(&reservations[i].recurring_charges) {
            return Err(JawsError::data(DataViolation::UnsupportedFrequency { frequency: f }));
        }
        i = i + 1;
    }
    assert(first_unsupported(res) is None);
    proof {
        lemma_totals_mono(res, *handler, 0);
    }
    let mut elements: Vec<ReservationElement> = Vec::new();
    let mut total_res: i128 = 0;
    let mut total_odm: i128 = 0;
    let mut i: usize = 0;
    while i < reservations.len()
        invariant
            i <= res.len(),
            res == reservations@,
            handler.wf(),
            first_unsupported(res) is None,
            forall|k: int| 0 <= k < res.len() ==> valid_reservation(#[trigger] res[k]),
            forall|k: int| 0 <= k < res.len() ==> #[trigger] handler.rate_of(res[k].instance_type@) is Some,
            elements@.len() == i,
            forall|k: int| 0 <= k < i ==> #[trigger] elements@[k].wf(),
            forall|k: int|
                0 <= k < i ==> #[trigger] prices(
                    elements@[k],
                    res[k],
                    rate_for(*handler, res[k]),
                    now as int,
                ),
            forall|k: int| 0 <= k < i ==> #[trigger] recurring_hourly(res[k]) <= MAX_AMOUNT,
            total_res == total_reserved(res.take(i as int)),
            total_odm == total_on_demand(res.take(i as int), *handler),
            valid_amount(total_res),
            valid_amount(total_odm),
        decreases res.len() - i,
    {
        let r = &reservations[i];
        let ghost next = res.take(i + 1);
        assert(next.drop_last() =~= res.take(i as int));
        assert(next.last() == res[i as int]);
        proof {
            lemma_all_hourly(res, i as int);
            lemma_totals_mono(res, *handler, i + 1);
            lemma_hourly_nonneg(res[i as int]);
            crate::cache::lemma_rate_in_range(*handler, r.instance_type@);
        }
        let hourly = match sum_recurring_charges(&r.recurring_charges) {
            Ok(v) => v,
            Err(e) => {
                return Err(e);
            },
        };
        let rate = match handler.get_odm_rate(r.instance_type.as_str()) {
            Some(v) => v,
            None => {
                // Every reservation's type has a cached rate.
                proof {
                    assert(false);
                }
                return Err(JawsError::data(DataViolation::PriceDocument));
            },
        };
        proof {
            lemma_odm_nonneg(rate as int, res[i as int]);
        }
        let count = r.instance_count as i128;
        let res_yearly = match (hourly * HOURS_PER_YEAR).checked_mul(count) {
            Some(v) => v,
            None => {
                return Err(JawsError::data(DataViolation::AmountOutOfRange));
            },
        };
        assert(res_yearly == reserved_yearly(res[i as int]));
        let odm_yearly = match (rate * HOURS_PER_YEAR).checked_mul(count) {
            Some(v) => v,
            None => {
                return Err(JawsError::data(DataViolation::AmountOutOfRange));
            },
        };
        assert(odm_yearly == on_demand_yearly(rate as int, res[i as int]));
        if res_yearly > MAX_AMOUNT || odm_yearly > MAX_AMOUNT || total_res + res_yearly > MAX_AMOUNT
            || total_odm + odm_yearly > MAX_AMOUNT {
            return Err(JawsError::data(DataViolation::AmountOutOfRange));
        }
        let az = match &r.availability_zone {
            Some(z) => z.clone(),
            None => String::from_str("None"),
        };
        proof {
            reveal_strlit("None");
        }
        let element = ReservationElement {
            name: r.instance_type.clone(),
            qty: r.instance_count,
            az,
            expiry: r.end,
            days_remaining: days_remaining(r.end, now),
            term_years: term_years(r.duration),
            res_model: r.offering_type.clone(),
            res_recurring: hourly,
            res_fixed: r.fixed_price,
            res_yearly,
            odm_rate: rate,
            odm_yearly,
            saving_yearly: odm_yearly - res_yearly,
        };
        assert(element.wf());
        elements.push(element);
        total_res = total_res + res_yearly;
        total_odm = total_odm + odm_yearly;
        i = i + 1;
    }
    assert(res.take(res.len() as int) =~= res);
    Ok(CalculationModel { elements, total_odm_yearly: total_odm, total_actual_yearly: total_res })
}

/// The sum of the rows' yearly savings.
pub open spec fn total_row_savings(res: Seq<Reservation>, h: AWSHandler) -> int
    decreases res.len(),
{
    if res.len() == 0 {
        0
    } else {
        total_row_savings(res.drop_last(), h) + (on_demand_yearly(rate_for(h, res.last()), res.last())
            - reserved_yearly(res.last()))
    }
}

/// The fleet's yearly saving, taken as the on-demand total minus the
/// reserved total, is exactly the sum of the rows' savings, rows with a
/// negative saving included: the report's totals are consistent.
pub proof fn lemma_saving_consistent(res: Seq<Reservation>, h: AWSHandler)
    ensures
        total_row_savings(res, h) == total_on_demand(res, h) - total_reserved(res),
    decreases res.len(),
{
    if res.len() > 0 {
        lemma_saving_consistent(res.drop_last(), h);
    }
}

} // verus!
