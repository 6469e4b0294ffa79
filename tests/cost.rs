use jaws::cache::AWSHandler;
use jaws::cost::{calculate_model, days_remaining, sum_recurring_charges, term_years};
use jaws::errors::{DataViolation, ErrorKind};
use jaws::model::{ChargeFrequency, RecurringCharge, Reservation};

const UNITS: i128 = 10_000_000_000;

fn price_doc(usd: &str) -> String {
    format!(
        r#"{{"terms":{{"OnDemand":{{"X.Y":{{"priceDimensions":{{"X.Y.Z":{{"pricePerUnit":{{"USD":"{}"}}}}}}}}}}}}}}"#,
        usd
    )
}

fn handler_with_rate(instance_type: &str, usd: &str) -> AWSHandler {
    let mut handler = AWSHandler::new("eu-west-1".to_string());
    handler.record_odm_price_list(instance_type, &vec![price_doc(usd)]).unwrap();
    handler
}

fn reservation(instance_type: &str, count: u32, charges: Vec<RecurringCharge>) -> Reservation {
    Reservation {
        instance_type: instance_type.to_string(),
        instance_count: count,
        availability_zone: Some("eu-west-1b".to_string()),
        end: 1_700_000_000 + 10 * 86_400,
        duration: 94_608_000,
        offering_type: "No Upfront".to_string(),
        fixed_price: 0,
        recurring_charges: charges,
    }
}

fn hourly(amount: i128) -> RecurringCharge {
    RecurringCharge { frequency: ChargeFrequency::Hourly, amount }
}

#[test]
fn prices_one_reservation() {
    let handler = handler_with_rate("m5.large", "0.12");
    let res = vec![reservation("m5.large", 2, vec![hourly(UNITS * 5 / 100)])];
    let model = calculate_model(&res, &handler, 1_700_000_000).unwrap();
    let e = &model.elements[0];
    assert_eq!(e.res_yearly, 876 * UNITS);
    assert_eq!(e.odm_yearly, 21_024 * UNITS / 10);
    assert_eq!(e.saving_yearly, 12_264 * UNITS / 10);
    assert_eq!(e.res_recurring, UNITS * 5 / 100);
    assert_eq!(e.odm_rate, UNITS * 12 / 100);
    assert_eq!(e.qty, 2);
    assert_eq!(e.az, "eu-west-1b");
    assert_eq!(e.days_remaining, 10);
    assert_eq!(e.term_years, 3);
    assert_eq!(model.total_actual_yearly, 876 * UNITS);
    assert_eq!(model.total_odm_yearly, 21_024 * UNITS / 10);
    assert_eq!(model.total_saving(), 12_264 * UNITS / 10);
}

#[test]
fn total_saving_is_difference_of_totals() {
    let mut handler = handler_with_rate("m5.large", "0.10");
    handler.record_odm_price_list("t3.small", &vec![price_doc("0.02")]).unwrap();
    let res = vec![
        reservation("m5.large", 1, vec![hourly(UNITS / 20)]),
        reservation("t3.small", 3, vec![hourly(UNITS / 25)]),
    ];
    let model = calculate_model(&res, &handler, 1_700_000_000).unwrap();
    assert!(model.elements[1].saving_yearly < 0);
    let row_sum: i128 = model.elements.iter().map(|e| e.saving_yearly).sum();
    assert_eq!(model.total_saving(), model.total_odm_yearly - model.total_actual_yearly);
    assert_eq!(model.total_saving(), row_sum);
}

#[test]
fn regional_reservation_shows_none_zone() {
    let handler = handler_with_rate("m5.large", "0.12");
    let mut r = reservation("m5.large", 1, Vec::new());
    r.availability_zone = None;
    let model = calculate_model(&vec![r], &handler, 1_700_000_000).unwrap();
    assert_eq!(model.elements[0].az, "None");
    assert_eq!(model.elements[0].res_yearly, 0);
}

#[test]
fn unsupported_frequency_aborts() {
    let handler = handler_with_rate("m5.large", "0.12");
    let charges = vec![hourly(1), RecurringCharge { frequency: ChargeFrequency::Other("Monthly".to_string()), amount: 1 }];
    let res = vec![reservation("m5.large", 1, charges)];
    let e = calculate_model(&res, &handler, 0).unwrap_err();
    assert_eq!(
        e.kind,
        ErrorKind::DataAssumption(DataViolation::UnsupportedFrequency { frequency: "Monthly".to_string() })
    );
}

#[test]
fn amount_out_of_range_aborts() {
    let handler = handler_with_rate("m5.large", "999999999999999999");
    let res = vec![reservation("m5.large", 4_000_000_000, Vec::new())];
    let e = calculate_model(&res, &handler, 0).unwrap_err();
    assert_eq!(e.kind, ErrorKind::DataAssumption(DataViolation::AmountOutOfRange));
}

#[test]
fn sums_hourly_charges() {
    assert_eq!(sum_recurring_charges(&vec![hourly(3), hourly(4)]), Ok(7));
    assert_eq!(sum_recurring_charges(&Vec::new()), Ok(0));
    let e = sum_recurring_charges(&vec![RecurringCharge { frequency: ChargeFrequency::Other("Yearly".to_string()), amount: 1 }]).unwrap_err();
    assert_eq!(e.kind, ErrorKind::DataAssumption(DataViolation::UnsupportedFrequency { frequency: "Yearly".to_string() }));
}

#[test]
fn days_and_terms_round_toward_zero() {
    assert_eq!(days_remaining(86_400 * 3 + 5, 0), 3);
    assert_eq!(days_remaining(0, 86_400 + 10), -1);
    assert_eq!(days_remaining(0, 86_399), 0);
    assert_eq!(term_years(31_536_000), 1);
    assert_eq!(term_years(94_608_000), 3);
    assert_eq!(term_years(31_535_999), 0);
}
