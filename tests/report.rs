use jaws::cache::AWSHandler;
use jaws::cost::calculate_model;
use jaws::matrix::{Matrix, MatrixOutput, MatrixTestCommand};
use jaws::model::{ChargeFrequency, RecurringCharge, Reservation};
use jaws::report::ResCommand;

const UNITS: i128 = 10_000_000_000;

fn model_command() -> ResCommand {
    let mut handler = AWSHandler::new("eu-west-1".to_string());
    let doc = r#"{"terms":{"OnDemand":{"X.Y":{"priceDimensions":{"X.Y.Z":{"pricePerUnit":{"USD":"0.1200000000"}}}}}}}"#;
    handler.record_odm_price_list("m5.large", &vec![doc.to_string()]).unwrap();
    let res = vec![Reservation {
        instance_type: "m5.large".to_string(),
        instance_count: 2,
        availability_zone: None,
        end: 1_700_864_000,
        duration: 31_536_000,
        offering_type: "No Upfront".to_string(),
        fixed_price: 1234 * UNITS,
        recurring_charges: vec![RecurringCharge { frequency: ChargeFrequency::Hourly, amount: UNITS / 20 }],
    }];
    let mut cmd = ResCommand::new();
    cmd.model = Some(calculate_model(&res, &handler, 1_700_000_000).unwrap());
    cmd
}

fn cells(m: &Matrix, row: usize) -> Vec<Option<String>> {
    m.rows.as_ref().unwrap()[row].clone()
}

#[test]
fn reservation_matrix_rows() {
    let cmd = model_command();
    let m = cmd.get_reservations_matrix();
    assert_eq!(m.header, Some(vec!["Active Reservations".to_string()]));
    let head = cells(&m, 0);
    assert_eq!(head[0], Some("Type".to_string()));
    assert_eq!(head[12], Some("$ Saving/Year".to_string()));
    let row: Vec<String> = cells(&m, 1).into_iter().map(|c| c.unwrap()).collect();
    assert_eq!(
        row,
        vec![
            "m5.large", "2", "None", "2023-11-24 22:13:20 UTC", "10", "1", "No Upfront", "$0.05", "$1,234.00",
            "$876.00", "$0.12", "$2,102.40", "$1,226.40",
        ]
        .into_iter()
        .map(|s| s.to_string())
        .collect::<Vec<String>>()
    );
    let aggregates: Vec<(String, String)> =
        m.aggregate_rows.unwrap().into_iter().map(|a| (a.name, a.value)).collect();
    assert_eq!(
        aggregates,
        vec![
            ("Total Reservations".to_string(), "2".to_string()),
            ("Total Yearly Spend".to_string(), "$876.00".to_string()),
            ("Total Yearly Saving".to_string(), "$1,226.40".to_string()),
        ]
    );
}

#[test]
fn negative_saving_is_shown_signed() {
    let mut handler = AWSHandler::new("eu-west-1".to_string());
    let doc = r#"{"terms":{"OnDemand":{"X":{"priceDimensions":{"Y":{"pricePerUnit":{"USD":"0.0100000000"}}}}}}}"#;
    handler.record_odm_price_list("t3.nano", &vec![doc.to_string()]).unwrap();
    let res = vec![Reservation {
        instance_type: "t3.nano".to_string(),
        instance_count: 1,
        availability_zone: Some("eu-west-1c".to_string()),
        end: 0,
        duration: 0,
        offering_type: "All Upfront".to_string(),
        fixed_price: 0,
        recurring_charges: vec![RecurringCharge { frequency: ChargeFrequency::Hourly, amount: UNITS / 50 }],
    }];
    let mut cmd = ResCommand::new();
    cmd.model = Some(calculate_model(&res, &handler, 86_400 * 2).unwrap());
    let m = cmd.get_reservations_matrix();
    let row = cells(&m, 1);
    assert_eq!(row[4], Some("-2".to_string()));
    assert_eq!(row[12], Some("-$87.60".to_string()));
}

#[test]
fn report_without_coverage() {
    let mut cmd = model_command();
    let out = cmd.get_matrix_output().unwrap();
    assert_eq!(out.matrices.len(), 1);
    assert_eq!(out.matrix_header.unwrap().title, Some("EC2 Reservations".to_string()));
}

#[test]
fn report_with_coverage_retitles_sub_reports() {
    let mut cmd = model_command();
    let sample = MatrixTestCommand {}.generate_matrix_test_set();
    cmd.wide = true;
    cmd.covered_instances_matrix = Some(sample.clone());
    cmd.uncovered_instances_matrix = Some(MatrixOutput { matrix_header: None, matrix_footer: None, matrices: sample.matrices.clone() });
    let out = cmd.get_matrix_output().unwrap();
    assert_eq!(out.matrices.len(), 3);
    assert_eq!(out.matrices[1].header, Some(vec!["Covered Instances".to_string()]));
    assert_eq!(out.matrices[2].header, Some(vec!["Uncovered Instances".to_string()]));
    assert_eq!(out.matrices[1].rows, sample.matrices[0].rows);
}

#[test]
fn sample_matrix() {
    let out = MatrixTestCommand {}.generate_matrix_test_set();
    assert_eq!(out.matrices.len(), 1);
    let m = &out.matrices[0];
    assert_eq!(m.rows.as_ref().unwrap()[1][1], None);
    assert_eq!(m.aggregate_rows.as_ref().unwrap()[1].value, "3.141592653589793");
    assert_eq!(out.matrix_footer.unwrap().footer, Some("Matrix Footer".to_string()));
}

#[test]
fn plain_table_ends_with_totals() {
    let cmd = model_command();
    let model = cmd.model.as_ref().unwrap();
    assert_eq!(model.get_table_headers(false).len(), 13);
    assert_eq!(model.get_table_headers(false)[7], "$ Res / Hr");
    let rows = model.get_table_rows(false);
    assert_eq!(rows.len(), 3);
    assert_eq!(rows[0][3], "2023-11-24 22:13:20 UTC");
    assert!(rows[1].is_empty());
    assert_eq!(rows[2][8], "Total");
    assert_eq!(rows[2][9], "$876.00");
    assert_eq!(rows[2][11], "$2,102.40");
    assert_eq!(rows[2][12], "$1,226.40");
    assert_eq!(rows[2][0], "");
}
