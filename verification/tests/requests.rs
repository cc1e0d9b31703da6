use math_worksheet::request::{
    plan_worksheet, plan_worksheet_with, problem_count, valid_tables, validate, Failure,
    RequestError, WorksheetRequest, CONTENT_DISPOSITION, CONTENT_TYPE,
};
use rand::rngs::StdRng;
use rand::SeedableRng;

fn request(tables: &[u8], count: Option<usize>) -> WorksheetRequest {
    WorksheetRequest { tables: tables.to_vec(), count }
}

#[test]
fn count_defaults_to_thirty() {
    assert_eq!(problem_count(None), 30);
}

#[test]
fn count_is_clamped() {
    assert_eq!(problem_count(Some(0)), 1);
    assert_eq!(problem_count(Some(37)), 30);
    assert_eq!(problem_count(Some(1)), 1);
    assert_eq!(problem_count(Some(30)), 30);
    assert_eq!(problem_count(Some(31)), 30);
    assert_eq!(problem_count(Some(17)), 17);
    assert_eq!(problem_count(Some(usize::MAX)), 30);
}

#[test]
fn tables_out_of_range_are_dropped_in_place() {
    assert_eq!(valid_tables(&[0, 1, 11, 10, 5, 200, 5]), vec![1, 10, 5, 5]);
    assert_eq!(valid_tables(&[11, 12]), Vec::<u8>::new());
    assert_eq!(valid_tables(&[]), Vec::<u8>::new());
    assert_eq!(valid_tables(&[3, 3, 3]), vec![3, 3, 3]);
}

#[test]
fn empty_tables_are_rejected() {
    assert_eq!(validate(&request(&[], Some(5))), Err(RequestError::NoTables));
    assert_eq!(validate(&request(&[], None)), Err(RequestError::NoTables));
}

#[test]
fn tables_all_out_of_range_are_rejected() {
    assert_eq!(validate(&request(&[11, 12], Some(5))), Err(RequestError::NoValidTables));
    assert_eq!(validate(&request(&[0], None)), Err(RequestError::NoValidTables));
}

#[test]
fn valid_request_is_normalised() {
    assert_eq!(validate(&request(&[7], Some(5))), Ok((vec![7], 5)));
    assert_eq!(validate(&request(&[0, 2, 11, 3], None)), Ok((vec![2, 3], 30)));
    assert_eq!(validate(&request(&[4], Some(0))), Ok((vec![4], 1)));
    assert_eq!(validate(&request(&[4], Some(37))), Ok((vec![4], 30)));
}

#[test]
fn rejected_request_plans_nothing() {
    let mut rng = StdRng::seed_from_u64(1);
    let untouched = rng.clone();
    assert!(matches!(
        plan_worksheet_with(&request(&[], Some(5)), &mut rng),
        Err(RequestError::NoTables)
    ));
    assert!(matches!(
        plan_worksheet_with(&request(&[11, 12], Some(5)), &mut rng),
        Err(RequestError::NoValidTables)
    ));
    assert_eq!(rng, untouched);
    assert!(matches!(plan_worksheet(&request(&[], None)), Err(RequestError::NoTables)));
    assert!(matches!(plan_worksheet(&request(&[0, 11], None)), Err(RequestError::NoValidTables)));
}

#[test]
fn planned_sheet_has_lines_and_places() {
    let mut rng = StdRng::seed_from_u64(11);
    let sheet = match plan_worksheet_with(&request(&[7, 0, 12], Some(5)), &mut rng) {
        Ok(sheet) => sheet,
        Err(error) => panic!("rejected: {:?}", error),
    };
    assert_eq!(sheet.operations.len(), 5);
    assert_eq!(sheet.page.rows, 3);
    assert_eq!(sheet.page.placements.len(), 5);
    for line in &sheet.operations {
        assert!(line.ends_with(" x 7 = ___"), "{}", line);
    }
}

#[test]
fn planned_sheet_defaults_to_thirty_lines() {
    let sheet = match plan_worksheet(&request(&[1, 2, 3], None)) {
        Ok(sheet) => sheet,
        Err(error) => panic!("rejected: {:?}", error),
    };
    assert_eq!(sheet.operations.len(), 30);
    assert_eq!(sheet.page.rows, 15);
    assert_eq!(sheet.page.placements.len(), 30);
}

#[test]
fn planned_sheet_clamps_the_count() {
    let mut rng = StdRng::seed_from_u64(3);
    let small = plan_worksheet_with(&request(&[9], Some(0)), &mut rng);
    assert_eq!(small.map(|sheet| sheet.operations.len()).ok(), Some(1));
    let large = plan_worksheet_with(&request(&[9], Some(37)), &mut rng);
    assert_eq!(large.map(|sheet| sheet.operations.len()).ok(), Some(30));
}

#[test]
fn failures_map_to_http_statuses() {
    assert_eq!(Failure::Rejected(RequestError::NoTables).status_code(), 400);
    assert_eq!(Failure::Rejected(RequestError::NoValidTables).status_code(), 400);
    assert_eq!(Failure::Rendering.status_code(), 500);
}

#[test]
fn response_headers_name_a_pdf() {
    assert_eq!(CONTENT_TYPE, "application/pdf");
    assert_eq!(CONTENT_DISPOSITION, "inline; filename=worksheet.pdf");
}
