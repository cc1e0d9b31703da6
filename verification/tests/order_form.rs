use math_worksheet::form::{api_endpoint, Form, Status, API_PATH, API_PORT, SWITCH_COUNT};

#[test]
fn fresh_form_is_blank() {
    let form = Form::new();
    for index in 0..SWITCH_COUNT {
        assert!(!form.is_on(index));
    }
    assert_eq!(form.count(), 30);
    assert_eq!(form.status(), Status::Idle);
    assert_eq!(form.download_url(), None);
    assert!(form.selected_tables().is_empty());
}

#[test]
fn toggle_flips_one_switch() {
    let mut form = Form::new();
    form.toggle(3);
    assert!(form.is_on(3));
    assert!(!form.is_on(2));
    assert!(!form.is_on(4));
    form.toggle(3);
    assert!(!form.is_on(3));
}

#[test]
fn toggle_past_the_last_switch_changes_nothing() {
    let mut form = Form::new();
    form.toggle(10);
    form.toggle(usize::MAX);
    assert!(form.selected_tables().is_empty());
    assert!(!form.is_on(10));
}

#[test]
fn selected_tables_count_from_one() {
    let mut form = Form::new();
    form.toggle(9);
    form.toggle(0);
    form.toggle(6);
    assert_eq!(form.selected_tables(), vec![1, 7, 10]);
    for index in 0..SWITCH_COUNT {
        if !form.is_on(index) {
            form.toggle(index);
        }
    }
    assert_eq!(form.selected_tables(), vec![1, 2, 3, 4, 5, 6, 7, 8, 9, 10]);
}

#[test]
fn count_input_is_clamped() {
    let mut form = Form::new();
    form.set_count(Some(12));
    assert_eq!(form.count(), 12);
    form.set_count(Some(0));
    assert_eq!(form.count(), 1);
    form.set_count(Some(37));
    assert_eq!(form.count(), 30);
    form.set_count(Some(u32::MAX));
    assert_eq!(form.count(), 30);
    form.set_count(Some(5));
    form.set_count(None);
    assert_eq!(form.count(), 30);
}

#[test]
fn submit_without_tables_sends_nothing() {
    let mut form = Form::new();
    assert!(form.submit().is_none());
    assert_eq!(form.status(), Status::NothingSelected);
    assert_eq!(form.status().message(), "Select at least one table.");
}

#[test]
fn submit_hands_out_the_request() {
    let mut form = Form::new();
    form.toggle(1);
    form.toggle(4);
    form.set_count(Some(8));
    form.finish(Some("blob:earlier".to_string()));
    let submission = form.submit().expect("tables are selected");
    assert_eq!(submission.tables, vec![2, 5]);
    assert_eq!(submission.count, 8);
    assert_eq!(form.status(), Status::Generating);
    assert_eq!(form.download_url(), None);
    assert!(form.is_on(1) && form.is_on(4));
    assert_eq!(form.count(), 8);
}

#[test]
fn finish_takes_the_outcome() {
    let mut form = Form::new();
    form.toggle(0);
    form.submit();
    form.finish(Some("blob:sheet".to_string()));
    assert_eq!(form.status(), Status::Ready);
    assert_eq!(form.download_url().map(|url| url.as_str()), Some("blob:sheet"));
    form.finish(None);
    assert_eq!(form.status(), Status::Failed);
    assert_eq!(form.download_url().map(|url| url.as_str()), Some("blob:sheet"));
}

#[test]
fn status_messages() {
    assert_eq!(Status::Idle.message(), "");
    assert_eq!(Status::NothingSelected.message(), "Select at least one table.");
    assert_eq!(Status::Generating.message(), "Generating worksheet...");
    assert_eq!(Status::Failed.message(), "Failed to generate worksheet.");
    assert_eq!(Status::Ready.message(), "Worksheet ready.");
}

#[test]
fn endpoint_names_host_port_and_path() {
    assert_eq!(
        api_endpoint(Some("https:"), Some("example.org")),
        "https://example.org:4001/api/worksheet"
    );
    assert_eq!(API_PORT, 4001);
    assert_eq!(API_PATH, "/api/worksheet");
}

#[test]
fn endpoint_falls_back_to_the_local_host() {
    assert_eq!(api_endpoint(None, None), "http://127.0.0.1:4001/api/worksheet");
    assert_eq!(api_endpoint(None, Some("box")), "http://box:4001/api/worksheet");
    assert_eq!(api_endpoint(Some("https:"), None), "https://127.0.0.1:4001/api/worksheet");
}
