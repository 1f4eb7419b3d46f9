use serde_json::Value;
use transformation_engine::args::JobArgs;
use transformation_engine::scheduler::{
    credentials_in, credentials_request, credentials_warning, ipc_client, overridden,
    read_credentials, scheduler_address, CredentialsError, IpcClient,
};

fn client() -> IpcClient {
    IpcClient {
        socket_path: "/run/scheduler".to_string(),
        run_id: -7,
        topic: "employee.data".to_string(),
        source_name: "TRANSFORMATION".to_string(),
        component: "mitm_transformation".to_string(),
    }
}

#[test]
fn messages_are_labelled() {
    assert_eq!(client().message("hello"), "employee.data: TRANSFORMATION: hello");
    assert_eq!(client().message(""), "employee.data: TRANSFORMATION: ");
}

#[test]
fn an_event_is_one_line_of_json() {
    assert_eq!(
        client().event_line("status", Some("started"), "go", Some(100)),
        "{\"component\":\"mitm_transformation\",\"message\":\"employee.data: TRANSFORMATION: go\",\"progress\":100,\"run_id\":-7,\"status\":\"started\",\"type\":\"status\"}"
    );
}

#[test]
fn what_an_event_is_not_given_has_a_value_all_the_same() {
    let event: Value =
        serde_json::from_str(&client().event_line("audit", None, "m", None)).unwrap();
    assert_eq!(event["status"], Value::from("unknown"));
    assert_eq!(event["progress"], Value::from(0));
    assert_eq!(event.as_object().unwrap().len(), 6);
}

#[test]
fn an_event_reads_back_and_stays_on_its_line() {
    let text = "two\nlines, a \"quote\", a \\ and a \u{1F600}";
    let line = client().event_line("status", Some("a\nb"), text, Some(0));
    assert!(!line.contains('\n'));
    let event: Value = serde_json::from_str(&line).unwrap();
    assert_eq!(event["message"], Value::from(client().message(text)));
    assert_eq!(event["status"], Value::from("a\nb"));
    assert_eq!(event["run_id"], Value::from(-7));
    assert_eq!(event["type"], Value::from("status"));
    assert_eq!(event["component"], Value::from("mitm_transformation"));
}

#[test]
fn a_request_names_its_run() {
    assert_eq!(credentials_request(42), "{\"run_id\":42,\"type\":\"get_credentials\"}");
    assert_eq!(
        credentials_request(i64::MIN),
        "{\"run_id\":-9223372036854775808,\"type\":\"get_credentials\"}"
    );
}

#[test]
fn credentials_are_read_from_a_reply() {
    let credentials =
        read_credentials("{\"db_config_json\":\"{}\",\"master_key\":\"k\\n\",\"x\":1}\n").ok().unwrap();
    assert_eq!(credentials.db_config_json, Some("{}".to_string()));
    assert_eq!(credentials.master_key, Some("k\n".to_string()));
}

#[test]
fn credentials_that_are_no_texts_are_missing() {
    let credentials =
        read_credentials("{\"db_config_json\":{},\"master_key\":null}").ok().unwrap();
    assert_eq!(credentials.db_config_json, None);
    assert_eq!(credentials.master_key, None);
    let credentials = read_credentials("{\"master_key\":\"k\"}").ok().unwrap();
    assert_eq!(credentials.db_config_json, None);
    assert_eq!(credentials.master_key, Some("k".to_string()));
}

#[test]
fn a_reply_that_is_no_object_holds_no_credentials() {
    for reply in ["5", "[\"master_key\"]", "\"master_key\"", "null", "{}"] {
        let credentials = read_credentials(reply).ok().unwrap();
        assert_eq!(credentials.db_config_json, None);
        assert_eq!(credentials.master_key, None);
    }
    assert_eq!(credentials_in(&Value::Null).master_key, None);
}

#[test]
fn a_reply_that_is_no_json_is_refused() {
    for reply in ["", "\n", "{", "master_key", "{} {}"] {
        assert_eq!(read_credentials(reply).err(), Some(CredentialsError::InvalidReply));
    }
    assert_eq!(CredentialsError::InvalidReply.message(), "scheduler returned invalid JSON");
}

#[test]
fn without_a_scheduler_there_is_nobody_to_ask() {
    let path = Some("/s".to_string());
    let id = Some("3".to_string());
    assert_eq!(scheduler_address(None, id.clone()), Err(CredentialsError::NotUnderScheduler));
    assert_eq!(scheduler_address(path.clone(), None), Err(CredentialsError::NotUnderScheduler));
    assert_eq!(scheduler_address(None, None), Err(CredentialsError::NotUnderScheduler));
    assert_eq!(
        scheduler_address(None, Some("x".to_string())),
        Err(CredentialsError::NotUnderScheduler)
    );
    assert_eq!(
        scheduler_address(path.clone(), Some("x".to_string())),
        Err(CredentialsError::InvalidRunId)
    );
    assert_eq!(scheduler_address(path, id), Ok(("/s".to_string(), 3)));
    assert_eq!(CredentialsError::NotUnderScheduler.message(), "not running under scheduler");
    assert_eq!(CredentialsError::InvalidRunId.message(), "invalid RUN_ID");
}

#[test]
fn only_a_scheduled_job_warns_of_missing_credentials() {
    assert_eq!(
        credentials_warning(true, true, "e"),
        Some("[IPC WARNING] Failed to get credentials from scheduler: e".to_string())
    );
    assert_eq!(credentials_warning(true, false, "e"), None);
    assert_eq!(credentials_warning(false, true, "e"), None);
    assert_eq!(credentials_warning(false, false, "e"), None);
}

#[test]
fn a_scheduled_job_has_a_client() {
    let args = JobArgs::default();
    let made = ipc_client(&args, Some("/s".to_string()), Some("-12".to_string())).unwrap();
    assert_eq!(made.socket_path, "/s");
    assert_eq!(made.run_id, -12);
    assert_eq!(made.topic, "employee.data");
    assert_eq!(made.source_name, "TRANSFORMATION");
    assert_eq!(made.component, "mitm_transformation");
    assert!(ipc_client(&args, None, Some("1".to_string())).is_none());
    assert!(ipc_client(&args, Some("/s".to_string()), None).is_none());
    assert!(ipc_client(&args, Some("/s".to_string()), Some("one".to_string())).is_none());
}

#[test]
fn a_value_of_the_scheduler_takes_the_place_of_the_variable() {
    let given = Some("given".to_string());
    let variable = Some("variable".to_string());
    assert_eq!(overridden(given.clone(), variable.clone()), given);
    assert_eq!(overridden(given.clone(), None), given);
    assert_eq!(overridden(None, variable.clone()), variable);
    assert_eq!(overridden(None, None), None);
}
