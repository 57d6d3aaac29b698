use habitui::config::{assert_service_installed, build_config_path, get_json_path, task_file_path, Config};
use habitui::error::Error;
use habitui::remote::{
    create_task_url, fetch_url, get_headers, interpret_fetch_response, interpret_response,
    move_url, score_up_url, task_url, usize_to_string, HABITICA_API_ENDPOINT,
};
use habitui::types::{parse_task_kind, TaskId, TaskKind};

fn cfg() -> Config {
    Config {
        user_id: "user-1".to_string(),
        api_token: "token-123".to_string(),
        xclient: "user-1-habitui".to_string(),
        postgres_url: "postgresql://localhost:5432/habitui".to_string(),
    }
}

#[test]
fn urls_match_the_wire_protocol() {
    assert_eq!(HABITICA_API_ENDPOINT, "https://habitica.com/api/v3");
    let id = TaskId::new("abc-123".to_string());
    assert_eq!(create_task_url(), "https://habitica.com/api/v3/tasks/user".to_string());
    assert_eq!(task_url(&id), "https://habitica.com/api/v3/tasks/abc-123".to_string());
    assert_eq!(
        score_up_url(&id),
        "https://habitica.com/api/v3/tasks/abc-123/score/up".to_string()
    );
    assert_eq!(
        move_url(&id, 4),
        "https://habitica.com/api/v3/tasks/abc-123/move/to/4".to_string()
    );
    assert_eq!(
        fetch_url(TaskKind::Todos),
        "https://habitica.com/api/v3/tasks/user?type=todos".to_string()
    );
    assert_eq!(
        fetch_url(TaskKind::CompletedTodos),
        "https://habitica.com/api/v3/tasks/user?type=completedTodos".to_string()
    );
}

#[test]
fn numbers_render_in_decimal() {
    assert_eq!(usize_to_string(0), "0".to_string());
    assert_eq!(usize_to_string(7), "7".to_string());
    assert_eq!(usize_to_string(42), "42".to_string());
    assert_eq!(usize_to_string(90103), "90103".to_string());
}

#[test]
fn every_request_carries_the_four_headers() {
    let h = get_headers(&cfg());
    assert_eq!(h.len(), 4);
    assert_eq!(h[0], ("x-api-user".to_string(), "user-1".to_string()));
    assert_eq!(h[1], ("x-api-key".to_string(), "token-123".to_string()));
    assert_eq!(h[2], ("x-client".to_string(), "user-1-habitui".to_string()));
    assert_eq!(h[3], ("Content-Type".to_string(), "application/json".to_string()));
}

#[test]
fn two_xx_responses_succeed_with_their_body() {
    assert_eq!(interpret_response(200, "{}".to_string()).unwrap(), "{}".to_string());
    assert_eq!(interpret_response(201, "body".to_string()).unwrap(), "body".to_string());
    assert_eq!(interpret_response(299, "x".to_string()).unwrap(), "x".to_string());
}

#[test]
fn a_404_is_not_found_and_other_failures_carry_status_and_body() {
    assert!(matches!(
        interpret_response(404, "missing".to_string()),
        Err(Error::NotFound)
    ));
    match interpret_response(500, "boom".to_string()) {
        Err(Error::RemoteRejected { status, body }) => {
            assert_eq!(status, 500);
            assert_eq!(body, "boom".to_string());
        }
        other => panic!("expected a rejection, got {other:?}"),
    }
    assert!(matches!(
        interpret_response(301, "moved".to_string()),
        Err(Error::RemoteRejected { .. })
    ));
}

#[test]
fn a_fetch_answered_2xx_hands_the_raw_body_through() {
    assert_eq!(
        interpret_fetch_response(200, "{\"data\":[]}".to_string()).unwrap(),
        "{\"data\":[]}".to_string()
    );
    assert_eq!(interpret_fetch_response(204, "".to_string()).unwrap(), "".to_string());
}

#[test]
fn a_failed_fetch_is_rejected_with_status_and_body_even_on_404() {
    match interpret_fetch_response(404, "no such route".to_string()) {
        Err(Error::RemoteRejected { status, body }) => {
            assert_eq!(status, 404);
            assert_eq!(body, "no such route".to_string());
        }
        other => panic!("expected a rejection, got {other:?}"),
    }
    match interpret_fetch_response(500, "boom".to_string()) {
        Err(Error::RemoteRejected { status, body }) => {
            assert_eq!(status, 500);
            assert_eq!(body, "boom".to_string());
        }
        other => panic!("expected a rejection, got {other:?}"),
    }
    assert!(!matches!(
        interpret_fetch_response(404, "x".to_string()),
        Err(Error::NotFound)
    ));
}

#[test]
fn task_kinds_parse_from_their_wire_names() {
    assert_eq!(parse_task_kind("todos").unwrap(), TaskKind::Todos);
    assert_eq!(parse_task_kind("completedTodos").unwrap(), TaskKind::CompletedTodos);
    assert!(matches!(parse_task_kind("dailys"), Err(Error::Malformed)));
    assert!(matches!(parse_task_kind(""), Err(Error::Malformed)));
}

#[test]
fn config_validation_requires_all_four_values() {
    let v = |s: &str| Some(s.to_string());
    assert!(assert_service_installed(&v("u"), &v("t"), &v("x"), &v("p")).is_ok());
    assert!(matches!(
        assert_service_installed(&None, &v("t"), &v("x"), &v("p")),
        Err(Error::ConfigurationMissing)
    ));
    assert!(matches!(
        assert_service_installed(&v("u"), &v("t"), &v("x"), &None),
        Err(Error::ConfigurationMissing)
    ));
    assert!(matches!(
        assert_service_installed(&None, &None, &None, &None),
        Err(Error::ConfigurationMissing)
    ));
}

#[test]
fn config_paths_follow_sudo_then_home() {
    let sudo = Some("alice".to_string());
    let home = Some("/home/bob".to_string());
    assert_eq!(
        build_config_path(&sudo, &home).unwrap(),
        "/home/alice/.config/habitui".to_string()
    );
    assert_eq!(
        build_config_path(&None, &home).unwrap(),
        "/home/bob/.config/habitui".to_string()
    );
    assert!(matches!(
        build_config_path(&None, &None),
        Err(Error::ConfigurationMissing)
    ));
}

#[test]
fn task_files_live_under_the_config_directory() {
    assert_eq!(
        get_json_path("/home/alice/.config/habitui"),
        "/home/alice/.config/habitui/habitica_tasks.json".to_string()
    );
    assert_eq!(
        task_file_path("/x", TaskKind::Todos),
        "/x/habitica_tasks.json".to_string()
    );
    assert_eq!(
        task_file_path("/x", TaskKind::CompletedTodos),
        "/x/habitica_completed.json".to_string()
    );
}
