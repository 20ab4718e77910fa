use cmdex::lsp_runtimes::{LspEvent, LspEventOutcome, LspRuntimes};

#[test]
fn commands_waiting_for_a_starting_server_go_out_in_order_when_it_is_ready() {
    let mut runtimes: LspRuntimes<u32, String> = LspRuntimes::new();
    runtimes.wait_for_start((0, 1), "didOpen".to_string());
    runtimes.wait_for_start((0, 1), "hover".to_string());
    runtimes.wait_for_start((1, 1), "other".to_string());
    let outcome = runtimes.handle_lsp_event(LspEvent::RuntimeReady {
        key: (0, 1),
        server_name: "rust-analyzer".to_string(),
        handle: 7,
    });
    match outcome {
        LspEventOutcome::Send(sends) => {
            assert_eq!(sends, vec!["didOpen".to_string(), "hover".to_string()])
        }
        other => panic!("unexpected outcome {:?}", other),
    }
    assert!(runtimes.is_starting((0, 1)));
    let runtime = runtimes.runtime((0, 1)).expect("runtime registered");
    assert_eq!(runtime.handle, 7);
    assert_eq!(runtime.server_name, "rust-analyzer");
    assert_eq!(runtimes.waiting.len(), 1);
    assert_eq!(runtimes.waiting[0].0, (1, 1));
}

#[test]
fn a_failed_server_drops_its_runtime_and_waiting_commands_and_reports_the_error() {
    let mut runtimes: LspRuntimes<u32, String> = LspRuntimes::new();
    runtimes.start_runtime((2, 0), "pyright".to_string(), 3);
    runtimes.wait_for_start((2, 0), "hover".to_string());
    let outcome = runtimes.handle_lsp_event(LspEvent::RuntimeFailed {
        key: (2, 0),
        message: "server exited".to_string(),
    });
    match outcome {
        LspEventOutcome::ShowError { agent_index, message } => {
            assert_eq!(agent_index, 2);
            assert_eq!(message, "server exited");
        }
        other => panic!("unexpected outcome {:?}", other),
    }
    assert!(runtimes.runtime((2, 0)).is_none());
    assert!(runtimes.waiting.is_empty());
    let ready = runtimes.handle_lsp_event(LspEvent::RuntimeReady {
        key: (2, 0),
        server_name: "pyright".to_string(),
        handle: 4,
    });
    match ready {
        LspEventOutcome::Send(sends) => assert!(sends.is_empty()),
        other => panic!("unexpected outcome {:?}", other),
    }
}

#[test]
fn an_answer_marks_only_the_answering_server_ready() {
    let mut runtimes: LspRuntimes<u32, String> = LspRuntimes::new();
    runtimes.start_runtime((0, 0), "a".to_string(), 1);
    runtimes.start_runtime((0, 1), "b".to_string(), 2);
    runtimes.start_runtime((1, 0), "c".to_string(), 3);
    let outcome = runtimes.handle_lsp_event(LspEvent::Answered {
        agent_index: 0,
        server_index: Some(1),
    });
    assert!(matches!(outcome, LspEventOutcome::Nothing));
    assert!(runtimes.is_starting((0, 0)));
    assert!(!runtimes.is_starting((0, 1)));
    assert!(runtimes.is_starting((1, 0)));
    let none = runtimes.handle_lsp_event(LspEvent::Answered {
        agent_index: 1,
        server_index: None,
    });
    assert!(matches!(none, LspEventOutcome::Nothing));
    assert!(runtimes.is_starting((1, 0)));
}

#[test]
fn a_send_failure_drops_the_runtime_so_the_next_request_starts_it_again() {
    let mut runtimes: LspRuntimes<u32, String> = LspRuntimes::new();
    runtimes.start_runtime((0, 0), "a".to_string(), 1);
    runtimes.start_runtime((0, 0), "a".to_string(), 5);
    assert_eq!(runtimes.runtimes.len(), 1);
    assert_eq!(runtimes.runtime((0, 0)).map(|r| r.handle), Some(5));
    runtimes.drop_runtime((0, 0));
    assert!(runtimes.runtime((0, 0)).is_none());
    assert!(!runtimes.is_starting((0, 0)));
}

use cmdex::lsp_inbox::MessageInbox;
use cmdex::lsp_session::{route_message, MessageRoute};
use serde_json::Value;

#[test]
fn lsp_response_wait_keeps_interleaved_notifications_and_other_responses() {
    let mut inbox: MessageInbox<Value> = MessageInbox::new();
    let notification: Value = serde_json::from_str(
        r#"{"jsonrpc":"2.0","method":"window/logMessage","params":{"message":"indexing"}}"#,
    )
    .unwrap();
    let response: Value =
        serde_json::from_str(r#"{"jsonrpc":"2.0","id":9,"result":{"ready":true}}"#).unwrap();

    let route = route_message(Some("window/logMessage".to_string()), false, None);
    inbox.keep(&route, notification);
    let route = route_message(None, true, Some(9));
    inbox.keep(&route, response);

    let response = inbox.take_response(9).unwrap();
    assert_eq!(response.get("id").and_then(Value::as_u64), Some(9));
    assert_eq!(inbox.notifications.len(), 1);
}

#[test]
fn kept_responses_are_handed_out_once_and_replaced_by_id() {
    let mut inbox: MessageInbox<String> = MessageInbox::new();
    inbox.keep(&MessageRoute::Response { id: 3 }, "first".to_string());
    inbox.keep(&MessageRoute::Response { id: 4 }, "other".to_string());
    inbox.keep(&MessageRoute::Response { id: 3 }, "second".to_string());
    inbox.keep(&MessageRoute::Ignore, "dropped".to_string());
    inbox.keep(&MessageRoute::RejectRequest { method: "x".to_string() }, "request".to_string());
    assert!(inbox.notifications.is_empty());
    assert_eq!(inbox.take_response(3), Some("second".to_string()));
    assert_eq!(inbox.take_response(3), None);
    assert_eq!(inbox.take_response(4), Some("other".to_string()));
    inbox.keep(&MessageRoute::Notification { method: "a".to_string() }, "n1".to_string());
    inbox.keep(&MessageRoute::Notification { method: "b".to_string() }, "n2".to_string());
    assert_eq!(inbox.notifications, vec!["n1".to_string(), "n2".to_string()]);
    inbox.keep(&MessageRoute::Response { id: 8 }, "late".to_string());
    inbox.clear();
    assert_eq!(inbox.take_response(8), None);
    assert!(inbox.notifications.is_empty());
}
