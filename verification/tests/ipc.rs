use ironbar::ipc::server::{
    BarWindow, ConnectionAction, ConnectionEvent, ConnectionPhase, Effect, Finding, Inquiry, Popup, PopupEntry, ServerAction,
    ServerEvent, ServerPhase, REQUEST_LIMIT,
};
use ironbar::ipc::{Command, Ipc, Response};

fn text(s: &str) -> String {
    s.to_string()
}

fn entry(id: usize, module_name: &str, buttons: &[usize]) -> PopupEntry {
    PopupEntry { id, module_name: text(module_name), buttons: buttons.to_vec() }
}

fn popup(current_widget: Option<usize>) -> Popup {
    Popup {
        cache: vec![
            entry(1, "clock", &[11, 12]),
            entry(2, "label", &[]),
            entry(3, "music", &[31]),
            entry(4, "clock", &[41]),
        ],
        current_widget,
    }
}

fn windows() -> Vec<BarWindow> {
    vec![
        BarWindow { name: text("top"), visible: true },
        BarWindow { name: text("bottom"), visible: false },
        BarWindow { name: text("top"), visible: false },
    ]
}

fn toggle(name: &str) -> Command {
    Command::TogglePopup { bar_name: text("bar"), name: text(name) }
}

fn open(name: &str) -> Command {
    Command::OpenPopup { bar_name: text("bar"), name: text(name) }
}

fn refused(response: &Response, reason: &str) -> bool {
    match response {
        Response::Failure { message: Some(message) } => message == reason,
        _ => false,
    }
}

#[test]
fn every_command_has_its_inquiry() {
    let cases = vec![
        (Command::Inspect, Inquiry::EnableDebugging),
        (Command::Reload, Inquiry::Reload),
        (Command::SetVar { key: text("k"), value: text("v") }, Inquiry::SetVariable),
        (Command::Get { key: text("k") }, Inquiry::GetVariable),
        (Command::LoadCss { path: text("p") }, Inquiry::CheckPath),
        (toggle("clock"), Inquiry::FindPopup),
        (open("clock"), Inquiry::FindPopup),
        (Command::ClosePopup { bar_name: text("bar") }, Inquiry::FindPopup),
        (Command::Ping, Inquiry::Nothing),
        (Command::SetVisible { bar_name: text("top"), visible: true }, Inquiry::ListWindows),
        (Command::GetVisible { bar_name: text("top") }, Inquiry::ListWindows),
    ];
    for (command, inquiry) in cases {
        assert_eq!(Ipc::inquire(&command), inquiry);
    }
}

#[test]
fn plain_commands_succeed() {
    for command in [Command::Inspect, Command::Reload, Command::Ping] {
        let (effects, response) = Ipc::handle_command(&command, Finding::Done);
        assert!(effects.is_empty());
        assert!(matches!(response, Response::Success));
    }
}

#[test]
fn variables_are_set_or_refused() {
    let command = Command::SetVar { key: text("k"), value: text("v") };
    let (effects, response) = Ipc::handle_command(&command, Finding::VariableSet(Ok(())));
    assert!(effects.is_empty());
    assert!(matches!(response, Response::Success));
    let (_, response) = Ipc::handle_command(
        &command,
        Finding::VariableSet(Err(text("Invalid variable key"))),
    );
    assert!(refused(&response, "Invalid variable key"));
}

#[test]
fn variables_are_read() {
    let command = Command::Get { key: text("k") };
    let (_, response) = Ipc::handle_command(&command, Finding::Variable(Some(text("v"))));
    match response {
        Response::OkValue { value } => assert_eq!(value, "v"),
        _ => panic!("expected a value"),
    }
    let (_, response) = Ipc::handle_command(&command, Finding::Variable(None));
    assert!(refused(&response, "Variable not found"));
}

#[test]
fn style_sheets_are_loaded_if_they_exist() {
    let command = Command::LoadCss { path: text("/style.css") };
    let (effects, response) = Ipc::handle_command(&command, Finding::PathExists(true));
    assert_eq!(effects, vec![Effect::LoadCss]);
    assert!(matches!(response, Response::Success));
    let (effects, response) = Ipc::handle_command(&command, Finding::PathExists(false));
    assert!(effects.is_empty());
    assert!(refused(&response, "File not found"));
}

#[test]
fn toggling_shows_the_first_module_of_the_name_at_its_first_button() {
    let (effects, response) =
        Ipc::handle_command(&toggle("clock"), Finding::Popup(Some(popup(None))));
    assert_eq!(
        effects,
        vec![Effect::HidePopup, Effect::ShowPopup { id: 1, button_id: 11 }]
    );
    assert!(matches!(response, Response::Success));
}

#[test]
fn toggling_twice_hides() {
    let (effects, response) =
        Ipc::handle_command(&toggle("clock"), Finding::Popup(Some(popup(Some(1)))));
    assert_eq!(effects, vec![Effect::HidePopup]);
    assert!(matches!(response, Response::Success));
}

#[test]
fn toggling_replaces_another_module() {
    let (effects, _) =
        Ipc::handle_command(&toggle("music"), Finding::Popup(Some(popup(Some(1)))));
    assert_eq!(
        effects,
        vec![Effect::HidePopup, Effect::ShowPopup { id: 3, button_id: 31 }]
    );
}

#[test]
fn opening_shows_whatever_was_shown() {
    for current in [None, Some(1), Some(3)] {
        let (effects, response) =
            Ipc::handle_command(&open("clock"), Finding::Popup(Some(popup(current))));
        assert_eq!(
            effects,
            vec![Effect::HidePopup, Effect::ShowPopup { id: 1, button_id: 11 }]
        );
        assert!(matches!(response, Response::Success));
    }
}

#[test]
fn refused_popups_are_hidden_all_the_same() {
    for command in [toggle("label"), open("label")] {
        let (effects, response) =
            Ipc::handle_command(&command, Finding::Popup(Some(popup(Some(1)))));
        assert_eq!(effects, vec![Effect::HidePopup]);
        assert!(refused(&response, "Module has no popup functionality"));
    }
    for command in [toggle("tray"), open("tray")] {
        let (effects, response) =
            Ipc::handle_command(&command, Finding::Popup(Some(popup(None))));
        assert_eq!(effects, vec![Effect::HidePopup]);
        assert!(refused(&response, "Invalid module name"));
    }
}

#[test]
fn popups_of_unknown_bars() {
    let close = Command::ClosePopup { bar_name: text("bar") };
    for command in [toggle("clock"), open("clock"), close] {
        let (effects, response) = Ipc::handle_command(&command, Finding::Popup(None));
        assert!(effects.is_empty());
        assert!(refused(&response, "Invalid monitor name"));
    }
}

#[test]
fn closing_hides() {
    let close = Command::ClosePopup { bar_name: text("bar") };
    for current in [None, Some(3)] {
        let (effects, response) =
            Ipc::handle_command(&close, Finding::Popup(Some(popup(current))));
        assert_eq!(effects, vec![Effect::HidePopup]);
        assert!(matches!(response, Response::Success));
    }
}

#[test]
fn bars_are_shown_and_hidden() {
    let command = Command::SetVisible { bar_name: text("bottom"), visible: true };
    let (effects, response) = Ipc::handle_command(&command, Finding::Windows(windows()));
    assert_eq!(effects, vec![Effect::SetVisible { window: 1, visible: true }]);
    assert!(matches!(response, Response::Success));
    let command = Command::SetVisible { bar_name: text("left"), visible: true };
    let (effects, response) = Ipc::handle_command(&command, Finding::Windows(windows()));
    assert!(effects.is_empty());
    assert!(refused(&response, "Bar not found"));
}

#[test]
fn visibility_reads_back() {
    for visible in [true, false] {
        let mut listed = windows();
        let command = Command::SetVisible { bar_name: text("top"), visible };
        let (effects, _) = Ipc::handle_command(&command, Finding::Windows(windows()));
        for effect in effects {
            if let Effect::SetVisible { window, visible } = effect {
                listed[window].visible = visible;
            }
        }
        let command = Command::GetVisible { bar_name: text("top") };
        match Ipc::handle_command(&command, Finding::Windows(listed)) {
            (effects, Response::OkValue { value }) => {
                assert!(effects.is_empty());
                assert_eq!(value, visible.to_string());
            }
            _ => panic!("expected a value"),
        }
    }
    let command = Command::GetVisible { bar_name: text("left") };
    let (_, response) = Ipc::handle_command(&command, Finding::Windows(windows()));
    assert!(refused(&response, "Bar not found"));
}

#[test]
fn errors_carry_their_message() {
    assert!(refused(&Response::error("reason"), "reason"));
}

#[test]
fn a_left_over_socket_is_removed() {
    let (phase, actions) = Ipc::start(true);
    assert_eq!(phase, ServerPhase::Binding);
    assert_eq!(
        actions,
        vec![ServerAction::WarnOfSocket, ServerAction::Shutdown, ServerAction::Bind]
    );
    let (_, actions) = Ipc::start(false);
    assert_eq!(actions, vec![ServerAction::Bind]);
}

#[test]
fn a_server_that_cannot_bind_stops() {
    let (phase, actions) = Ipc::advance(ServerPhase::Binding, ServerEvent::Bound(false));
    assert_eq!(phase, ServerPhase::Stopped);
    assert_eq!(actions, vec![ServerAction::ReportError]);
}

#[test]
fn a_bound_server_goes_on() {
    let (phase, actions) = Ipc::advance(ServerPhase::Binding, ServerEvent::Bound(true));
    assert_eq!(actions, vec![ServerAction::Accept]);
    let (phase, actions) = Ipc::advance(phase, ServerEvent::Accepted(false));
    assert_eq!(actions, vec![ServerAction::ReportError, ServerAction::Accept]);
    let (phase, actions) = Ipc::advance(phase, ServerEvent::Accepted(true));
    assert_eq!(actions, vec![ServerAction::Serve]);
    let (phase, actions) = Ipc::advance(phase, ServerEvent::Served(false));
    assert_eq!(actions, vec![ServerAction::ReportError, ServerAction::Accept]);
    let (phase, _) = Ipc::advance(phase, ServerEvent::Accepted(true));
    let (phase, actions) = Ipc::advance(phase, ServerEvent::Served(true));
    assert_eq!(actions, vec![ServerAction::Accept]);
    assert_eq!(phase, ServerPhase::Accepting);
}

type Event = ConnectionEvent<&'static str>;

fn failure(phase: ConnectionPhase, event: Event) -> &'static str {
    match Ipc::handle_connection(phase, event) {
        (ConnectionPhase::Failed, ConnectionAction::Finish(Err(reason))) => reason,
        _ => "no failure",
    }
}

#[test]
fn a_connection_is_served_step_by_step() {
    let (phase, action) = Ipc::handle_connection(ConnectionPhase::New, Event::Accepted);
    assert!(matches!(action, ConnectionAction::Fill));
    let (phase, action) = Ipc::handle_connection(phase, Event::Filled(Ok((vec![1, 2, 3, 0], 3))));
    assert!(matches!(action, ConnectionAction::Decode(bytes) if bytes == vec![1, 2, 3]));
    let command = Command::Get { key: text("k") };
    let (phase, action) = Ipc::handle_connection(phase, Event::Decoded(Ok(command)));
    assert!(
        matches!(action, ConnectionAction::Forward(Command::Get { key }) if key == "k")
    );
    let (phase, action) = Ipc::handle_connection(phase, Event::Forwarded);
    assert!(matches!(action, ConnectionAction::Await));
    let response = Response::OkValue { value: text("v") };
    let (phase, action) = Ipc::handle_connection(phase, Event::Answered(Some(response)));
    assert!(
        matches!(action, ConnectionAction::Encode(Response::OkValue { value }) if value == "v")
    );
    let (phase, action) = Ipc::handle_connection(phase, Event::Encoded(Ok(vec![9, 8])));
    assert!(matches!(action, ConnectionAction::Write(bytes) if bytes == vec![9, 8]));
    let (phase, action) = Ipc::handle_connection(phase, Event::Written(Ok(())));
    assert!(matches!(action, ConnectionAction::Close));
    let (phase, action) = Ipc::handle_connection(phase, Event::Closed(Ok(())));
    assert!(matches!(action, ConnectionAction::Finish(Ok(()))));
    assert_eq!(phase, ConnectionPhase::Served);
}

#[test]
fn a_connection_that_fails() {
    assert_eq!(failure(ConnectionPhase::Reading, Event::Filled(Err("read"))), "read");
    assert_eq!(failure(ConnectionPhase::Decoding, Event::Decoded(Err("decode"))), "decode");
    assert_eq!(failure(ConnectionPhase::Encoding, Event::Encoded(Err("encode"))), "encode");
    assert_eq!(failure(ConnectionPhase::Writing, Event::Written(Err("write"))), "write");
    assert_eq!(failure(ConnectionPhase::Closing, Event::Closed(Err("close"))), "close");
    let (phase, action) = Ipc::handle_connection(ConnectionPhase::Awaiting, Event::Answered(None));
    assert_eq!(phase, ConnectionPhase::Encoding);
    assert!(matches!(
        action,
        ConnectionAction::Encode(Response::Failure { message: None })
    ));
}

#[test]
fn clients_get_their_own_response() {
    let mut waiting = Vec::new();
    for key in ["a", "b", "c"] {
        let command = Command::Get { key: text(key) };
        let (phase, action) =
            Ipc::handle_connection(ConnectionPhase::Decoding, Event::Decoded(Ok(command)));
        if let ConnectionAction::Forward(Command::Get { key }) = action {
            waiting.push(key);
        }
        let (_, action) = Ipc::handle_connection(phase, Event::Forwarded);
        assert!(matches!(action, ConnectionAction::Await));
        assert_eq!(waiting.len(), 1);
        assert_eq!(waiting.remove(0), key);
    }
}

#[test]
fn the_request_is_what_was_read() {
    let mut buffer = vec![0u8; REQUEST_LIMIT];
    buffer[0] = 7;
    buffer[1] = 8;
    assert_eq!(Ipc::request(&buffer, 2), &[7, 8]);
    assert_eq!(Ipc::request(&buffer, 0).len(), 0);
    assert_eq!(Ipc::request(&buffer, 1024).len(), 1024);
}

#[test]
fn no_response_is_a_failure_without_a_message() {
    assert!(matches!(
        Ipc::response_or_failure(None),
        Response::Failure { message: None }
    ));
    assert!(matches!(
        Ipc::response_or_failure(Some(Response::Success)),
        Response::Success
    ));
}
