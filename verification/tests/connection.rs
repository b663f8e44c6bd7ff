use session_control::connection::{client_msg, serve, Connection, ConnectionState};
use session_control::protocol::{Config, Directive};
use session_control::registry::{Registry, WsClient};

fn config() -> Config {
    Config { sessions: vec!["alpha".to_string()], restart_script: None }
}

fn pong_number(text: &str) -> u128 {
    let digits = text.strip_prefix("PONG ").unwrap();
    assert!(!digits.is_empty());
    assert!(digits.chars().all(|c| c.is_ascii_digit()));
    digits.parse().unwrap()
}

#[test]
fn connection_starts_connecting() {
    assert_eq!(Connection::new().state(), ConnectionState::Connecting);
}

#[test]
fn open_as_registers_the_identity() {
    let mut clients = Registry::new();
    let mut connection = Connection::new();
    assert!(connection.open_as(42, &mut clients));
    assert_eq!(connection.state(), ConnectionState::Open(42));
    assert_eq!(clients.len(), 1);
    assert!(clients.contains(42));
    assert_eq!(clients.take_waiting(42), Vec::<String>::new());
}

#[test]
fn open_as_refuses_an_identity_that_is_taken() {
    let mut clients = Registry::new();
    let mut first = Connection::new();
    assert!(first.open_as(42, &mut clients));
    assert!(clients.send(42, "kept".to_string()));
    let mut second = Connection::new();
    assert!(!second.open_as(42, &mut clients));
    assert_eq!(second.state(), ConnectionState::Connecting);
    assert_eq!(clients.len(), 1);
    assert_eq!(clients.take_waiting(42), vec!["kept"]);
    assert!(second.open_as(43, &mut clients));
    assert_eq!(clients.len(), 2);
}

#[test]
fn open_as_refuses_a_connection_that_is_not_connecting() {
    let mut clients = Registry::new();
    let mut connection = Connection::new();
    assert!(connection.open_as(1, &mut clients));
    assert!(!connection.open_as(2, &mut clients));
    assert_eq!(connection.state(), ConnectionState::Open(1));
    connection.close(&mut clients);
    assert!(!connection.open_as(3, &mut clients));
    assert_eq!(connection.state(), ConnectionState::Closed);
    assert_eq!(clients.len(), 0);
}

#[test]
fn open_draws_a_fresh_identity() {
    let mut clients = Registry::new();
    let mut first = Connection::new();
    let mut second = Connection::new();
    assert!(first.open(&mut clients));
    assert!(second.open(&mut clients));
    let (a, b) = match (first.state(), second.state()) {
        (ConnectionState::Open(a), ConnectionState::Open(b)) => (a, b),
        other => panic!("not open: {:?}", other),
    };
    assert_ne!(a, b);
    assert_eq!(clients.len(), 2);
    assert!(clients.contains(a));
    assert!(clients.contains(b));
}

#[test]
fn answer_goes_to_the_sender_only() {
    let mut clients = Registry::new();
    let mut one = Connection::new();
    let mut two = Connection::new();
    assert!(one.open_as(1, &mut clients));
    assert!(two.open_as(2, &mut clients));
    assert_eq!(one.receive("CMD", &config(), &mut clients), Directive::Nothing);
    assert_eq!(clients.take_waiting(2), Vec::<String>::new());
    assert_eq!(clients.take_waiting(1), vec!["invalid command"]);
    assert_eq!(two.receive("RESTART", &config(), &mut clients), Directive::Nothing);
    assert_eq!(clients.take_waiting(1), Vec::<String>::new());
    assert_eq!(clients.take_waiting(2), vec!["no restart script found"]);
}

#[test]
fn cmd_is_left_for_the_bridge_and_not_answered() {
    let mut clients = Registry::new();
    let mut connection = Connection::new();
    assert!(connection.open_as(1, &mut clients));
    assert_eq!(
        connection.receive("CMD alpha restart", &config(), &mut clients),
        Directive::Command { target: "alpha".to_string(), command: "restart".to_string() }
    );
    assert_eq!(clients.take_waiting(1), Vec::<String>::new());
}

#[test]
fn shell_is_left_for_the_launcher_and_not_answered() {
    let mut clients = Registry::new();
    let mut connection = Connection::new();
    assert!(connection.open_as(1, &mut clients));
    assert_eq!(
        connection.receive("SHELL echo hi", &config(), &mut clients),
        Directive::Shell { program: "echo".to_string(), args: vec!["hi".to_string()] }
    );
    assert_eq!(clients.take_waiting(1), Vec::<String>::new());
}

#[test]
fn unknown_frames_are_dropped_in_silence() {
    let mut clients = Registry::new();
    let mut connection = Connection::new();
    assert!(connection.open_as(1, &mut clients));
    assert_eq!(connection.receive("HELLO there", &config(), &mut clients), Directive::Nothing);
    assert_eq!(connection.receive("MSG", &config(), &mut clients), Directive::Nothing);
    assert_eq!(clients.take_waiting(1), Vec::<String>::new());
}

#[test]
fn ping_is_answered_with_the_time() {
    let mut clients = Registry::new();
    let mut connection = Connection::new();
    let mut other = Connection::new();
    assert!(connection.open_as(1, &mut clients));
    assert!(other.open_as(2, &mut clients));
    assert_eq!(connection.receive("PING", &config(), &mut clients), Directive::Nothing);
    assert_eq!(connection.receive("PING", &config(), &mut clients), Directive::Nothing);
    let answers = clients.take_waiting(1);
    assert_eq!(answers.len(), 2);
    let first = pong_number(&answers[0]);
    let second = pong_number(&answers[1]);
    assert!(first <= second);
    assert!(first > 1_600_000_000_000);
    assert_eq!(clients.take_waiting(2), Vec::<String>::new());
}

#[test]
fn serve_answers_ping_with_the_given_time() {
    let mut clients = Registry::new();
    clients.insert(5, WsClient::new());
    clients.insert(6, WsClient::new());
    assert_eq!(serve(5, Directive::Ping, 1234, &mut clients), Directive::Nothing);
    assert_eq!(
        serve(5, Directive::Reply("invalid command".to_string()), 0, &mut clients),
        Directive::Nothing
    );
    assert_eq!(serve(5, Directive::Check, 99, &mut clients), Directive::Check);
    assert_eq!(serve(5, Directive::Heartbeat, 99, &mut clients), Directive::Heartbeat);
    assert_eq!(serve(5, Directive::Nothing, 99, &mut clients), Directive::Nothing);
    assert_eq!(
        serve(5, Directive::Broadcast("hi".to_string()), 99, &mut clients),
        Directive::Broadcast("hi".to_string())
    );
    assert_eq!(clients.take_waiting(5), vec!["PONG 1234", "invalid command"]);
    assert_eq!(clients.take_waiting(6), Vec::<String>::new());
}

#[test]
fn client_msg_serves_an_identity() {
    let mut clients = Registry::new();
    clients.insert(5, WsClient::new());
    assert_eq!(client_msg(5, "CMD", &config(), &mut clients), Directive::Nothing);
    assert_eq!(client_msg(5, "CHECK", &config(), &mut clients), Directive::Check);
    assert_eq!(client_msg(9, "CMD", &config(), &mut clients), Directive::Nothing);
    assert_eq!(clients.take_waiting(5), vec!["invalid command"]);
    assert_eq!(clients.len(), 1);
}

#[test]
fn late_answers_go_to_the_sender() {
    let mut clients = Registry::new();
    let mut one = Connection::new();
    let mut two = Connection::new();
    assert!(one.open_as(1, &mut clients));
    assert!(two.open_as(2, &mut clients));
    assert!(one.respond("restarting...".to_string(), &mut clients));
    assert_eq!(clients.take_waiting(2), Vec::<String>::new());
    assert_eq!(clients.take_waiting(1), vec!["restarting..."]);
    let idle = Connection::new();
    assert!(!idle.respond("lost".to_string(), &mut clients));
}

#[test]
fn close_removes_the_connection_and_no_other() {
    let mut clients = Registry::new();
    let mut one = Connection::new();
    let mut two = Connection::new();
    assert!(one.open_as(1, &mut clients));
    assert!(two.open_as(2, &mut clients));
    assert!(clients.send(2, "kept".to_string()));
    one.close(&mut clients);
    assert_eq!(one.state(), ConnectionState::Closed);
    assert!(!clients.contains(1));
    assert!(clients.contains(2));
    assert_eq!(clients.len(), 1);
    assert_eq!(clients.take_waiting(2), vec!["kept"]);
    assert_eq!(two.state(), ConnectionState::Open(2));
}

#[test]
fn closed_connection_serves_nothing() {
    let mut clients = Registry::new();
    let mut one = Connection::new();
    assert!(one.open_as(1, &mut clients));
    one.close(&mut clients);
    one.close(&mut clients);
    assert_eq!(one.state(), ConnectionState::Closed);
    clients.insert(1, WsClient::new());
    assert_eq!(one.receive("CMD", &config(), &mut clients), Directive::Nothing);
    assert!(!one.respond("late".to_string(), &mut clients));
    assert_eq!(clients.take_waiting(1), Vec::<String>::new());
    one.close(&mut clients);
    assert!(clients.contains(1));
}

#[test]
fn registry_holds_one_entry_for_each_live_connection() {
    let mut clients = Registry::new();
    let mut connections: Vec<Connection> = Vec::new();
    for _ in 0..5 {
        let mut connection = Connection::new();
        assert!(connection.open(&mut clients));
        connections.push(connection);
    }
    connections.push(Connection::new());
    assert_eq!(clients.len(), 5);
    connections[1].close(&mut clients);
    connections[3].close(&mut clients);
    connections[5].close(&mut clients);
    assert_eq!(clients.len(), 3);
    let mut seen: Vec<u128> = Vec::new();
    for connection in &connections {
        match connection.state() {
            ConnectionState::Open(id) => {
                assert!(clients.contains(id));
                assert!(!seen.contains(&id));
                seen.push(id);
            }
            ConnectionState::Closed => {}
            ConnectionState::Connecting => panic!("still connecting"),
        }
    }
    assert_eq!(seen.len(), 3);
}

#[test]
fn connection_that_never_opened_closes_without_a_trace() {
    let mut clients = Registry::new();
    clients.insert(1, WsClient::new());
    let mut idle = Connection::new();
    assert_eq!(idle.receive("CMD", &config(), &mut clients), Directive::Nothing);
    idle.close(&mut clients);
    assert_eq!(idle.state(), ConnectionState::Closed);
    assert_eq!(clients.len(), 1);
    assert_eq!(clients.take_waiting(1), Vec::<String>::new());
}

#[test]
fn stream_of_frames_answers_the_sender_in_order_and_no_one_else() {
    let mut clients = Registry::new();
    let mut bystander = Connection::new();
    assert!(bystander.open_as(1, &mut clients));
    assert!(clients.send(1, "early".to_string()));
    let mut witness = Connection::new();
    assert!(witness.open_as(3, &mut clients));
    let mut connection = Connection::new();
    assert!(connection.open_as(2, &mut clients));
    let frames = [
        "CMD",
        "MSG hello",
        "RESTART",
        "HELLO",
        "CHECK",
        "CMD alpha stop",
        "SHELL echo hi",
        "CMD",
    ];
    for frame in frames {
        let left = connection.receive(frame, &config(), &mut clients);
        if left == Directive::Check {
            assert!(connection.respond("report".to_string(), &mut clients));
        }
    }
    assert_eq!(
        clients.take_waiting(2),
        vec!["invalid command", "no restart script found", "report", "invalid command"]
    );
    connection.close(&mut clients);
    assert_eq!(clients.len(), 2);
    assert_eq!(clients.take_waiting(1), vec!["early"]);
    assert_eq!(clients.take_waiting(3), Vec::<String>::new());
}
