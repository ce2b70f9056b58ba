use rflow::channel::SendOutcome;
use rflow::{Direction, Error, Server};

#[test]
fn take_data_channel_succeeds_once() {
    let mut server = Server::new(5000);
    assert!(server.take_data_channel().is_ok());
    assert!(matches!(server.take_data_channel(), Err(Error::DataChannelTaken)));
}

#[test]
fn incoming_queue_size_locked_after_take() {
    let mut server = Server::new(5000);
    assert!(server.set_incoming_queue_size(64).is_ok());
    let _rx = server.take_data_channel().unwrap();
    assert!(matches!(server.set_incoming_queue_size(32), Err(Error::DataChannelTaken)));
}

#[test]
fn registry_count_follows_register_and_unregister() {
    let mut server = Server::new(5000);
    assert_eq!(server.client_count(), 0);
    let (id_a, _rx_a) = server.register_client();
    assert_eq!(id_a, 0);
    assert_eq!(server.client_count(), 1);
    let (id_b, _rx_b) = server.register_client();
    assert_eq!(id_b, 1);
    assert_eq!(server.client_count(), 2);
    server.unregister_client(id_a);
    assert_eq!(server.client_count(), 1);
    let (id_c, _rx_c) = server.register_client();
    assert_eq!(id_c, 2);
    assert_eq!(server.client_count(), 2);
    server.unregister_client(id_b);
    server.unregister_client(id_c);
    assert_eq!(server.client_count(), 0);
}

#[test]
fn send_to_empty_registry_is_a_no_op() {
    let server = Server::new(5000);
    assert!(server.send("nobody hears".to_string()).is_empty());
}

#[test]
fn echo_one_client() {
    let mut server = Server::new(5000);
    let incoming = server.take_data_channel().unwrap();
    let (_id, client_rx) = server.register_client();
    let tx = server.incoming_sender();

    let outcomes = server.forward_line(&tx, "hello".to_string()).unwrap();
    assert_eq!(outcomes.len(), 1);
    assert_eq!(outcomes[0].1, SendOutcome::Sent);

    let line = incoming.try_recv().expect("incoming line missing");
    assert_eq!(line.as_str(), "hello");
    assert!(incoming.try_recv().is_none());

    let (dir, payload) = client_rx.try_recv().expect("loopback event missing");
    assert_eq!(dir, Direction::ClientToServer);
    assert_eq!(payload.as_str(), "hello");

    let outcomes = server.send("hi".to_string());
    assert_eq!(outcomes.len(), 1);
    assert_eq!(outcomes[0].1, SendOutcome::Sent);
    let (dir, payload) = client_rx.try_recv().expect("server message missing");
    assert_eq!(dir, Direction::ServerToClient);
    assert_eq!(payload.as_str(), "hi");
}

#[test]
fn two_clients_broadcast() {
    let mut server = Server::new(5000);
    let incoming = server.take_data_channel().unwrap();
    let (id_a, rx_a) = server.register_client();
    let (_id_b, rx_b) = server.register_client();
    let tx = server.incoming_sender();

    // a line sent by client A
    let outcomes = server.forward_line(&tx, "x".to_string()).unwrap();
    assert_eq!(outcomes.len(), 2);
    assert!(outcomes.iter().any(|(id, _)| *id == id_a));
    assert!(outcomes.iter().all(|(_, o)| *o == SendOutcome::Sent));

    // the server's incoming channel yields it exactly once
    assert_eq!(incoming.try_recv().unwrap().as_str(), "x");
    assert!(incoming.try_recv().is_none());

    // both clients, the sender included, observe it as client-to-server
    for rx in [&rx_a, &rx_b] {
        let (dir, payload) = rx.try_recv().expect("broadcast event missing");
        assert_eq!(dir, Direction::ClientToServer);
        assert_eq!(payload.as_str(), "x");
        assert!(rx.try_recv().is_none());
    }
}

#[test]
fn slow_consumer_drop() {
    let mut server = Server::new(5000);
    server.set_outgoing_queue_size(2).unwrap();
    let (id_c, rx_c) = server.register_client();

    // the first two messages fill the queue of C, which never reads
    for msg in ["m1", "m2"] {
        let outcomes = server.send(msg.to_string());
        assert_eq!(outcomes, vec![(id_c, SendOutcome::Sent)]);
    }

    // D connects after the first two sends
    let (id_d, rx_d) = server.register_client();

    // the third message is dropped for C and delivered to D
    let outcomes = server.send("m3".to_string());
    assert_eq!(outcomes, vec![(id_c, SendOutcome::Full), (id_d, SendOutcome::Sent)]);

    // C's queue saturated at the configured capacity
    assert_eq!(rx_c.try_recv().unwrap().1.as_str(), "m1");
    assert_eq!(rx_c.try_recv().unwrap().1.as_str(), "m2");
    assert!(rx_c.try_recv().is_none());

    // D keeps receiving every later message
    assert_eq!(rx_d.try_recv().unwrap().1.as_str(), "m3");
    let outcomes = server.send("m4".to_string());
    assert_eq!(outcomes[1], (id_d, SendOutcome::Sent));
    assert_eq!(rx_d.try_recv().unwrap().1.as_str(), "m4");
}

#[test]
fn gone_consumer_reports_closed() {
    let mut server = Server::new(5000);
    let (id, rx) = server.register_client();
    drop(rx);
    let outcomes = server.send("anyone".to_string());
    assert_eq!(outcomes, vec![(id, SendOutcome::Closed)]);
}

#[test]
fn forward_line_fails_once_application_receiver_is_gone() {
    let mut server = Server::new(5000);
    let incoming = server.take_data_channel().unwrap();
    let (_id, _rx) = server.register_client();
    let tx = server.incoming_sender();
    drop(incoming);
    assert!(server.forward_line(&tx, "lost".to_string()).is_none());
}

#[test]
fn broadcast_direction_is_preserved() {
    let server_rx = {
        let mut server = Server::new(5000);
        let (_id, rx) = server.register_client();
        let shared = std::sync::Arc::new("payload".to_string());
        server.broadcast(Direction::ClientToServer, &shared);
        server.broadcast(Direction::ServerToClient, &shared);
        rx
    };
    let (dir, _) = server_rx.try_recv().unwrap();
    assert_eq!(dir, Direction::ClientToServer);
    let (dir, _) = server_rx.try_recv().unwrap();
    assert_eq!(dir, Direction::ServerToClient);
    assert!(server_rx.try_recv().is_none());
}

#[test]
fn admission_permits_bound_concurrent_clients() {
    // the mechanism the serving loop uses for admission control: a
    // counting semaphore sized to the ceiling blocks the next accept
    let semaphore: rtsc::semaphore::Semaphore = rtsc::semaphore::Semaphore::new(2);
    let first = semaphore.try_acquire().expect("first permit");
    let second = semaphore.try_acquire().expect("second permit");
    assert!(semaphore.try_acquire().is_none());
    drop(first);
    let third = semaphore.try_acquire().expect("permit after a disconnect");
    drop(second);
    drop(third);
}
