use bank_network::id::Uuid;
use bank_network::listener::received_request;
use bank_network::message::Message;
use bank_network::request::{Request, RequestType};
use bank_network::worker::{Dispatch, ListenerState, RouteTable, WorkerCounters, MAX_CLIENTS_THREAD};

#[test]
fn new_threads_after_twenty_clients() {
    let mut w = WorkerCounters::new();
    for _ in 0..MAX_CLIENTS_THREAD {
        assert!(!w.add_client());
    }
    assert_eq!(w.thread_count, 0);
    assert!(w.add_client());
    assert!(!w.add_client());
    assert_eq!(w.current_connection_count, 22);
    assert_eq!(w.thread_count, 1);
    for _ in 22..40 {
        assert!(!w.add_client());
    }
    assert_eq!(w.current_connection_count, 40);
    assert!(w.add_client());
    assert_eq!(w.thread_count, 2);
}

#[test]
fn listener_routes_clients_to_threads() {
    let mut st = ListenerState::new();
    for i in 0..20u32 {
        assert!(!st.add_client(format!("10.0.0.{}:1", i)));
    }
    assert!(st.add_client("a:1".to_string()));
    assert_eq!(st.counters.thread_count, 1);
    let to_first = Message::new("x".to_string(), "10.0.0.3:1".to_string(), "me".to_string()).unwrap();
    let to_new = Message::new("y".to_string(), "a:1".to_string(), "me".to_string()).unwrap();
    let to_none = Message::new("z".to_string(), "b:1".to_string(), "me".to_string()).unwrap();
    assert_eq!(st.dispatch(&to_first), Dispatch::ToThread(0));
    assert_eq!(st.dispatch(&to_new), Dispatch::ToThread(1));
    assert_eq!(st.dispatch(&to_none), Dispatch::UnknownRecipient);
    assert_eq!(st.dispatch(&Message::shutdown()), Dispatch::StopAll);

    let mut t = RouteTable::new();
    t.insert("p".to_string(), 3);
    t.insert("q".to_string(), 4);
    t.insert("p".to_string(), 5);
    assert_eq!(t.lookup(&"p".to_string()), Some(5));
    assert_eq!(t.lookup(&"q".to_string()), Some(4));
    assert_eq!(t.lookup(&"r".to_string()), None);
}

#[test]
fn requests_route_by_client_uuid() {
    let mut st = ListenerState::new();
    let u = Uuid::parse_str("abe8e4bb-c87a-48ff-a4fb-2ebd42745aae").unwrap();
    st.add_client(u.to_string());
    let mut r = Request::shutdown();
    assert_eq!(st.dispatch_request(&r), Dispatch::StopAll);
    r.field_type = RequestType::Result;
    r.client_id = "ABE8E4BB-C87A-48FF-A4FB-2EBD42745AAE".to_string();
    assert_eq!(st.dispatch_request(&r), Dispatch::ToThread(0));
    r.client_id = "e78836e9-1982-4380-a678-a5b4db33d205".to_string();
    assert_eq!(st.dispatch_request(&r), Dispatch::UnknownRecipient);
    r.client_id = "junk".to_string();
    assert_eq!(st.dispatch_request(&r), Dispatch::UnknownRecipient);
}

#[test]
fn received_requests_name_their_client() {
    let u = Uuid::parse_str("e78836e9-1982-4380-a678-a5b4db33d205").unwrap();
    let mut r = Request::shutdown();
    r.client_id = "someone else".to_string();
    r.data = vec!["x".to_string()];
    let got = received_request(r, &u);
    assert_eq!(got.client_id, "e78836e9-1982-4380-a678-a5b4db33d205");
    assert!(got.from_client);
    assert_eq!(got.data, vec!["x".to_string()]);
    assert!(u.same(&Uuid::parse_str("E78836E9-1982-4380-A678-A5B4DB33D205").unwrap()));
    assert!(!u.same(&Uuid::nil()));
}

#[test]
fn batches_stop_at_the_first_shutdown() {
    let mut st = ListenerState::new();
    st.add_client("p".to_string());
    let to = |r: &str, d: &str| Message::new(d.to_string(), r.to_string(), "me".to_string()).unwrap();
    let batch = st.route_batch(vec![to("p", "1"), Message::shutdown(), to("p", "2")]);
    assert!(batch.stop);
    assert!(batch.unknown.is_none());
    assert_eq!(batch.forwards.len(), 1);
    assert_eq!(batch.forwards[0].0, 0);
    assert_eq!(batch.forwards[0].1.data, "1");
    let batch = st.route_batch(vec![to("p", "1"), to("q", "2"), to("p", "3")]);
    assert!(!batch.stop);
    assert_eq!(batch.forwards.len(), 1);
    assert_eq!(batch.unknown.unwrap().data, "2");
    let u = Uuid::parse_str("abe8e4bb-c87a-48ff-a4fb-2ebd42745aae").unwrap();
    st.add_client(u.to_string());
    let mut r = Request::shutdown();
    r.field_type = RequestType::Result;
    r.client_id = u.to_string();
    let batch = st.route_request_batch(vec![r.clone(), Request::shutdown(), r]);
    assert!(batch.stop);
    assert_eq!(batch.forwards.len(), 1);
    assert_eq!(batch.forwards[0].0, 0);
}
