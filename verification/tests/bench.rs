use bank_network::bench::{
    bench_message_text, bench_text_of, mean_difference, overall_average, settled_differences,
    total_difference, SETTLE_MILLIS,
};
use bank_network::message::Message;
use bank_network::roster::Roster;

fn from(sender: &str, data: &str) -> Message {
    Message::new(data.to_string(), "me".to_string(), sender.to_string()).unwrap()
}

#[test]
fn bench_whole_text_is_one_time() {
    let mut r = Roster::new();
    r.update_clients(vec!["a:1".to_string()]);
    let msgs = vec![from("a:1", "1000")];
    assert_eq!(r.check_messages_bench(&msgs, 1500), vec![500]);
}

#[test]
fn bench_words_are_times() {
    let mut r = Roster::new();
    r.update_clients(vec!["a:1".to_string(), "b:2".to_string()]);
    let msgs = vec![from("a:1", "100 x 200 "), from("c:3", "5"), from("b:2", "-7")];
    assert_eq!(r.check_messages_bench(&msgs, 1000), vec![900, 800, 1007]);
}

#[test]
fn bench_counts_each_matching_peer() {
    let mut r = Roster::new();
    r.update_clients(vec!["a:1".to_string(), "a:1".to_string()]);
    let msgs = vec![from("a:1", "10")];
    assert_eq!(r.check_messages_bench(&msgs, 30), vec![20, 20]);
}

#[test]
fn bench_overflow_is_reported() {
    let mut r = Roster::new();
    r.update_clients(vec!["a:1".to_string()]);
    let msgs = vec![from("a:1", "-9223372036854775808")];
    assert_eq!(r.try_check_messages_bench(&msgs, 1), None);
    assert_eq!(r.try_check_messages_bench(&msgs, -1), Some(vec![9223372036854775807]));
}

#[test]
fn bench_against_clock() {
    let mut r = Roster::new();
    r.update_clients(vec!["a:1".to_string()]);
    let msgs = vec![from("a:1", "0")];
    let v = r.check_messages_bench_now(&msgs).unwrap();
    assert_eq!(v.len(), 1);
    assert!(v[0] > 1_500_000_000_000);
}

#[test]
fn mean_difference_reports() {
    assert_eq!(mean_difference(&vec![10, 20, 31]), 20);
    assert_eq!(mean_difference(&vec![-5, 2]), -3);
    assert_eq!(mean_difference(&vec![]), 0);
}

#[test]
fn settled_takes_off_wait() {
    assert_eq!(SETTLE_MILLIS, 10000);
    assert_eq!(settled_differences(&vec![10500, 9000]), vec![500, -1000]);
}

#[test]
fn bench_text_is_measured_back() {
    assert_eq!(bench_text_of(1234), "1234 ");
    assert_eq!(bench_text_of(-5), "-5 ");
    let mut r = Roster::new();
    r.update_clients(vec!["a:1".to_string()]);
    let msgs = vec![from("a:1", &bench_text_of(100))];
    assert_eq!(r.check_messages_bench(&msgs, 150), vec![50]);
    let t = bench_message_text();
    assert!(t.ends_with(' '));
    assert!(t.trim_end().parse::<i64>().unwrap() > 1_500_000_000_000);
}

#[test]
fn totals_and_overall_average() {
    assert_eq!(total_difference(&vec![5, -7, 4]), 2);
    assert_eq!(total_difference(&vec![]), 0);
    assert_eq!(overall_average(&vec![10, -5, 20]), 10);
    assert_eq!(overall_average(&vec![-1]), 0);
    assert_eq!(overall_average(&vec![7, 0]), 3);
}
