use status_board::bounded::{easy_format, OverflowError, CAPACITY};
use status_board::status::StatusChannel;

#[test]
fn publish_poll_overflow_end_to_end() {
    let mut channel = StatusChannel::new();
    assert_eq!(channel.publish("192.168.1.42"), Ok(()));
    let first = channel.poll_and_take();
    assert_eq!(first.as_ref().map(|text| text.as_str()), Some("192.168.1.42"));
    assert!(channel.poll_and_take().is_none());
    let long = "1234567890123456789012345";
    assert_eq!(long.len(), 25);
    assert_eq!(channel.publish(long), Err(OverflowError));
    assert!(channel.poll_and_take().is_none());
}

#[test]
fn fresh_channel_is_clean_and_empty() {
    let channel = StatusChannel::new();
    assert!(!channel.is_dirty());
}

#[test]
fn poll_without_publish_returns_nothing() {
    let mut channel = StatusChannel::new();
    for _ in 0..50 {
        assert!(channel.poll_and_take().is_none());
        assert!(!channel.is_dirty());
    }
}

#[test]
fn publish_raises_flag_and_poll_lowers_it() {
    let mut channel = StatusChannel::new();
    assert_eq!(channel.publish("10.0.0.7"), Ok(()));
    assert!(channel.is_dirty());
    let taken = channel.poll_and_take().expect("a text was published");
    assert_eq!(taken.as_str(), "10.0.0.7");
    assert!(!channel.is_dirty());
}

#[test]
fn latest_value_wins() {
    let mut channel = StatusChannel::new();
    assert_eq!(channel.publish("10.0.0.1"), Ok(()));
    assert_eq!(channel.publish("10.0.0.2"), Ok(()));
    let taken = channel.poll_and_take().expect("two texts were published");
    assert_eq!(taken.as_str(), "10.0.0.2");
    assert!(channel.poll_and_take().is_none());
}

#[test]
fn shorter_text_replaces_longer_without_remains() {
    let mut channel = StatusChannel::new();
    assert_eq!(channel.publish("255.255.255.255"), Ok(()));
    assert_eq!(channel.publish("1.2.3.4"), Ok(()));
    let taken = channel.poll_and_take().expect("two texts were published");
    assert_eq!(taken.as_str(), "1.2.3.4");
}

#[test]
fn overflow_keeps_pending_value() {
    let mut channel = StatusChannel::new();
    assert_eq!(channel.publish("172.16.0.9"), Ok(()));
    assert_eq!(channel.publish("this text is far too long to fit"), Err(OverflowError));
    assert!(channel.is_dirty());
    let taken = channel.poll_and_take().expect("the first text is still pending");
    assert_eq!(taken.as_str(), "172.16.0.9");
}

#[test]
fn overflow_does_not_raise_flag() {
    let mut channel = StatusChannel::new();
    assert_eq!(channel.publish("172.16.0.9"), Ok(()));
    assert!(channel.poll_and_take().is_some());
    assert_eq!(channel.publish("123456789012345678901"), Err(OverflowError));
    assert!(!channel.is_dirty());
    assert!(channel.poll_and_take().is_none());
}

#[test]
fn value_survives_overflow_and_is_replaced_by_next_publish() {
    let mut channel = StatusChannel::new();
    assert_eq!(channel.publish("first"), Ok(()));
    assert_eq!(channel.publish("a text of more than twenty bytes"), Err(OverflowError));
    assert_eq!(channel.publish("second"), Ok(()));
    let taken = channel.poll_and_take().expect("a text is pending");
    assert_eq!(taken.as_str(), "second");
}

#[test]
fn text_of_exactly_capacity_is_accepted() {
    let text = "12345678901234567890";
    assert_eq!(text.len(), CAPACITY);
    let mut channel = StatusChannel::new();
    assert_eq!(channel.publish(text), Ok(()));
    let taken = channel.poll_and_take().expect("a text was published");
    assert_eq!(taken.as_str(), text);
}

#[test]
fn text_one_byte_over_capacity_is_refused() {
    let text = "123456789012345678901";
    assert_eq!(text.len(), CAPACITY + 1);
    let mut channel = StatusChannel::new();
    assert_eq!(channel.publish(text), Err(OverflowError));
    assert!(channel.poll_and_take().is_none());
}

#[test]
fn empty_text_is_a_publication() {
    let mut channel = StatusChannel::new();
    assert_eq!(channel.publish(""), Ok(()));
    assert!(channel.is_dirty());
    let taken = channel.poll_and_take().expect("the empty text was published");
    assert_eq!(taken.as_str(), "");
    assert!(channel.poll_and_take().is_none());
}

#[test]
fn capacity_is_counted_in_bytes() {
    // Ten two-byte characters fill the channel, eleven do not fit.
    let ten = "éééééééééé";
    let eleven = "ééééééééééé";
    assert_eq!(ten.len(), 20);
    assert_eq!(eleven.chars().count(), 11);
    let mut channel = StatusChannel::new();
    assert_eq!(channel.publish(ten), Ok(()));
    assert_eq!(channel.publish(eleven), Err(OverflowError));
    let taken = channel.poll_and_take().expect("the first text is pending");
    assert_eq!(taken.as_str(), ten);
}

#[test]
fn snapshot_is_a_copy() {
    let mut channel = StatusChannel::new();
    assert_eq!(channel.publish("copy"), Ok(()));
    let snapshot = channel.poll_and_take().expect("a text was published");
    assert_eq!(channel.publish("other"), Ok(()));
    assert_eq!(snapshot.as_str(), "copy");
    let next = channel.poll_and_take().expect("a text was published");
    assert_eq!(next.as_str(), "other");
}

fn formatted(text: &str) -> String {
    easy_format(text).expect("the text fits").as_str().to_string()
}

#[test]
fn easy_format_copies_text_that_fits() {
    assert_eq!(formatted("192.168.1.42/24"), "192.168.1.42/24");
    assert_eq!(formatted(""), "");
    assert_eq!(formatted("12345678901234567890"), "12345678901234567890");
    assert_eq!(formatted("éééééééééé"), "éééééééééé");
}

#[test]
fn easy_format_reports_overflow() {
    assert_eq!(easy_format("123456789012345678901").err(), Some(OverflowError));
    assert_eq!(easy_format("1234567890123456789012345").err(), Some(OverflowError));
    assert_eq!(easy_format("ééééééééééé").err(), Some(OverflowError));
}

#[test]
fn overflow_is_told_apart_from_the_empty_text() {
    assert!(easy_format("").is_ok());
    assert!(easy_format("a text of more than twenty bytes").is_err());
}

#[test]
fn refused_text_cannot_reach_the_channel_as_an_empty_one() {
    let mut channel = StatusChannel::new();
    let long = "1234567890123456789012345";
    if let Ok(text) = easy_format(long) {
        let _ = channel.publish(text.as_str());
    }
    assert!(!channel.is_dirty());
    assert!(channel.poll_and_take().is_none());
}

#[test]
fn capacity_is_twenty() {
    assert_eq!(CAPACITY, 20);
    assert_eq!(easy_format("x").expect("the text fits").capacity(), CAPACITY);
}
