use quiz_buzzer::devboard::http::{devboard_request, extract_payload, ReadStep, ResponseReader, MAX_READ_RETRIES};
use quiz_buzzer::devboard::{DevboardEventType, DevboardEvents, NUM_BUTTONS, NUM_BUTTON_PRESSES_PER_MSG, BUFFER_SIZE};

#[test]
fn buffer_size_fits_twenty_presses() {
    assert_eq!(BUFFER_SIZE, 500);
}

#[test]
fn extract_payload_takes_the_body() {
    let response = "HTTP/1.1 200 OK\r\ncontent-length: 5\r\n\r\n{\"a\":1}\0\0\0";
    let body = extract_payload(response).unwrap();
    assert_eq!(body.as_str(), "{\"a\":1}");
}

#[test]
fn extract_payload_empty_body() {
    let response = "HTTP/1.1 200 OK\r\n\r\n\0";
    assert_eq!(extract_payload(response).unwrap().as_str(), "");
}

#[test]
fn extract_payload_needs_head_end_and_zero() {
    assert!(extract_payload("HTTP/1.1 200 OK\r\n\0\0").is_none());
    assert!(extract_payload("HTTP/1.1 200 OK\r\n\r\nbody").is_none());
}

#[test]
fn extract_payload_keeps_multibyte_text() {
    let response = "HTTP/1.1 200 OK\r\n\r\nÄpfel😀\0";
    assert_eq!(extract_payload(response).unwrap().as_str(), "Äpfel😀");
}

#[test]
fn request_frames_the_payload() {
    let request = devboard_request("{\"x\":1}");
    assert_eq!(
        request,
        "POST /devboard HTTP/1.1\r\nContent-Type: application/json\r\nContent-Length: 7\r\n\r\n{\"x\":1}"
    );
}

#[test]
fn request_content_length_counts_bytes() {
    let payload = "é".repeat(60);
    let request = devboard_request(&payload);
    assert!(request.contains("Content-Length: 120\r\n\r\n"));
    assert!(request.ends_with(&payload));
    assert_eq!(devboard_request(""), "POST /devboard HTTP/1.1\r\nContent-Type: application/json\r\nContent-Length: 0\r\n\r\n");
}

#[test]
fn reader_reads_until_an_empty_read() {
    let mut reader = ResponseReader::new();
    assert_eq!(reader.position(), 0);
    let first = "HTTP/1.1 200 OK\r\n\r\nab\0\0";
    assert!(matches!(reader.after_read(Some(21), first), ReadStep::ReadMore));
    assert_eq!(reader.position(), 21);
    let second = "HTTP/1.1 200 OK\r\n\r\nabc\0";
    assert!(matches!(reader.after_read(Some(1), second), ReadStep::ReadMore));
    assert_eq!(reader.position(), 22);
    match reader.after_read(Some(0), second) {
        ReadStep::Done(text) => assert_eq!(text.as_str(), "abc"),
        ReadStep::ReadMore => panic!("the body was complete"),
    }
    assert_eq!(reader.position(), 22);
}

#[test]
fn reader_gives_up_after_empty_reads() {
    let mut reader = ResponseReader::new();
    for _ in 0..MAX_READ_RETRIES {
        assert!(matches!(reader.after_read(Some(0), "HTTP/1.1 200 OK\r\n\0"), ReadStep::ReadMore));
    }
    match reader.after_read(Some(0), "HTTP/1.1 200 OK\r\n\r\nok\0") {
        ReadStep::Done(text) => assert_eq!(text.as_str(), ""),
        ReadStep::ReadMore => panic!("the reader should give up"),
    }
}

#[test]
fn reader_stops_on_a_failed_read() {
    let mut reader = ResponseReader::new();
    match reader.after_read(None, "HTTP/1.1 200 OK\r\n\r\nok\0") {
        ReadStep::Done(text) => assert_eq!(text.as_str(), ""),
        ReadStep::ReadMore => panic!("a failed read ends the response"),
    }
    assert_eq!(reader.position(), 0);
}

#[test]
fn message_collects_presses_until_full() {
    let mut message = DevboardEvents::new(1234);
    assert_eq!(message.number_of_buttons, NUM_BUTTONS);
    assert_eq!(message.ms_since_reset, 1234);
    assert!(message.button_events.is_empty());
    for i in 0..NUM_BUTTON_PRESSES_PER_MSG - 1 {
        assert!(!message.record_press((i % 6, i as u64)));
    }
    assert!(message.record_press((5, 999)));
    assert_eq!(message.button_events.len(), NUM_BUTTON_PRESSES_PER_MSG);
    let last = message.button_events[NUM_BUTTON_PRESSES_PER_MSG - 1];
    assert_eq!(last.button_index, 5);
    assert_eq!(last.timestamp, 999);
    assert_eq!(last.event_type, DevboardEventType::Pressed);
    assert!(message.record_press((0, 1000)));
    assert_eq!(message.button_events.len(), NUM_BUTTON_PRESSES_PER_MSG);
}
