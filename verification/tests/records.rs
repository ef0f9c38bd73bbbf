use snooprs::entry::DELIMITER;
use snooprs::render;
use snooprs::Entry;
use snooprs::SnoopParser;

const HEADER_16: &str = "2025-09-14-19:28:40.550+01:00I----- thread(16) trace.pdweb.snoop.client:1 /build/isam/src/i4w/pdwebrte/webcore/amw_snoop.cpp:108: ";
const HEADER_10: &str = "2025-09-14-19:30:11.018+01:00I----- thread(10) trace.pdweb.snoop.jct:1 /build/isam/src/i4w/pdwebrte/webcore/amw_snoop.cpp:215: ";
const HEADER_05: &str = "2025-09-14-19:30:12.000+01:00I----- thread(05) trace.pdweb.snoop.jct:1 /build/isam/src/i4w/pdwebrte/webcore/amw_snoop.cpp:215: ";
const SUMMARY: &str = "Thread 132916153280064; fd 261; local 10.42.0.160:35322; remote 10.43.9.26:9443";
const DUMP_1: &str = "0x0000   4854 5450 2f31 2e31 2033 3032 204d 6f76        HTTP/1.1.302.Mov";
const DUMP_2: &str = "0x0010   6564 2054 656d 706f 7261 7269 6c79 0d0a        ed.Temporarily..";

fn lines(parts: &[&str]) -> Vec<String> {
    parts.iter().map(|l| l.to_string()).collect()
}

fn text(parts: &[&str]) -> String {
    let mut out = String::new();
    for part in parts {
        out.push_str(part);
        out.push_str("\n");
    }
    out
}

fn output(parser: &mut SnoopParser) -> String {
    render(&parser.parse_all())
}

#[test]
fn error_header_is_one_record() {
    let line = "2025-09-14-19:28:40.550+01:00I----- thread(16) trace.pdweb.snoop.client:1 /build/isam/src/i4w/pdwebrte/webcore/amw_snoop.cpp:108: bad handshake";
    let mut parser = SnoopParser::new(lines(&[line])).unwrap();
    let entry = parser.parse_next().unwrap();
    assert!(matches!(entry, Entry::ErrorEntry(_)));
    assert_eq!(entry.to_string(), line);
    assert_eq!(entry.get_id(), 16);
    assert!(parser.parse_next().is_none());
}

#[test]
fn action_record_is_five_lines() {
    let input = [HEADER_16, DELIMITER, "Thread 1; fd 2; local a; remote b", "Closed connection", DELIMITER];
    let mut parser = SnoopParser::new(lines(&input)).unwrap();
    let entry = parser.parse_next().unwrap();
    assert!(matches!(entry, Entry::ActionEntry(_)));
    assert_eq!(entry.to_string(), text(&input));
    assert_eq!(entry.to_string().lines().count(), 5);
    assert!(parser.parse_next().is_none());
}

#[test]
fn filter_keeps_only_the_listed_thread() {
    let five = [HEADER_05, DELIMITER, SUMMARY, "Closed connection", DELIMITER, ""];
    let ten = [HEADER_10, DELIMITER, SUMMARY, "Sending 32 bytes", DUMP_1, DUMP_2, "", DELIMITER, ""];
    let mut input: Vec<&str> = Vec::new();
    input.extend_from_slice(&five);
    input.extend_from_slice(&ten);
    let mut parser = SnoopParser::new(lines(&input)).unwrap();
    parser.set_filter(&Some(vec![10]));
    assert_eq!(output(&mut parser), text(&ten));
}

#[test]
fn trace_round_trip() {
    let error = "2025-09-14-19:28:41.001+01:00I----- thread(12) trace.pdweb.snoop.client:1 /build/amw_snoop.cpp:108: bad handshake";
    let input = [
        HEADER_16, DELIMITER, SUMMARY, "Closed connection", DELIMITER, "",
        error,
        HEADER_10, DELIMITER, SUMMARY, "Receiving 32 bytes", DUMP_1, DUMP_2, "", DELIMITER, "",
        HEADER_16, DELIMITER, SUMMARY, "Sending 0 bytes", "", DELIMITER, "",
    ];
    let mut parser = SnoopParser::new(lines(&input)).unwrap();
    assert_eq!(output(&mut parser), text(&input));
}

#[test]
fn filtered_trace_round_trip() {
    let error = "2025-09-14-19:28:41.001+01:00I----- thread(10) trace.pdweb.snoop.client:1 /build/amw_snoop.cpp:108: bad handshake";
    let first = [HEADER_16, DELIMITER, SUMMARY, "Closed connection", DELIMITER, ""];
    let second = [HEADER_10, DELIMITER, SUMMARY, "Receiving 32 bytes", DUMP_1, "", DELIMITER, ""];
    let third = [HEADER_16, DELIMITER, SUMMARY, "Sending 16 bytes", DUMP_2, "", DELIMITER, ""];
    let mut input: Vec<&str> = Vec::new();
    input.extend_from_slice(&first);
    input.push(error);
    input.extend_from_slice(&second);
    input.extend_from_slice(&third);
    let mut kept: Vec<&str> = Vec::new();
    kept.push(error);
    kept.extend_from_slice(&second);
    let mut parser = SnoopParser::new(lines(&input)).unwrap();
    parser.set_filter(&Some(vec![10]));
    assert_eq!(output(&mut parser), text(&kept));
}

#[test]
fn filtering_is_removing_from_the_unfiltered_records() {
    let input = [
        HEADER_16, DELIMITER, SUMMARY, "Closed connection", DELIMITER, "",
        HEADER_10, DELIMITER, SUMMARY, "Receiving 32 bytes", DUMP_1, "", DELIMITER, "",
        HEADER_05, DELIMITER, SUMMARY, "Opened connection", DELIMITER, "",
        HEADER_16, DELIMITER, SUMMARY, "Sending 16 bytes", DUMP_2, "", DELIMITER, "",
    ];
    let ids: Vec<u64> = vec![16, 5];
    let mut plain = SnoopParser::new(lines(&input)).unwrap();
    let expected: Vec<String> = plain
        .parse_all()
        .iter()
        .filter(|e| ids.contains(&e.get_id()))
        .map(|e| e.to_string())
        .collect();
    let mut filtered = SnoopParser::new(lines(&input)).unwrap();
    filtered.set_filter(&Some(ids.clone()));
    let got: Vec<String> = filtered.parse_all().iter().map(|e| e.to_string()).collect();
    assert_eq!(got.len(), 3);
    assert_eq!(got, expected);
}

#[test]
fn render_puts_a_line_break_behind_each_record() {
    let error = "2025-09-14-19:28:41.001+01:00I----- thread(12) trace.pdweb.snoop.client:1 /build/amw_snoop.cpp:108: bad handshake";
    let input = [error, HEADER_16, DELIMITER, SUMMARY, "Closed connection", DELIMITER, error];
    let mut parser = SnoopParser::new(lines(&input)).unwrap();
    let entries = parser.parse_all();
    assert_eq!(entries.len(), 3);
    let mut expected = String::new();
    for entry in &entries {
        expected.push_str(&entry.to_string());
        expected.push_str("\n");
    }
    assert_eq!(render(&entries), expected);
    assert_eq!(
        render(&entries),
        format!("{e}\n{h}\n{d}\n{s}\nClosed connection\n{d}\n\n{e}\n", e = error, h = HEADER_16, d = DELIMITER, s = SUMMARY)
    );
    assert_eq!(render(&Vec::new()), "");
}

#[test]
fn empty_filter_lets_nothing_pass() {
    let input = [HEADER_16, DELIMITER, SUMMARY, "Closed connection", DELIMITER, ""];
    let mut parser = SnoopParser::new(lines(&input)).unwrap();
    parser.set_filter(&Some(vec![]));
    assert!(parser.parse_next_filtered().is_none());
}

#[test]
fn no_filter_lets_everything_pass() {
    let input = [HEADER_16, DELIMITER, SUMMARY, "Closed connection", DELIMITER, ""];
    let mut parser = SnoopParser::new(lines(&input)).unwrap();
    parser.set_filter(&Some(vec![3]));
    parser.set_filter(&None);
    assert_eq!(parser.parse_next_filtered().unwrap().get_id(), 16);
    assert!(parser.parse_next_filtered().is_none());
}

#[test]
fn error_header_takes_no_further_line() {
    let error = "2025-09-14-19:28:41.001+01:00I----- thread(12) trace.pdweb.snoop.client:1 /build/amw_snoop.cpp:108: bad handshake";
    let input = [error, HEADER_16, DELIMITER, SUMMARY, "Closed connection", DELIMITER];
    let mut parser = SnoopParser::new(lines(&input)).unwrap();
    let first = parser.parse_next().unwrap();
    assert!(matches!(first, Entry::ErrorEntry(_)));
    assert_eq!(first.get_id(), 12);
    let second = parser.parse_next().unwrap();
    assert!(matches!(second, Entry::ActionEntry(_)));
    assert_eq!(second.get_id(), 16);
}

#[test]
fn shape_follows_the_start_of_the_action() {
    let cases = [
        ("Sending 10 bytes", true),
        ("Receiving 10 bytes", true),
        ("Sending", true),
        ("Receiving", true),
        ("Closed connection", false),
        ("Now Sending 10 bytes", false),
        ("sending 10 bytes", false),
        ("RECEIVING", false),
        ("Sendin", false),
        ("", false),
    ];
    for (action, payload) in cases {
        let input = [HEADER_16, DELIMITER, SUMMARY, action, "", DELIMITER];
        let mut parser = SnoopParser::new(lines(&input)).unwrap();
        let entry = parser.parse_next().unwrap();
        assert_eq!(matches!(entry, Entry::DataEntry(_)), payload, "{}", action);
        assert_eq!(matches!(entry, Entry::ActionEntry(_)), !payload, "{}", action);
    }
}

#[test]
fn payload_lines_keep_their_order_and_their_repeats() {
    let input = [
        HEADER_16, DELIMITER, SUMMARY, "Sending 48 bytes", DUMP_2, DUMP_1, DUMP_2, DUMP_2, "", DELIMITER,
    ];
    let mut parser = SnoopParser::new(lines(&input)).unwrap();
    let entry = parser.parse_next().unwrap();
    let expected = format!(
        "{}\n{}\n{}\nSending 48 bytes\n{}\n{}\n{}\n{}\n\n{}\n",
        HEADER_16, DELIMITER, SUMMARY, DUMP_2, DUMP_1, DUMP_2, DUMP_2, DELIMITER
    );
    assert_eq!(entry.to_string(), expected);
}

#[test]
fn lines_that_are_no_dump_are_left_out_of_the_payload() {
    let input = [
        HEADER_16, DELIMITER, SUMMARY, "Sending 16 bytes", "some note", DUMP_1, "0x12 too short", "0xzzzz not hex", "", DELIMITER,
    ];
    let mut parser = SnoopParser::new(lines(&input)).unwrap();
    let entry = parser.parse_next().unwrap();
    let expected = format!(
        "{}\n{}\n{}\nSending 16 bytes\n{}\n\n{}\n",
        HEADER_16, DELIMITER, SUMMARY, DUMP_1, DELIMITER
    );
    assert_eq!(entry.to_string(), expected);
}

#[test]
fn decoded_payload_is_the_text_column_rewrapped() {
    let input = [HEADER_16, DELIMITER, SUMMARY, "Sending 32 bytes", DUMP_1, DUMP_2, "", DELIMITER];
    let mut parser = SnoopParser::new_with_options(lines(&input), true, false).unwrap();
    let entry = parser.parse_next().unwrap();
    assert!(matches!(entry, Entry::DataEntry(_)));
    let expected = format!(
        "{}\n{}\n{}\nSending 32 bytes\nHTTP/1.1.302.Moved.Temporarily..\n\n{}\n",
        HEADER_16, DELIMITER, SUMMARY, DELIMITER
    );
    assert_eq!(entry.to_string(), expected);
}

#[test]
fn decoded_payload_wraps_at_eighty_columns() {
    let mut input = vec![HEADER_16, DELIMITER, SUMMARY, "Receiving 96 bytes"];
    for _ in 0..6 {
        input.push(DUMP_1);
    }
    input.push("");
    input.push(DELIMITER);
    let mut parser = SnoopParser::new(lines(&input)).unwrap();
    parser.set_text_only(true);
    let entry = parser.parse_next().unwrap();
    let column = "HTTP/1.1.302.Mov";
    let first = column.repeat(5);
    let expected = format!(
        "{}\n{}\n{}\nReceiving 96 bytes\n{}\n{}\n\n{}\n",
        HEADER_16, DELIMITER, SUMMARY, first, column, DELIMITER
    );
    assert_eq!(first.len(), 80);
    assert_eq!(entry.to_string(), expected);
}

#[test]
fn decoded_payload_of_exactly_one_width_has_no_empty_line() {
    let mut input = vec![HEADER_16, DELIMITER, SUMMARY, "Receiving 80 bytes"];
    for _ in 0..5 {
        input.push(DUMP_1);
    }
    input.push("");
    input.push(DELIMITER);
    let mut parser = SnoopParser::new_with_options(lines(&input), true, false).unwrap();
    let entry = parser.parse_next().unwrap();
    let expected = format!(
        "{}\n{}\n{}\nReceiving 80 bytes\n{}\n\n{}\n",
        HEADER_16, DELIMITER, SUMMARY, "HTTP/1.1.302.Mov".repeat(5), DELIMITER
    );
    assert_eq!(entry.to_string(), expected);
}

#[test]
fn dump_line_without_text_column_adds_nothing_when_decoding() {
    let input = [HEADER_16, DELIMITER, SUMMARY, "Sending 16 bytes", "0x0000   4854", DUMP_2, "", DELIMITER];
    let mut parser = SnoopParser::new_with_options(lines(&input), true, false).unwrap();
    let entry = parser.parse_next().unwrap();
    let expected = format!(
        "{}\n{}\n{}\nSending 16 bytes\ned.Temporarily..\n\n{}\n",
        HEADER_16, DELIMITER, SUMMARY, DELIMITER
    );
    assert_eq!(entry.to_string(), expected);
}

#[test]
fn suppressed_payload_still_makes_a_data_record() {
    let input = [HEADER_16, DELIMITER, SUMMARY, "Sending 32 bytes", DUMP_1, DUMP_2, "", DELIMITER];
    for text_only in [false, true] {
        let mut parser = SnoopParser::new_with_options(lines(&input), text_only, true).unwrap();
        let entry = parser.parse_next().unwrap();
        assert!(matches!(entry, Entry::DataEntry(_)));
        let expected = format!(
            "{}\n{}\n{}\nSending 32 bytes\n\n{}\n",
            HEADER_16, DELIMITER, SUMMARY, DELIMITER
        );
        assert_eq!(entry.to_string(), expected);
    }
}

#[test]
fn setters_match_the_constructor_with_options() {
    let input = [HEADER_16, DELIMITER, SUMMARY, "Sending 32 bytes", DUMP_1, DUMP_2, "", DELIMITER];
    let mut a = SnoopParser::new_with_options(lines(&input), false, true).unwrap();
    let mut b = SnoopParser::new(lines(&input)).unwrap();
    b.set_no_data(true);
    assert_eq!(a.parse_next().unwrap().to_string(), b.parse_next().unwrap().to_string());
}

#[test]
fn unfinished_record_is_dropped_at_the_end_of_input() {
    let complete = [HEADER_16, DELIMITER, SUMMARY, "Closed connection", DELIMITER];
    for cut in 0..complete.len() {
        let mut parser = SnoopParser::new(lines(&complete[..cut])).unwrap();
        assert!(parser.parse_next().is_none());
        assert!(parser.parse_next().is_none());
    }
    let payload = [HEADER_16, DELIMITER, SUMMARY, "Sending 16 bytes", DUMP_1, "", DELIMITER];
    for cut in 0..payload.len() {
        let mut parser = SnoopParser::new(lines(&payload[..cut])).unwrap();
        assert!(parser.parse_next().is_none());
    }
}

#[test]
fn empty_input_has_no_record() {
    let mut parser = SnoopParser::new(Vec::new()).unwrap();
    assert!(parser.parse_next().is_none());
    assert!(parser.parse_next_filtered().is_none());
    assert!(parser.parse_all().is_empty());
}

#[test]
fn noise_between_the_lines_of_a_record_is_skipped() {
    let input = [
        "", "garbage", HEADER_16, "not the delimiter", "", DELIMITER, "junk", DELIMITER, SUMMARY, "Closed connection",
        "still waiting", SUMMARY, "", DELIMITER,
    ];
    let mut parser = SnoopParser::new(lines(&input)).unwrap();
    let entry = parser.parse_next().unwrap();
    assert_eq!(
        entry.to_string(),
        text(&[HEADER_16, DELIMITER, SUMMARY, "Closed connection", DELIMITER])
    );
    assert!(parser.parse_next().is_none());
}

#[test]
fn the_line_after_the_summary_is_the_action_whatever_it_says() {
    let input = [HEADER_16, DELIMITER, SUMMARY, DELIMITER, DELIMITER];
    let mut parser = SnoopParser::new(lines(&input)).unwrap();
    let entry = parser.parse_next().unwrap();
    assert!(matches!(entry, Entry::ActionEntry(_)));
    assert_eq!(entry.to_string(), text(&input));
}

#[test]
fn header_inside_a_body_is_noise() {
    let input = [HEADER_16, HEADER_10, DELIMITER, SUMMARY, "Closed connection", DELIMITER];
    let mut parser = SnoopParser::new(lines(&input)).unwrap();
    let entry = parser.parse_next().unwrap();
    assert_eq!(entry.get_id(), 16);
    assert!(parser.parse_next().is_none());
}

#[test]
fn summary_thread_need_not_be_the_header_thread() {
    let input = [HEADER_16, DELIMITER, "Thread 7; fd 2; local a; remote b", "Closed connection", DELIMITER];
    let mut parser = SnoopParser::new(lines(&input)).unwrap();
    let entry = parser.parse_next().unwrap();
    assert_eq!(entry.get_id(), 16);
    assert_eq!(entry.to_string(), text(&input));
}

#[test]
fn parse_all_uses_up_the_input() {
    let input = [HEADER_16, DELIMITER, SUMMARY, "Closed connection", DELIMITER, "", HEADER_10];
    let mut parser = SnoopParser::new(lines(&input)).unwrap();
    assert_eq!(parser.parse_all().len(), 1);
    assert!(parser.parse_next().is_none());
    assert!(parser.parse_all().is_empty());
}

#[test]
fn cloned_record_writes_the_same_text() {
    let input = [HEADER_16, DELIMITER, SUMMARY, "Sending 16 bytes", DUMP_1, "", DELIMITER];
    let mut parser = SnoopParser::new(lines(&input)).unwrap();
    let entry = parser.parse_next().unwrap();
    let copy = entry.clone();
    assert_eq!(copy.to_string(), entry.to_string());
    assert_eq!(copy.get_id(), 16);
}
