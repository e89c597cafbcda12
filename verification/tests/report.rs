use rgping::report::{parse_line, parse_micros, parse_rtt};

const REPLY: &str = "PING example.org (93.184.216.34) 56(84) bytes of data.\n\
64 bytes from 93.184.216.34: icmp_seq=1 ttl=56 time=12.3 ms\n\
\n\
--- example.org ping statistics ---\n\
1 packets transmitted, 1 received, 0% packet loss, time 0ms\n\
rtt min/avg/max/mdev = 12.345/12.345/12.345/0.000 ms\n";

#[test]
fn reads_a_ping_reply() {
    assert_eq!(parse_rtt(REPLY.as_bytes()), Some(12_300));
}

#[test]
fn reads_nothing_from_a_report_without_the_mark() {
    let text = "PING example.org (93.184.216.34) 56(84) bytes of data.\n\
\n\
--- example.org ping statistics ---\n\
1 packets transmitted, 0 received, 100% packet loss, time 0ms\n";
    assert_eq!(parse_rtt(text.as_bytes()), None);
    assert_eq!(parse_rtt(b""), None);
    assert_eq!(parse_rtt(b"\n\n"), None);
}

#[test]
fn whole_milliseconds() {
    assert_eq!(parse_micros(b"5"), Some(5_000));
    assert_eq!(parse_micros(b"0"), Some(0));
    assert_eq!(parse_micros(b"123"), Some(123_000));
    assert_eq!(parse_micros(b"007"), Some(7_000));
}

#[test]
fn fractions_count_thousandths() {
    assert_eq!(parse_micros(b"12.3"), Some(12_300));
    assert_eq!(parse_micros(b"12.34"), Some(12_340));
    assert_eq!(parse_micros(b"12.345"), Some(12_345));
    assert_eq!(parse_micros(b"0.045"), Some(45));
    assert_eq!(parse_micros(b"0.5"), Some(500));
}

#[test]
fn places_behind_the_third_are_dropped() {
    assert_eq!(parse_micros(b"0.0456"), Some(45));
    assert_eq!(parse_micros(b"1.9999"), Some(1_999));
    assert_eq!(parse_micros(b"2.00000001"), Some(2_000));
}

#[test]
fn a_point_needs_a_digit_on_one_side() {
    assert_eq!(parse_micros(b".5"), Some(500));
    assert_eq!(parse_micros(b"5."), Some(5_000));
    assert_eq!(parse_micros(b"."), None);
    assert_eq!(parse_micros(b""), None);
}

#[test]
fn other_shapes_read_as_nothing() {
    assert_eq!(parse_micros(b"1.2.3"), None);
    assert_eq!(parse_micros(b"1e3"), None);
    assert_eq!(parse_micros(b"-1"), None);
    assert_eq!(parse_micros(b"+1"), None);
    assert_eq!(parse_micros(b"12ms"), None);
    assert_eq!(parse_micros(b"1.2x"), None);
    assert_eq!(parse_micros(b"inf"), None);
    assert_eq!(parse_micros(b"NaN"), None);
    assert_eq!(parse_micros(b" 1"), None);
    assert_eq!(parse_micros(b"1,5"), None);
}

#[test]
fn numbers_too_large_read_as_nothing() {
    assert_eq!(parse_micros(b"18446744073709551.615"), Some(u64::MAX));
    assert_eq!(parse_micros(b"18446744073709551.6159"), Some(u64::MAX));
    assert_eq!(parse_micros(b"18446744073709551.616"), None);
    assert_eq!(parse_micros(b"18446744073709552"), None);
    assert_eq!(parse_micros(b"18446744073709551615"), None);
    assert_eq!(parse_micros(b"18446744073709551616"), None);
    assert_eq!(parse_micros(b"99999999999999999999999999999999"), None);
    assert_eq!(parse_micros(b"99999999999999999999999999999999x"), None);
    assert_eq!(parse_micros(b"000000000000000000000000000001.5"), Some(1_500));
}

#[test]
fn line_without_the_mark() {
    assert_eq!(parse_line(b""), None);
    assert_eq!(parse_line(b"time"), None);
    assert_eq!(parse_line(b"tim=1.0"), None);
    assert_eq!(parse_line(b"TIME=1.0"), None);
    assert_eq!(parse_line(b"time 0ms"), None);
}

#[test]
fn number_ends_at_the_blank() {
    assert_eq!(parse_line(b"icmp_seq=1 ttl=56 time=0.045 ms"), Some(45));
    assert_eq!(parse_line(b"time=7 ms and more"), Some(7_000));
}

#[test]
fn number_ends_at_the_end_of_the_line() {
    assert_eq!(parse_line(b"time=3.5"), Some(3_500));
    assert_eq!(parse_line(b"xxtime=3.5"), Some(3_500));
}

#[test]
fn number_ends_at_any_white_space() {
    assert_eq!(parse_line(b"time=1.5\tms"), Some(1_500));
    assert_eq!(parse_line(b"time=1.5\rms"), Some(1_500));
    assert_eq!(parse_line(b"time=1.5\x0bms"), Some(1_500));
    assert_eq!(parse_line(b"time=1.5\x0cms"), Some(1_500));
}

#[test]
fn mark_without_a_number() {
    assert_eq!(parse_line(b"time="), None);
    assert_eq!(parse_line(b"time= 5 ms"), None);
    assert_eq!(parse_line(b"time=fast ms"), None);
    assert_eq!(parse_line(b"time=5ms"), None);
}

#[test]
fn first_mark_of_a_line_decides() {
    assert_eq!(parse_line(b"time=abc time=1.2 ms"), None);
    assert_eq!(parse_line(b"time=1.2 time=abc ms"), Some(1_200));
    assert_eq!(parse_line(b"time=1 time=2"), Some(1_000));
}

#[test]
fn mark_may_overlap_a_false_start() {
    assert_eq!(parse_line(b"titime=4 ms"), Some(4_000));
    assert_eq!(parse_line(b"timtime=4 ms"), Some(4_000));
}

#[test]
fn first_line_that_reads_gives_the_report() {
    assert_eq!(parse_rtt(b"time=1 ms\ntime=2 ms\n"), Some(1_000));
    assert_eq!(parse_rtt(b"time=oops ms\ntime=2 ms\n"), Some(2_000));
    assert_eq!(parse_rtt(b"time=oops time=9 ms\nnothing\ntime=2.5 ms"), Some(2_500));
    assert_eq!(parse_rtt(b"time=oops\ntime=\n"), None);
}

#[test]
fn mark_does_not_reach_over_a_line_end() {
    assert_eq!(parse_rtt(b"tim\ne=5 ms\n"), None);
    assert_eq!(parse_rtt(b"time=\n5 ms\n"), None);
    assert_eq!(parse_rtt(b"time=1\n.5 ms\n"), Some(1_000));
}

#[test]
fn carriage_returns_end_the_number() {
    assert_eq!(parse_rtt(b"reply time=8.25\r\nbye\r\n"), Some(8_250));
    assert_eq!(parse_rtt(b"reply time=8.25 ms\r\n"), Some(8_250));
}

#[test]
fn last_line_needs_no_line_feed() {
    assert_eq!(parse_rtt(b"a\nb\nc time=0.5 ms"), Some(500));
}

#[test]
fn bytes_outside_ascii_are_passed_over() {
    assert_eq!(parse_rtt(b"\xff\xfe r\xc3\xa9ponse time=2.5 ms\n"), Some(2_500));
    assert_eq!(parse_rtt(b"time=2\xc2\xa05 ms\n"), None);
}
