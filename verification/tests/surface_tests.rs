//! The surrounding layers: handles, timing, main loop frames, console
//! routing, clock, fetch decisions.

use em_bindgen::console::{console_stream, default_level, log_enabled, ConsoleStream, Level, LevelFilter};
use em_bindgen::chrono::{query_year, Local};
use em_bindgen::fetch::{method_name, response_result, FetchStatus, Method, RequestError, ResponseReader};
use em_bindgen::main_loop::{frame_delay_for, FiniteLoop, TickOutcome};
use em_bindgen::value::{loose_cmp, JsValue};
use em_bindgen::{clamp_millis, name_with_nul, sleep_chunks, timing_mode_value, Timing};
use std::cmp::Ordering;

#[test]
fn reserved_handles() {
    assert_eq!(JsValue::undefined().as_handle(), 2);
    assert_eq!(JsValue::null().as_handle(), 4);
    assert_eq!(JsValue::from_bool(true).as_handle(), 6);
    assert_eq!(JsValue::from_bool(false).as_handle(), 8);
    assert!(!JsValue::from_bool(false).uses_ref_count());
    let v = JsValue::take_ownership(40);
    assert!(v.uses_ref_count());
    assert_eq!(v.into_handle(), 40);
}

#[test]
fn loose_cmp_combines_host_verdicts() {
    assert_eq!(loose_cmp(true, false, false), Some(Ordering::Equal));
    assert_eq!(loose_cmp(true, true, true), Some(Ordering::Equal));
    assert_eq!(loose_cmp(false, true, false), Some(Ordering::Less));
    assert_eq!(loose_cmp(false, false, true), Some(Ordering::Greater));
    assert_eq!(loose_cmp(false, false, false), None);
}

#[test]
fn timing_encodings() {
    assert_eq!(timing_mode_value(&Timing::SetTimeout(16)), (0, 16));
    assert_eq!(timing_mode_value(&Timing::SetTimeout(u64::MAX)), (0, i32::MAX));
    assert_eq!(timing_mode_value(&Timing::SetImmediate), (2, 0));
    assert_eq!(timing_mode_value(&Timing::Raf(1)), (1, 1));
    assert_eq!(timing_mode_value(&Timing::Raf(u32::MAX)), (1, i32::MAX));
    assert_eq!(clamp_millis(0), 0);
    assert_eq!(clamp_millis(2_147_483_647), i32::MAX);
    assert_eq!(clamp_millis(2_147_483_648), i32::MAX);
}

#[test]
fn sleep_splits_against_the_32_bit_limit() {
    assert_eq!(sleep_chunks(1000), (1000, 0));
    let limit: u128 = 0xffff_ffff;
    assert_eq!(sleep_chunks(limit), (0, 1));
    assert_eq!(sleep_chunks(limit * 3 + 7), (7, 3));
}

#[test]
fn c_string_name_truncates_at_the_first_nul() {
    assert_eq!(name_with_nul(&b"abc".to_vec()), b"abc\0".to_vec());
    assert_eq!(name_with_nul(&b"ab\0cd".to_vec()), b"ab\0".to_vec());
    assert_eq!(name_with_nul(&Vec::<u8>::new()), b"\0".to_vec());
    assert_eq!(name_with_nul(&b"\0".to_vec()), b"\0".to_vec());
}

#[test]
fn finite_loop_runs_every_third_frame() {
    let mut fl = FiniteLoop::new(3);
    assert!(!fl.frame_begins());
    assert!(!fl.frame_begins());
    assert!(fl.frame_begins());
    assert!(fl.frame_ends(TickOutcome::Completed { cancel_requested: false }));
    assert!(!fl.frame_begins());
    assert!(!fl.frame_begins());
    assert!(fl.frame_begins());
    assert!(!fl.frame_ends(TickOutcome::Completed { cancel_requested: true }));
    assert!(fl.is_done());
    assert!(!fl.must_resume_panic());
}

#[test]
fn frame_delay_follows_the_timing() {
    assert_eq!(frame_delay_for(&Timing::Raf(4)), 4);
    assert_eq!(frame_delay_for(&Timing::Raf(1)), 1);
    assert_eq!(frame_delay_for(&Timing::SetTimeout(16)), 1);
    assert_eq!(frame_delay_for(&Timing::SetImmediate), 1);
}

#[test]
fn finite_loop_stops_and_parks_a_panic() {
    let mut fl = FiniteLoop::new(1);
    assert!(fl.frame_begins());
    assert!(!fl.frame_ends(TickOutcome::Panicked));
    assert!(fl.is_done());
    assert!(fl.must_resume_panic());
}

#[test]
fn console_routing() {
    assert!(matches!(console_stream(&Level::Error), ConsoleStream::Error));
    assert!(matches!(console_stream(&Level::Warn), ConsoleStream::Warn));
    assert!(matches!(console_stream(&Level::Info), ConsoleStream::Log));
    assert!(matches!(console_stream(&Level::Trace), ConsoleStream::Log));
    assert!(log_enabled(&LevelFilter::Info, &Level::Error));
    assert!(log_enabled(&LevelFilter::Info, &Level::Info));
    assert!(!log_enabled(&LevelFilter::Info, &Level::Debug));
    assert!(!log_enabled(&LevelFilter::Off, &Level::Error));
    assert!(matches!(default_level(true), LevelFilter::Debug));
    assert!(matches!(default_level(false), LevelFilter::Info));
}

#[test]
fn query_year_shifts_early_years_by_whole_cycles() {
    assert_eq!(query_year(2024), 2024);
    assert_eq!(query_year(100), 100);
    assert_eq!(query_year(99), 499);
    assert_eq!(query_year(50), 450);
    assert_eq!(query_year(0), 400);
    assert_eq!(query_year(-1), 399);
    assert_eq!(query_year(-300), 100);
    assert_eq!(query_year(-301), 499);
}

#[test]
fn local_now_reports_a_sane_offset() {
    let now = Local::now();
    assert!(now.offset_seconds > -86400 && now.offset_seconds < 86400);
    // The instant itself comes from the clock; the library promises nothing
    // about it beyond the pairing with a valid offset.
    let again = Local::now();
    assert!(again.offset_seconds > -86400 && again.offset_seconds < 86400);
}

#[test]
fn fetch_method_names() {
    assert_eq!(method_name(&Method::GET), "GET");
    assert_eq!(method_name(&Method::HEAD), "HEAD");
    assert_eq!(method_name(&Method::POST), "POST");
    assert_eq!(method_name(&Method::PUT), "PUT");
    assert_eq!(method_name(&Method::DELETE), "DELETE");
    assert_eq!(method_name(&Method::CONNECT), "CONNECT");
    assert_eq!(method_name(&Method::OPTIONS), "OPTIONS");
    assert_eq!(method_name(&Method::TRACE), "TRACE");
    assert_eq!(method_name(&Method::PATCH), "PATCH");
}

#[test]
fn response_results_map_the_host_status() {
    match response_result(FetchStatus::Sent, 24) {
        Ok(body) => assert_eq!(body.into_inner().into_handle(), 24),
        Err(_) => panic!("a sent response wraps its handle"),
    }
    assert_eq!(
        response_result(FetchStatus::TimedOut, 0).unwrap_err(),
        RequestError::TimedOut
    );
    assert_eq!(
        response_result(FetchStatus::Exception, 0).unwrap_err(),
        RequestError::Unexpected
    );
}

#[test]
fn response_reader_reads_across_chunks() {
    let mut r = ResponseReader::new();
    assert!(r.needs_chunk());
    r.supply_chunk(vec![1, 2, 3, 4]);
    assert!(!r.needs_chunk());
    assert_eq!(r.read(3), vec![1, 2, 3]);
    assert_eq!(r.read(3), vec![4]);
    assert!(r.needs_chunk());
    r.supply_chunk(vec![5, 6]);
    r.consume(1);
    assert_eq!(r.read(10), vec![6]);
    r.mark_ended();
    assert!(!r.needs_chunk());
    assert_eq!(r.read(10), Vec::<u8>::new());
}
