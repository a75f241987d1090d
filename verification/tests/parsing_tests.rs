use cactus::logparse::LogParser;
use cactus::probe::parse_gpu_csv;
use cactus::types::{parse_status, status_name, WorkerStatus};

#[test]
fn error_prefixed_line() {
    let e = LogParser::parse_line("ERROR: something broke");
    assert!(e.is_error);
    assert_eq!(e.level.as_deref(), Some("ERROR"));
    assert_eq!(e.message, "something broke");
    assert!(e.timestamp.is_none());
    assert!(e.module.is_none());
}

#[test]
fn plain_line_is_trimmed() {
    let e = LogParser::parse_line("   hello world  ");
    assert!(!e.is_error);
    assert!(e.level.is_none());
    assert_eq!(e.message, "hello world");
}

#[test]
fn structured_line_extracts_fields() {
    let line = "[2m2024-01-01T00:00:00Z[0m[32m INFO[0m cactus::server starting up";
    let e = LogParser::parse_line(line);
    assert!(!e.is_error);
    assert_eq!(e.timestamp.as_deref(), Some("2024-01-01T00:00:00"));
    assert_eq!(e.level.as_deref(), Some("INFO"));
    assert_eq!(e.module.as_deref(), Some("cactus::server"));
    // The timestamp part (cleaned of its markers) lands in the message
    // first; the module part's remaining words then replace it.
    assert_eq!(e.message, "starting up");
}

#[test]
fn structured_line_without_module_gathers_message() {
    let line = "[2mplain[0m body text";
    let e = LogParser::parse_line(line);
    assert!(!e.is_error);
    assert!(e.module.is_none());
    assert_eq!(e.message, "plain body text");
}

#[test]
fn gpu_csv_well_formed() {
    let g = parse_gpu_csv("16384, 4096, 12288, NVIDIA GeForce RTX 4090\n").unwrap();
    assert_eq!(g.total_memory, 16384);
    assert_eq!(g.allocated_memory, 4096);
    assert_eq!(g.free_memory, 12288);
    assert_eq!(g.reserved_memory, 0);
    assert_eq!(g.device_name, "NVIDIA GeForce RTX 4090");
    assert_eq!(g.cuda_version, "N/A");
    assert_eq!(g.compute_capability, "N/A");
}

#[test]
fn gpu_csv_takes_first_line_only() {
    let g = parse_gpu_csv("8192, 100, 8092, A\n16384, 0, 16384, B\n").unwrap();
    assert_eq!(g.total_memory, 8192);
    assert_eq!(g.device_name, "A");
}

#[test]
fn gpu_csv_malformed_is_refused() {
    assert!(parse_gpu_csv("").is_none());
    assert!(parse_gpu_csv("garbage").is_none());
    assert!(parse_gpu_csv("1, 2, 3").is_none());
    assert!(parse_gpu_csv("one, 2, 3, name").is_none());
    assert!(parse_gpu_csv("1, 2, 3, name, extra").is_none());
}

#[test]
fn status_names_round_trip() {
    for st in [
        WorkerStatus::Online,
        WorkerStatus::Busy,
        WorkerStatus::Error,
        WorkerStatus::Offline,
    ] {
        let name = status_name(st);
        assert_eq!(parse_status(&name), Some(st));
    }
    assert_eq!(status_name(WorkerStatus::Online), "online");
    assert_eq!(parse_status("unknown"), None);
}
