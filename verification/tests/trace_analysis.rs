use syscall_fuzz::action::TraceAction;
use syscall_fuzz::encryption::{comparison_of, encryption_analysis, evaluation_plan, metric_of, Comparison, Metric};
use syscall_fuzz::engine::application::{analysis, analysis_data, analysis_readable, judge_name, judge_reports_encrypted};
use syscall_fuzz::engine::threshold::{threshold_analysis, threshold_readable, OutputRecorder};
use syscall_fuzz::engine::{announces_unencrypted, judge_method, line_readable, Engine, TraceMode, ValueType, VALUE_COUNT};
use syscall_fuzz::ent::ent_fields;
use syscall_fuzz::fd_table::FdTable;
use syscall_fuzz::monitor::{analyse, report_entry};
use syscall_fuzz::record::TraceError;
use syscall_fuzz::threshold::{file_name, syscall_separate_th};

fn line(data: &str) -> String {
    format!("{{\"type\": \"printf\", \"data\": {}}}", serde_json::to_string(data).unwrap())
}

fn append(path: &str, data: &str) -> TraceAction {
    TraceAction::Append { path: path.to_string(), data: data.to_string() }
}

#[test]
fn application_follows_open_write_close() {
    let mut t: FdTable<String> = FdTable::new();
    assert_eq!(analysis("Attaching 4 probes...", &mut t), TraceAction::Ignore);
    assert_eq!(analysis(&line("openat 3 _ /data/secret.txt"), &mut t), TraceAction::Record);
    assert_eq!(analysis(&line("write 3 5 hello world"), &mut t),
        append("build/tmp_files/\\data\\secret.txt", "hello world"));
    assert_eq!(analysis(&line("write 3 0 nothing"), &mut t), TraceAction::Record);
    assert_eq!(analysis(&line("write 9 5 other"), &mut t), TraceAction::Record);
    assert_eq!(analysis(&line("close 3 _ x"), &mut t),
        TraceAction::Close { path: "build/tmp_files/\\data\\secret.txt".to_string() });
    assert_eq!(analysis(&line("close 3 _ x"), &mut t), TraceAction::Record);
}

#[test]
fn application_sockets_keep_their_address() {
    let mut t: FdTable<String> = FdTable::new();
    assert_eq!(analysis(&line("connect 5 0 127.0.0.1:8085"), &mut t), TraceAction::Record);
    assert_eq!(analysis(&line("sendto 5 3 abc"), &mut t), append("build/tmp_files/127.0.0.1:8085", "abc"));
    assert_eq!(analysis(&line("open 6 _ "), &mut t), TraceAction::Record);
    assert_eq!(analysis(&line("read 6 3 abc"), &mut t), TraceAction::Record);
}

#[test]
fn application_errors() {
    let mut t: FdTable<String> = FdTable::new();
    assert!(!analysis_readable("not json"));
    assert!(!analysis_readable("{\"data\": 5}"));
    assert!(analysis_readable(&line("close 3")));
    assert_eq!(analysis(&line("close 3"), &mut t), TraceAction::Report);
    assert!(!analysis_readable(&line("read 3 x data")));
    assert!(analysis_readable(&line("close 3 x data")));
    assert!(analysis_readable(&line("read 3 -4 data")));
    assert_eq!(analysis(&line("read 3 -4 data"), &mut t), TraceAction::Record);
    assert!(analysis_readable("Attaching 2 probes..."));
    assert_eq!(analysis_data(Some("\"close 3\"".to_string()), &mut t), TraceAction::Report);
}

#[test]
fn json_escapes_stay_in_the_data() {
    // the data text is taken as serde_json writes it: escapes stay escaped
    let mut t: FdTable<String> = FdTable::new();
    analysis(&line("open 3 _ /f"), &mut t);
    assert_eq!(analysis(&line("write 3 4 a\"b"), &mut t), append("build/tmp_files/\\f", "a\\\"b"));
}

#[test]
fn judged_names() {
    assert_eq!(judge_name("build/tmp_files/\\data\\secret.txt"), "/data/secret.txt");
    assert_eq!(judge_name("build/tmp_files/127.0.0.1:8085"), "127.0.0.1:8085");
    assert!(judge_reports_encrypted(TraceMode::Test));
    assert!(!judge_reports_encrypted(TraceMode::Application));
    assert_eq!(judge_method(), ValueType::SerialCorrelation);
    assert_eq!(ValueType::SerialCorrelation.index(), 5);
    assert_eq!(ValueType::Entropy.index(), 1);
    assert_eq!(VALUE_COUNT, 6);
}

#[test]
fn threshold_names_files_by_last_component() {
    let mut t: FdTable<String> = FdTable::new();
    assert_eq!(threshold_analysis(&line("open 3 _ /data/test_files/a.txt"), &mut t), TraceAction::Record);
    assert_eq!(threshold_analysis(&line("read 3 200 xyz"), &mut t), append("build/tmp_files/a.txt", "xyz"));
    assert!(!threshold_readable(&line("read 3 -1 xyz")));
    assert!(threshold_readable(&line("close 3 -1 xyz")));
    assert!(!threshold_readable("not json"));
    assert_eq!(threshold_analysis(&line("close 3 _ _"), &mut t),
        TraceAction::Close { path: "build/tmp_files/a.txt".to_string() });
    assert_eq!(threshold_analysis("probes", &mut t), TraceAction::Ignore);
}

#[test]
fn output_recorder_counts_protected_fs_files() {
    let mut r = OutputRecorder::new();
    let d = r.output_to_files(true, "{\"file\":\"build/tmp_files/a.txt\"}\n").unwrap();
    assert_eq!((d.path.as_str(), d.write), ("build/threshold_output/encrypted_0", true));
    let d = r.output_to_files(true, "{\"file\":\"build/tmp_files/volume.fspf\"}\n").unwrap();
    assert_eq!((d.path.as_str(), d.write), ("build/threshold_output/encrypted_0", false));
    let d = r.output_to_files(true, "{\"file\":\"b.txt\"}\n").unwrap();
    assert_eq!((d.path.as_str(), d.write), ("build/threshold_output/encrypted_1", true));
    let d = r.output_to_files(false, "{\"file\":\"/proc/mounts\"}\n").unwrap();
    assert_eq!((d.path.as_str(), d.write), ("build/threshold_output/original", false));
}

#[test]
fn engine_measures_original_data_once() {
    let mut e = Engine::new(TraceMode::Threshold);
    let s1 = e.exec_line("Attaching 2 probes");
    assert!(s1.run_ent_org);
    assert_eq!(s1.action, TraceAction::Ignore);
    let s2 = e.exec_line(&line("open 3 _ /data/test_files/a"));
    assert!(!s2.run_ent_org);
    assert_eq!(s2.action, TraceAction::Record);
    assert!(!line_readable(TraceMode::Threshold, &line("read 3 -1 xyz")));
    assert!(line_readable(TraceMode::Application, &line("read 3 -1 xyz")));
    let mut a = Engine::new(TraceMode::Application);
    let s = a.exec_line(&line("open 3 _ /a"));
    assert!(!s.run_ent_org);
    assert!(announces_unencrypted(TraceMode::Application));
    assert!(!announces_unencrypted(TraceMode::Threshold));
}

#[test]
fn monitor_sorts_buffers_by_descriptor() {
    let lines = vec![
        "Attaching 3 probes...".to_string(),
        line("open 3 _ /data/x"),
        line("read 3 4 abcd"),
        line("accept4 4 7 10.0.0.1"),
        line("recv 7 2 hi"),
        line("close 3 _ _"),
        line("read 3 4 lost"),
    ];
    let plan = analyse(&lines);
    assert_eq!(plan.error, None);
    assert_eq!(plan.actions, vec![
        TraceAction::Record,
        append("outfiles/\\data\\x", "abcd"),
        TraceAction::Record,
        append("outfiles/accept4_10.0.0.1", "hi"),
        TraceAction::Record,
        TraceAction::Record,
    ]);
    let empty = analyse(&vec![]);
    assert_eq!((empty.actions, empty.error), (vec![], None));
    let bad = analyse(&vec!["h".to_string(), line("open 3 _ /a"), line("read 3 1 z"), line("close 3"), line("read 3 1 y")]);
    assert_eq!(bad.actions, vec![TraceAction::Record, append("outfiles/\\a", "z")]);
    assert_eq!(bad.error, Some(TraceError::ShortRecord));
    assert_eq!(report_entry("outfiles/\\data\\x"), "/data/x\n");
}

#[test]
fn threshold_separation_follows_test_files() {
    let lines = vec![
        "header".to_string(),
        line("openat 3 _ /data/test_files/doc.txt"),
        line("openat 4 _ /etc/passwd"),
        line("read 3 3 abc"),
        line("read 4 3 def"),
        line("close 3 _ _"),
    ];
    let plan = syscall_separate_th(&lines);
    assert_eq!(plan.error, None);
    let acts = plan.actions;
    // the name keeps what follows the first sixteen bytes of the path
    assert_eq!(acts[2], append("outfiles//doc.txt", "abc"));
    assert_eq!(&"/data/test_files/doc.txt"[16..], "/doc.txt");
    assert_eq!(acts[3], TraceAction::Record);
    let bad = vec!["header".to_string(), line("read 3 x abc")];
    let failed = syscall_separate_th(&bad);
    assert_eq!((failed.actions, failed.error), (vec![], Some(TraceError::InvalidLength)));
    assert_eq!(file_name("outfiles/doc.txt"), "doc.txt");
}

#[test]
fn threshold_collection_stops_at_close() {
    let lines = vec![
        "header".to_string(),
        line("open 5 _ /data/test_files/a.bin"),
        line("read 5 0 none"),
        line("pread64 5 2 xy"),
        line("close 5 _ _"),
        line("read 5 2 zz"),
    ];
    let plan = syscall_separate_th(&lines);
    assert_eq!(plan.error, None);
    assert_eq!(plan.actions, vec![
        TraceAction::Record,
        TraceAction::Record,
        append("outfiles//a.bin", "xy"),
        TraceAction::Record,
        TraceAction::Record,
    ]);
}

#[test]
fn encryption_evaluates_on_close() {
    let lines = vec![
        "header".to_string(),
        line("open -100 5 /data/read_file.txt"),
        line("read 5 3 abc"),
        line("close 5 0 _"),
    ];
    let plan = encryption_analysis(&lines);
    assert_eq!(plan.error, None);
    assert_eq!(plan.actions, vec![
        TraceAction::Record,
        append("outfiles/open__data_read_file.txt", "abc"),
        TraceAction::Evaluate {
            name: "/data/read_file.txt".to_string(),
            path: "outfiles/open__data_read_file.txt".to_string(),
        },
    ]);
}

#[test]
fn evaluation_names() {
    assert_eq!(evaluation_plan("MEAN", "G"), (Metric::Mean, Comparison::Greater));
    assert_eq!(evaluation_plan("SERIAL_CORRELATION", "L"), (Metric::SerialCorrelation, Comparison::Less));
    assert_eq!(evaluation_plan("CHI_SQUARE", "NE"), (Metric::ChiSquare, Comparison::NotEqual));
    assert_eq!(metric_of("Mean"), None);
    assert_eq!(metric_of("MONTE_CARLO"), Some(Metric::MonteCarlo));
    assert_eq!(comparison_of("GE"), None);
    assert_eq!(comparison_of("NE"), Some(Comparison::NotEqual));
    assert_eq!(Metric::Mean.column(), 4);
    assert_eq!(Metric::Entropy.column(), 2);
}

#[test]
fn ent_output_fields() {
    let out = "0,File-bytes,Entropy,Chi-square,Mean,Monte-Carlo-Pi,Serial-Correlation\n1,1024,7.8,250.3,127.5,3.14,0.001\n";
    let f = ent_fields(out).unwrap();
    assert_eq!(f, vec!["1", "1024", "7.8", "250.3", "127.5", "3.14", "0.001"]);
    assert_eq!(ent_fields("only one line"), None);
}
