use syscall_fuzz::command::CommandSpec;
use syscall_fuzz::draw::{encrypted_name, original_name};
use syscall_fuzz::engine::interceptor::{create_script_line, script_output_path, trace_args};
use syscall_fuzz::engine::trigger::{create_container, run_trigger};
use syscall_fuzz::engine::TraceMode;
use syscall_fuzz::executor::run_executor;
use syscall_fuzz::fuzz::{flag_for_mode, nul_terminated, r_w_target, rand_falgs, SysOpen, SysRead, SysWrite};
use syscall_fuzz::fuzz_monitor::{analyse, encrypt_context, needs_entropy_check, output_analysis, output_analysis_text, rewrite_file, split_call};
use syscall_fuzz::interceptor;
use syscall_fuzz::record::TraceError;
use syscall_fuzz::tracer::{sed_args, sed_filter, test_trace_args, trace_args as tracer_args};

fn shape(c: &CommandSpec) -> (String, Vec<String>, Option<String>) {
    (c.program.clone(), c.args.clone(), c.dir.clone())
}

fn strs(v: &[&str]) -> Vec<String> {
    v.iter().map(|s| s.to_string()).collect()
}

#[test]
fn trigger_builds_then_runs() {
    let cmds = syscall_fuzz::engine::trigger(TraceMode::Test);
    assert_eq!(cmds.len(), 2);
    assert_eq!(shape(&cmds[0]), ("docker".to_string(), strs(&["build", "-t", "generator", "."]), Some("source_files/test".to_string())));
    assert_eq!(shape(&cmds[1]), ("docker".to_string(),
        strs(&["run", "-d", "--rm", "--device=/dev/sgx_enclave", "--privileged", "--network=host", "generator"]), None));
    let th = run_trigger("img".to_string(), TraceMode::Threshold);
    assert_eq!(th[0].dir, Some("source_files/th".to_string()));
    assert_eq!(th[0].args[2], "img");
    assert_eq!(create_container(&"x".to_string()).args.last().unwrap(), "x");
}

#[test]
fn executor_plan() {
    let p = run_executor();
    assert_eq!(shape(&p.build), ("docker".to_string(), strs(&["build", "-t", "generator", "."]), Some("./generator".to_string())));
    assert_eq!(shape(&p.run), ("docker".to_string(),
        strs(&["run", "-d", "--rm", "--device=/dev/isgx", "--privileged", "--name", "container_gen", "generator"]), None));
    assert_eq!(p.container_name, "container_gen");
}

#[test]
fn bpftrace_arguments() {
    assert_eq!(trace_args("", TraceMode::Test), strs(&["-f", "json", "source_files/trace_test.bt"]));
    assert_eq!(trace_args("app", TraceMode::Application), strs(&["-f", "json", "build/trace.bt"]));
    assert_eq!(trace_args("", TraceMode::Threshold), strs(&["-f", "json", "build/trace.bt"]));
    assert_eq!(script_output_path(), "build/trace.bt");
    assert_eq!(create_script_line("tracepoint:syscalls:sys_enter_read /comm==\"\"/ {", "nginx"),
        "tracepoint:syscalls:sys_enter_read /comm==\"nginx\"/ {");
    assert_eq!(create_script_line("BEGIN {", "nginx"), "BEGIN {");
    assert_eq!(interceptor::trace_args(interceptor::TraceMode::Test),
        strs(&["-f", "json", "-o", "files/output.json", "source_files/test_trace.bt"]));
    assert_eq!(interceptor::trace_args(interceptor::TraceMode::Application), strs(&["-f", "json", "files/trace.bt"]));
    assert_eq!(interceptor::script_output_path(), "files/trace.bt");
}

#[test]
fn tracer_sed_filter() {
    assert_eq!(sed_filter("generator"), "s/comm==\"\"/comm==\"generator\"/g");
    assert_eq!(sed_args("g"), strs(&["s/comm==\"\"/comm==\"g\"/g", "source_files/trace_source.bt"]));
    assert_eq!(tracer_args(), strs(&["-f", "json", "-o", "files/output.json", "files/trace.bt"]));
    assert_eq!(test_trace_args()[4], "source_files/test_trace.bt");
}

#[test]
fn syscall_values() {
    let o = SysOpen::new(2, 0, 1234, 66, 0o700);
    assert_eq!(o.open_arguments(), (1234, 66, 0o700));
    let r = SysRead::new(0, 7);
    assert_eq!((r.fd(), r.count(), r.buf().clone()), (7, 10, vec![b' '; 10]));
    let data = vec![1u8, 2, 3];
    let w = SysWrite::new(1, &data, 3);
    assert_eq!((w.fd(), w.count(), w.buf().clone()), (1, 3, data.clone()));
}

#[test]
fn access_flags() {
    assert_eq!(flag_for_mode(0), libc::O_RDONLY);
    assert_eq!(flag_for_mode(1), libc::O_WRONLY);
    assert_eq!(flag_for_mode(2), libc::O_RDWR);
    for _ in 0..50 {
        let f = rand_falgs();
        assert!(f == libc::O_RDONLY || f == libc::O_WRONLY || f == libc::O_RDWR);
    }
}

#[test]
fn copy_paths() {
    assert_eq!(r_w_target("/W_en/Re_We", "/R_en/a.txt"), "/W_en/Re_We/a.txt\0");
    assert_eq!(nul_terminated("/data/x"), "/data/x\0");
}

#[test]
fn buffer_records() {
    assert_eq!(split_call("\"write hello world\""), Some(("\"write".to_string(), "hello world\"".to_string())));
    assert_eq!(split_call("nospace"), None);
    assert!(needs_entropy_check("0123456789"));
    assert!(!needs_entropy_check("short"));
    let lines = vec![
        "Attaching".to_string(),
        "{\"type\":\"printf\",\"data\":\"write 0123456789abc\"}".to_string(),
        "{\"type\":\"printf\",\"data\":\"read ab\"}".to_string(),
    ];
    let plan = analyse(&lines);
    assert_eq!(plan.error, None);
    let checks = plan.checks;
    assert_eq!(checks.len(), 2);
    assert_eq!((checks[0].syscall.as_str(), checks[0].buf.as_str(), checks[0].measure), ("\"write", "0123456789abc\"", true));
    assert_eq!((checks[1].syscall.as_str(), checks[1].buf.as_str(), checks[1].measure), ("\"read", "ab\"", false));
    let bad = vec!["h".to_string(), lines[1].clone(), "{\"data\":\"x\"}".to_string(), lines[2].clone()];
    let plan = analyse(&bad);
    assert_eq!((plan.checks.len(), plan.error), (1, Some(TraceError::ShortRecord)));
    let plan = analyse(&vec!["h".to_string(), "no".to_string()]);
    assert_eq!((plan.checks.len(), plan.error), (0, Some(TraceError::InvalidJson)));
}

#[test]
fn json_array_framing() {
    let lines = strs(&["{\"a\":1}", "{\"b\":2}"]);
    let framed = rewrite_file(&lines).unwrap();
    assert_eq!(framed, "[\n{\"a\":1},\n{\"b\":2}\n]\n");
    assert!(serde_json::from_str::<serde_json::Value>(&framed).unwrap().is_array());
    assert_eq!(rewrite_file(&strs(&["{}"])), Some("[\n{}\n]\n".to_string()));
    assert_eq!(rewrite_file(&vec![]), None);
    assert_eq!(encrypt_context("write", "abc"), "write  abc\n");
    assert_eq!(output_analysis(&strs(&["header", "\"write abc\""])), vec![("\"write".to_string(), "abc\"".to_string())]);
    assert_eq!(output_analysis(&strs(&["header"])), vec![]);
    let text = "[\n{\"type\": \"attached_probes\", \"data\": {\"probes\": 2}},\n{\"type\": \"printf\", \"data\": \"read 3 ab cd\"}\n]\n";
    assert_eq!(output_analysis_text(text), Some(vec![("\"read".to_string(), "3 ab cd\"".to_string())]));
    assert_eq!(output_analysis_text("[{\"data\": 1}, {\"data\": \"close\"}]"), None);
    assert_eq!(output_analysis_text("[]"), None);
    assert_eq!(output_analysis_text("{\"data\": \"a b\"}"), None);
    assert_eq!(output_analysis_text("not json"), None);
}

#[test]
fn chart_names() {
    assert_eq!(encrypted_name("run1/doc.txt"), Some("doc.txt".to_string()));
    assert_eq!(encrypted_name("doc.txt"), None);
    assert_eq!(original_name("data-original/test_files/doc.txt"), "doc.txt");
}

#[test]
fn copy_loop_steps() {
    assert_eq!(syscall_fuzz::fuzz::copy_step(0, 0, None), None);
    assert_eq!(syscall_fuzz::fuzz::copy_step(0, 120, None), Some((120, 120)));
    assert_eq!(syscall_fuzz::fuzz::copy_step(400, 37, None), Some((37, 437)));
    assert_eq!(syscall_fuzz::fuzz::copy_step(200, 200, Some(200)), Some((200, 400)));
    assert_eq!(syscall_fuzz::fuzz::copy_step(200, 150, Some(200)), None);
    assert_eq!(syscall_fuzz::fuzz::copy_step(0, 0, Some(0)), None);
}
