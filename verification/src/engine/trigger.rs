//! Starting the traced program: build the image of the mode's sources,
//! then run it in a container with the enclave device.
use vstd::prelude::*;
use crate::command::{CommandSpec, owned_texts, texts};
use super::TraceMode;

verus! {

/// The command that runs the image `image_name` in a detached container
/// with the enclave device and the host network.
pub fn create_container(image_name: &String) -> (c: CommandSpec)
    ensures
        c.program_text() == "docker"@,
        c.arg_texts() == seq![
            "run"@,
            "-d"@,
            "--rm"@,
            "--device=/dev/sgx_enclave"@,
            "--privileged"@,
            "--network=host"@,
            image_name@,
        ],
        c.dir_text() is None,
{
    let mut args = owned_texts(&["run", "-d", "--rm", "--device=/dev/sgx_enclave", "--privileged", "--network=host"]);
    let ghost before = args@;
    args.push(image_name.clone());
    assert(texts(args@) =~= texts(before).push(image_name@));
    CommandSpec { program: "docker".to_owned(), args, dir: None }
}

/// A command as texts: program, arguments, directory.
pub open spec fn command_view(c: CommandSpec) -> (Seq<char>, Seq<Seq<char>>, Option<Seq<char>>) {
    (c.program_text(), c.arg_texts(), c.dir_text())
}

/// The commands that start the image `image` of `mode`'s sources: its build
/// in the mode's source directory, then its run in a detached container.
pub open spec fn trigger_commands(image: Seq<char>, mode: TraceMode) -> Seq<
    (Seq<char>, Seq<Seq<char>>, Option<Seq<char>>),
> {
    let dir = if mode == TraceMode::Test {
        "source_files/test"@
    } else {
        "source_files/th"@
    };
    seq![
        ("docker"@, seq!["build"@, "-t"@, image, "."@], Some(dir)),
        (
            "docker"@,
            seq![
                "run"@,
                "-d"@,
                "--rm"@,
                "--device=/dev/sgx_enclave"@,
                "--privileged"@,
                "--network=host"@,
                image,
            ],
            None,
        ),
    ]
}

/// The image build and the container run that start the traced program of
/// `mode`: the test sources in test mode, the threshold sources in
/// threshold mode. Application mode traces a program that is already
/// running and starts nothing.
pub fn run_trigger(image_name: String, mode: TraceMode) -> (r: Vec<CommandSpec>)
    requires
        mode != TraceMode::Application,
    ensures
        r@.len() == 2,
        r@[0].program_text() == "docker"@,
        r@[0].arg_texts() == seq!["build"@, "-t"@, image_name@, "."@],
        r@[0].dir_text() == Some(
            if mode == TraceMode::Test {
                "source_files/test"@
            } else {
                "source_files/th"@
            },
        ),
        r@[1].program_text() == "docker"@,
        r@[1].arg_texts() == seq![
            "run"@,
            "-d"@,
            "--rm"@,
            "--device=/dev/sgx_enclave"@,
            "--privileged"@,
            "--network=host"@,
            image_name@,
        ],
        r@[1].dir_text() is None,
        r@.map_values(|c: CommandSpec| command_view(c)) == trigger_commands(image_name@, mode),
{
    let dir = match mode {
        TraceMode::Test => "source_files/test".to_owned(),
        _ => "source_files/th".to_owned(),
    };
    let mut args: Vec<String> = Vec::new();
    args.push("build".to_owned());
    args.push("-t".to_owned());
    args.push(image_name.clone());
    args.push(".".to_owned());
    assert(texts(args@) =~= seq!["build"@, "-t"@, image_name@, "."@]);
    let build = CommandSpec { program: "docker".to_owned(), args, dir: Some(dir) };
    let run = create_container(&image_name);
    let mut r: Vec<CommandSpec> = Vec::new();
    r.push(build);
    r.push(run);
    assert(r@.map_values(|c: CommandSpec| command_view(c)) =~= trigger_commands(image_name@, mode));
    r
}

} // verus!
