//! Running the system call generator: build its image, then start it in a
//! named container with the enclave device.
use vstd::prelude::*;
use crate::command::{CommandSpec, owned_texts, texts};

verus! {

/// The command that builds the generator image `name` from `./generator`.
pub fn create_image(name: &String) -> (c: CommandSpec)
    ensures
        c.program_text() == "docker"@,
        c.arg_texts() == seq!["build"@, "-t"@, name@, "."@],
        c.dir_text() == Some("./generator"@),
{
    let mut args: Vec<String> = Vec::new();
    args.push("build".to_owned());
    args.push("-t".to_owned());
    args.push(name.clone());
    args.push(".".to_owned());
    assert(texts(args@) =~= seq!["build"@, "-t"@, name@, "."@]);
    CommandSpec { program: "docker".to_owned(), args, dir: Some("./generator".to_owned()) }
}

/// The command that starts the image `image_name` in the detached
/// container `container_gen`, and that container's name.
pub fn create_container(image_name: &String) -> (r: (CommandSpec, String))
    ensures
        r.0.program_text() == "docker"@,
        r.0.arg_texts() == seq![
            "run"@,
            "-d"@,
            "--rm"@,
            "--device=/dev/isgx"@,
            "--privileged"@,
            "--name"@,
            "container_gen"@,
            image_name@,
        ],
        r.0.dir_text() is None,
        r.1@ == "container_gen"@,
{
    let mut args = owned_texts(&["run", "-d", "--rm", "--device=/dev/isgx", "--privileged", "--name", "container_gen"]);
    let ghost before = args@;
    args.push(image_name.clone());
    assert(texts(args@) =~= texts(before).push(image_name@));
    (CommandSpec { program: "docker".to_owned(), args, dir: None }, "container_gen".to_owned())
}

/// The generator's image build, its container start, and the container's
/// name.
pub struct ExecutorPlan {
    pub build: CommandSpec,
    pub run: CommandSpec,
    pub container_name: String,
}

/// The commands that build and start the generator image `generator`.
pub fn run_executor() -> (p: ExecutorPlan)
    ensures
        p.build.program_text() == "docker"@,
        p.build.arg_texts() == seq!["build"@, "-t"@, "generator"@, "."@],
        p.build.dir_text() == Some("./generator"@),
        p.run.program_text() == "docker"@,
        p.run.arg_texts() == seq![
            "run"@,
            "-d"@,
            "--rm"@,
            "--device=/dev/isgx"@,
            "--privileged"@,
            "--name"@,
            "container_gen"@,
            "generator"@,
        ],
        p.run.dir_text() is None,
        p.container_name@ == "container_gen"@,
{
    let image_name = "generator".to_owned();
    let build = create_image(&image_name);
    let (run, container_name) = create_container(&image_name);
    ExecutorPlan { build, run, container_name }
}

} // verus!
