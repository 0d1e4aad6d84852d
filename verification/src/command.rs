//! Construction of the external command lines a deployment run issues.
//!
//! Every function here only builds an [`Invocation`] value — the program
//! name, its arguments and the directory to run it from — and pins the exact
//! argument list down in its contract. Spawning the process is left to the
//! surrounding program.

use vstd::prelude::*;

use crate::outcome::{LocalStep, RemoteStep};

verus! {

/// Seconds the connectivity prober waits before probing, so that a server
/// that just rebooted or is mid-restart is not hammered.
pub const PROBE_SETTLE_SECS: u64 = 1;

/// One external program invocation: the program, its arguments in order, and
/// the directory to run it from (`"."` for the caller's own directory).
#[derive(Debug)]
pub struct Invocation {
    pub program: String,
    pub args: Vec<String>,
    pub dir: String,
}

/// Command `docker <verb> <args..>`, run from `path`.
pub fn docker(verb: &str, args: &Vec<String>, path: &str) -> (inv: Invocation)
    ensures
        inv.program@ == "docker"@,
        inv.args.deep_view() == args.deep_view().insert(0, verb@),
        inv.dir@ == path@,
{
    let mut a: Vec<String> = Vec::new();
    a.push(String::from_str(verb));
    let mut i: usize = 0;
    while i < args.len()
        invariant
            i <= args.len(),
            a.deep_view() =~= args.deep_view().subrange(0, i as int).insert(0, verb@),
        decreases args.len() - i,
    {
        let ghost pre = a.deep_view();
        a.push(args[i].clone());
        proof {
            assert(a.deep_view() =~= pre.push(args.deep_view()[i as int]));
            assert(a.deep_view() =~= args.deep_view().subrange(0, i + 1 as int).insert(0, verb@));
        }
        i = i + 1;
    }
    proof {
        assert(args.deep_view().subrange(0, args@.len() as int) =~= args.deep_view());
    }
    Invocation {
        program: String::from_str("docker"),
        args: a,
        dir: String::from_str(path),
    }
}

/// Command `ssh <user>@<ip> <args..>`, the remote-shell session every remote
/// step and status query runs through.
pub fn ssh_run(args: &Vec<String>, user: &str, ip: &str) -> (inv: Invocation)
    ensures
        inv.program@ == "ssh"@,
        inv.args.deep_view() == args.deep_view().insert(0, user@ + "@"@ + ip@),
        inv.dir@ == "."@,
{
    let target = String::from_str(user).concat("@").concat(ip);
    let mut a: Vec<String> = Vec::new();
    a.push(target);
    let mut i: usize = 0;
    while i < args.len()
        invariant
            i <= args.len(),
            a.deep_view() =~= args.deep_view().subrange(0, i as int).insert(0, user@ + "@"@ + ip@),
        decreases args.len() - i,
    {
        let ghost pre = a.deep_view();
        a.push(args[i].clone());
        proof {
            assert(a.deep_view() =~= pre.push(args.deep_view()[i as int]));
            assert(a.deep_view() =~= args.deep_view().subrange(0, i + 1 as int).insert(
                0,
                user@ + "@"@ + ip@,
            ));
        }
        i = i + 1;
    }
    proof {
        assert(args.deep_view().subrange(0, args@.len() as int) =~= args.deep_view());
    }
    Invocation { program: String::from_str("ssh"), args: a, dir: String::from_str(".") }
}

/// Command `rsync -a -z -e "ssh -p <port>" <public_dir>/<image>/
/// <user>@<ip>:<image>`: the incremental, compressed, permission-preserving
/// transfer of a service's directory to a remote server over the configured
/// port.
pub fn upload_image(user: &str, ip: &str, image: &str, port: &str, public_dir: &str) -> (inv:
    Invocation)
    ensures
        inv.program@ == "rsync"@,
        inv.args.deep_view() == seq![
            "-a"@,
            "-z"@,
            "-e"@,
            "ssh -p "@ + port@,
            public_dir@ + "/"@ + image@ + "/"@,
            user@ + "@"@ + ip@ + ":"@ + image@,
        ],
        inv.dir@ == "."@,
{
    let mut a: Vec<String> = Vec::new();
    a.push(String::from_str("-a"));
    a.push(String::from_str("-z"));
    a.push(String::from_str("-e"));
    a.push(String::from_str("ssh -p ").concat(port));
    a.push(String::from_str(public_dir).concat("/").concat(image).concat("/"));
    a.push(String::from_str(user).concat("@").concat(ip).concat(":").concat(image));
    proof {
        assert(a.deep_view() =~= seq![
            "-a"@,
            "-z"@,
            "-e"@,
            "ssh -p "@ + port@,
            public_dir@ + "/"@ + image@ + "/"@,
            user@ + "@"@ + ip@ + ":"@ + image@,
        ]);
    }
    Invocation { program: String::from_str("rsync"), args: a, dir: String::from_str(".") }
}

/// Command `ncat -z <ip> <port>`: the lightweight TCP reachability probe run
/// against a server before any remote action is attempted.
pub fn check_connexion(ip: &str, port: &str) -> (inv: Invocation)
    ensures
        inv.program@ == "ncat"@,
        inv.args.deep_view() == seq!["-z"@, ip@, port@],
        inv.dir@ == "."@,
{
    let mut a: Vec<String> = Vec::new();
    a.push(String::from_str("-z"));
    a.push(String::from_str(ip));
    a.push(String::from_str(port));
    proof {
        assert(a.deep_view() =~= seq!["-z"@, ip@, port@]);
    }
    Invocation { program: String::from_str("ncat"), args: a, dir: String::from_str(".") }
}

/// Directory of a locally hosted service under the local services root.
pub fn service_dir(service: &str) -> (r: String)
    ensures
        r@ == "./containers/"@ + service@,
{
    String::from_str("./containers/").concat(service)
}

/// Path of a locally hosted service's deployment descriptor file.
pub fn service_descriptor(service: &str) -> (r: String)
    ensures
        r@ == "./containers/"@ + service@ + "/compose.yaml"@,
{
    String::from_str("./containers/").concat(service).concat("/compose.yaml")
}

/// The exact argument list of one local reconciliation step.
pub open spec fn local_step_args(step: LocalStep) -> Seq<Seq<char>> {
    match step {
        LocalStep::Down => seq!["compose"@, "down"@],
        LocalStep::Pull => seq!["compose"@, "pull"@],
        LocalStep::Up => seq!["compose"@, "up"@, "--remove-orphans"@, "-d"@],
    }
}

/// The `docker compose` command of one local reconciliation step, run from
/// the service's own directory.
pub fn local_step_command(step: LocalStep, service: &str) -> (inv: Invocation)
    ensures
        inv.program@ == "docker"@,
        inv.args.deep_view() == local_step_args(step),
        inv.dir@ == "./containers/"@ + service@,
{
    let dir = service_dir(service);
    let mut a: Vec<String> = Vec::new();
    a.push(String::from_str("compose"));
    match step {
        LocalStep::Down => {
            a.push(String::from_str("down"));
            proof {
                assert(a.deep_view() =~= local_step_args(step));
            }
        },
        LocalStep::Pull => {
            a.push(String::from_str("pull"));
            proof {
                assert(a.deep_view() =~= local_step_args(step));
            }
        },
        LocalStep::Up => {
            a.push(String::from_str("up"));
            a.push(String::from_str("--remove-orphans"));
            a.push(String::from_str("-d"));
            proof {
                assert(a.deep_view() =~= local_step_args(step));
            }
        },
    }
    Invocation { program: String::from_str("docker"), args: a, dir }
}

/// The exact argument list that runs one remote lifecycle step of `image`
/// through the remote shell (the upload step has its own command shape, see
/// [`upload_image`]).
pub open spec fn remote_shell_args(step: RemoteStep, image: Seq<char>) -> Seq<Seq<char>> {
    match step {
        RemoteStep::Upload => Seq::empty(),
        RemoteStep::Stop => seq!["docker"@, "compose"@, "--project-directory"@, image, "down"@],
        RemoteStep::Update => seq!["docker"@, "compose"@, "--project-directory"@, image, "pull"@],
        RemoteStep::Start => seq![
            "docker"@,
            "compose"@,
            "--project-directory"@,
            image,
            "--remove-orphans"@,
            "up"@,
            "-d"@,
        ],
    }
}

/// The command of one remote lifecycle step of a service: an `rsync` upload,
/// or a `docker compose` call through the remote shell.
pub fn remote_step_command(
    step: RemoteStep,
    image: &str,
    user: &str,
    ip: &str,
    port: &str,
    public_dir: &str,
) -> (inv: Invocation)
    ensures
        step is Upload ==> inv.program@ == "rsync"@ && inv.args.deep_view() == seq![
            "-a"@,
            "-z"@,
            "-e"@,
            "ssh -p "@ + port@,
            public_dir@ + "/"@ + image@ + "/"@,
            user@ + "@"@ + ip@ + ":"@ + image@,
        ],
        !(step is Upload) ==> inv.program@ == "ssh"@ && inv.args.deep_view() == remote_shell_args(
            step,
            image@,
        ).insert(0, user@ + "@"@ + ip@),
        inv.dir@ == "."@,
{
    match step {
        RemoteStep::Upload => upload_image(user, ip, image, port, public_dir),
        RemoteStep::Stop => {
            let mut a: Vec<String> = Vec::new();
            a.push(String::from_str("docker"));
            a.push(String::from_str("compose"));
            a.push(String::from_str("--project-directory"));
            a.push(String::from_str(image));
            a.push(String::from_str("down"));
            proof {
                assert(a.deep_view() =~= remote_shell_args(step, image@));
            }
            ssh_run(&a, user, ip)
        },
        RemoteStep::Update => {
            let mut a: Vec<String> = Vec::new();
            a.push(String::from_str("docker"));
            a.push(String::from_str("compose"));
            a.push(String::from_str("--project-directory"));
            a.push(String::from_str(image));
            a.push(String::from_str("pull"));
            proof {
                assert(a.deep_view() =~= remote_shell_args(step, image@));
            }
            ssh_run(&a, user, ip)
        },
        RemoteStep::Start => {
            let mut a: Vec<String> = Vec::new();
            a.push(String::from_str("docker"));
            a.push(String::from_str("compose"));
            a.push(String::from_str("--project-directory"));
            a.push(String::from_str(image));
            a.push(String::from_str("--remove-orphans"));
            a.push(String::from_str("up"));
            a.push(String::from_str("-d"));
            proof {
                assert(a.deep_view() =~= remote_shell_args(step, image@));
            }
            ssh_run(&a, user, ip)
        },
    }
}

/// Command `docker network ls`, listing the configured container networks.
pub fn list_networks() -> (inv: Invocation)
    ensures
        inv.program@ == "docker"@,
        inv.args.deep_view() == seq!["network"@, "ls"@],
        inv.dir@ == "/tmp"@,
{
    let mut a: Vec<String> = Vec::new();
    a.push(String::from_str("ls"));
    let inv = docker("network", &a, "/tmp");
    proof {
        assert(inv.args.deep_view() =~= seq!["network"@, "ls"@]);
    }
    inv
}

/// Command `docker logout`, ending the registry session.
pub fn logout() -> (inv: Invocation)
    ensures
        inv.program@ == "docker"@,
        inv.args.deep_view() == seq!["logout"@],
        inv.dir@ == "/tmp"@,
{
    let a: Vec<String> = Vec::new();
    let inv = docker("logout", &a, "/tmp");
    proof {
        assert(inv.args.deep_view() =~= seq!["logout"@]);
    }
    inv
}

/// Command `docker ps -a`, listing all containers and their status.
pub fn ps() -> (inv: Invocation)
    ensures
        inv.program@ == "docker"@,
        inv.args.deep_view() == seq!["ps"@, "-a"@],
        inv.dir@ == "/tmp"@,
{
    let mut a: Vec<String> = Vec::new();
    a.push(String::from_str("-a"));
    let inv = docker("ps", &a, "/tmp");
    proof {
        assert(inv.args.deep_view() =~= seq!["ps"@, "-a"@]);
    }
    inv
}

/// Command `docker container ls`, listing the running containers.
pub fn list_container() -> (inv: Invocation)
    ensures
        inv.program@ == "docker"@,
        inv.args.deep_view() == seq!["container"@, "ls"@],
        inv.dir@ == "/tmp"@,
{
    let mut a: Vec<String> = Vec::new();
    a.push(String::from_str("ls"));
    let inv = docker("container", &a, "/tmp");
    proof {
        assert(inv.args.deep_view() =~= seq!["container"@, "ls"@]);
    }
    inv
}

/// Command `docker volume ls`, listing the container volumes.
pub fn list_volumes() -> (inv: Invocation)
    ensures
        inv.program@ == "docker"@,
        inv.args.deep_view() == seq!["volume"@, "ls"@],
        inv.dir@ == "/tmp"@,
{
    let mut a: Vec<String> = Vec::new();
    a.push(String::from_str("ls"));
    let inv = docker("volume", &a, "/tmp");
    proof {
        assert(inv.args.deep_view() =~= seq!["volume"@, "ls"@]);
    }
    inv
}

/// Command `docker images`, listing the local images.
pub fn list_images() -> (inv: Invocation)
    ensures
        inv.program@ == "docker"@,
        inv.args.deep_view() == seq!["images"@],
        inv.dir@ == "/tmp"@,
{
    let a: Vec<String> = Vec::new();
    let inv = docker("images", &a, "/tmp");
    proof {
        assert(inv.args.deep_view() =~= seq!["images"@]);
    }
    inv
}

/// Command `ssh <user>@<ip> docker ps`, asking a remote server which
/// containers it runs.
pub fn running(user: &str, ip: &str) -> (inv: Invocation)
    ensures
        inv.program@ == "ssh"@,
        inv.args.deep_view() == seq![user@ + "@"@ + ip@, "docker"@, "ps"@],
        inv.dir@ == "."@,
{
    let mut a: Vec<String> = Vec::new();
    a.push(String::from_str("docker"));
    a.push(String::from_str("ps"));
    let inv = ssh_run(&a, user, ip);
    proof {
        assert(inv.args.deep_view() =~= seq![user@ + "@"@ + ip@, "docker"@, "ps"@]);
    }
    inv
}

/// Whether the status line announcing a deployment speaks of several servers
/// (`true`) or of a single one.
pub fn server_founded(servers: usize) -> (plural: bool)
    ensures
        plural == (servers > 1),
{
    servers > 1
}

} // verus!
