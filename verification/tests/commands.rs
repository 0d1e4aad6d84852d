use docks::command::{
    check_connexion, docker, list_container, list_images, list_networks, list_volumes,
    local_step_command, logout, ps, remote_step_command, running, server_founded, service_descriptor,
    service_dir, ssh_run, upload_image, Invocation, PROBE_SETTLE_SECS,
};
use docks::outcome::{LocalStep, RemoteStep};

fn svec(xs: &[&str]) -> Vec<String> {
    xs.iter().map(|x| x.to_string()).collect()
}

fn assert_inv(inv: &Invocation, program: &str, args: &[&str], dir: &str) {
    assert_eq!(inv.program, program);
    assert_eq!(inv.args, svec(args));
    assert_eq!(inv.dir, dir);
}

#[test]
fn docker_builds_verb_then_args() {
    let inv = docker("stop", &svec(&["nginx"]), "/tmp");
    assert_inv(&inv, "docker", &["stop", "nginx"], "/tmp");
}

#[test]
fn docker_with_no_args() {
    let inv = docker("images", &svec(&[]), "/tmp");
    assert_inv(&inv, "docker", &["images"], "/tmp");
}

#[test]
fn ssh_run_prepends_target() {
    let inv = ssh_run(&svec(&["docker", "ps"]), "root", "10.0.0.7");
    assert_inv(&inv, "ssh", &["root@10.0.0.7", "docker", "ps"], ".");
}

#[test]
fn upload_image_is_archive_compressed_over_ssh_port() {
    let inv = upload_image("root", "10.0.0.7", "api", "2222", "/srv/public");
    assert_inv(
        &inv,
        "rsync",
        &["-a", "-z", "-e", "ssh -p 2222", "/srv/public/api/", "root@10.0.0.7:api"],
        ".",
    );
}

#[test]
fn check_connexion_is_a_zero_io_ncat_probe() {
    let inv = check_connexion("10.0.0.7", "22");
    assert_inv(&inv, "ncat", &["-z", "10.0.0.7", "22"], ".");
}

#[test]
fn probe_settle_delay_is_one_second() {
    assert_eq!(PROBE_SETTLE_SECS, 1);
}

#[test]
fn local_step_commands_run_compose_in_service_dir() {
    let down = local_step_command(LocalStep::Down, "db");
    assert_inv(&down, "docker", &["compose", "down"], "./containers/db");
    let pull = local_step_command(LocalStep::Pull, "db");
    assert_inv(&pull, "docker", &["compose", "pull"], "./containers/db");
    let up = local_step_command(LocalStep::Up, "db");
    assert_inv(&up, "docker", &["compose", "up", "--remove-orphans", "-d"], "./containers/db");
}

#[test]
fn service_paths() {
    assert_eq!(service_dir("db"), "./containers/db");
    assert_eq!(service_descriptor("db"), "./containers/db/compose.yaml");
}

#[test]
fn remote_step_commands() {
    let upload = remote_step_command(RemoteStep::Upload, "api", "root", "10.0.0.7", "22", "/srv");
    assert_inv(
        &upload,
        "rsync",
        &["-a", "-z", "-e", "ssh -p 22", "/srv/api/", "root@10.0.0.7:api"],
        ".",
    );
    let stop = remote_step_command(RemoteStep::Stop, "api", "root", "10.0.0.7", "22", "/srv");
    assert_inv(
        &stop,
        "ssh",
        &["root@10.0.0.7", "docker", "compose", "--project-directory", "api", "down"],
        ".",
    );
    let update = remote_step_command(RemoteStep::Update, "api", "root", "10.0.0.7", "22", "/srv");
    assert_inv(
        &update,
        "ssh",
        &["root@10.0.0.7", "docker", "compose", "--project-directory", "api", "pull"],
        ".",
    );
    let start = remote_step_command(RemoteStep::Start, "api", "root", "10.0.0.7", "22", "/srv");
    assert_inv(
        &start,
        "ssh",
        &[
            "root@10.0.0.7",
            "docker",
            "compose",
            "--project-directory",
            "api",
            "--remove-orphans",
            "up",
            "-d",
        ],
        ".",
    );
}

#[test]
fn listing_commands() {
    assert_inv(&list_networks(), "docker", &["network", "ls"], "/tmp");
    assert_inv(&logout(), "docker", &["logout"], "/tmp");
    assert_inv(&ps(), "docker", &["ps", "-a"], "/tmp");
    assert_inv(&list_container(), "docker", &["container", "ls"], "/tmp");
    assert_inv(&list_volumes(), "docker", &["volume", "ls"], "/tmp");
    assert_inv(&list_images(), "docker", &["images"], "/tmp");
}

#[test]
fn running_asks_remote_docker_ps() {
    let inv = running("admin", "192.168.1.2");
    assert_inv(&inv, "ssh", &["admin@192.168.1.2", "docker", "ps"], ".");
}

#[test]
fn server_founded_pluralizes_above_one() {
    assert!(!server_founded(0));
    assert!(!server_founded(1));
    assert!(server_founded(2));
    assert!(server_founded(17));
}
