use zeroos_core::act::{env_file_ipc, devcontainers_dirs, ipc_sockets, merge_path_dirs, append_dirs, ActArgs};
use zeroos_core::massage::massage_runs;
use zeroos_core::sh::{plan_script, ShOptions, StreamMode};

fn v(xs: &[&str]) -> Vec<String> {
    xs.iter().map(|x| x.to_string()).collect()
}

#[test]
fn devcontainer_dirs_are_filtered_and_sorted() {
    let names = v(&["devcontainers-b", "other", "devcontainers-a-b", "devcontainers-a", "xdevcontainers-c"]);
    assert_eq!(devcontainers_dirs(&names), v(&["devcontainers-a", "devcontainers-a-b", "devcontainers-b"]));
}

#[test]
fn ipc_sockets_are_filtered_and_sorted() {
    let names = v(&[
        "vscode-remote-containers-ipc-2.sock",
        "vscode-remote-containers-ipc-1.sock",
        "vscode-remote-containers-ipc-3.txt",
        "vscode-remote-containers-ipc-.sock",
        "other.sock",
    ]);
    assert_eq!(
        ipc_sockets(&names),
        v(&["vscode-remote-containers-ipc-.sock", "vscode-remote-containers-ipc-1.sock", "vscode-remote-containers-ipc-2.sock"])
    );
}

#[test]
fn path_dirs_are_appended_once() {
    let existing = v(&["/usr/bin", "/home/u/bin/", "/bin", "/home/u/.local/bin"]);
    let dirs = v(&["/home/u/.local/bin", "/home/u/bin"]);
    assert_eq!(
        merge_path_dirs(&existing, &dirs),
        Some(v(&["/usr/bin", "/bin", "/home/u/.local/bin", "/home/u/bin"]))
    );
    assert_eq!(merge_path_dirs(&existing, &Vec::new()), None);
    assert_eq!(append_dirs(&v(&["a", "b", "c"]), &v(&["d"]), &vec![false, true, false]), v(&["a", "c", "d"]));
}

#[test]
fn massage_runs_each_command_over_selected_packages() {
    let runs = massage_runs(false, &v(&["p", "q"]), true);
    let cmds: Vec<String> = runs.iter().map(|r| r.command.clone().unwrap()).collect();
    assert_eq!(cmds, v(&["fix", "fmt", "check", "test"]));
    for r in &runs {
        assert_eq!(r.packages, v(&["p", "q"]));
        assert!(r.config.is_none());
        assert!(r.verbose);
    }
    assert!(massage_runs(true, &v(&["p"]), false).iter().all(|r| r.packages.is_empty() && !r.verbose));
    assert!(massage_runs(false, &Vec::new(), false).iter().all(|r| r.packages.is_empty()));
}

#[test]
fn scripts_with_shebang_run_from_a_file() {
    let p = plan_script("  \n#!/bin/bash\necho hi");
    assert!(p.as_file);
    assert_eq!(p.text, "#!/bin/bash\necho hi");
    let q = plan_script("  echo hi  ");
    assert!(!q.as_file);
    assert_eq!(q.text, "echo hi  ");
}

#[test]
fn default_shell_options() {
    let o = ShOptions::default();
    assert_eq!(o.stdout, StreamMode::Inherit);
    assert_eq!(o.stderr, StreamMode::Inherit);
    assert!(o.cwd.is_none());
    assert!(!o.quiet);
    assert_eq!(StreamMode::default(), StreamMode::Inherit);
    let a = ActArgs { args: v(&["pull_request"]) };
    assert_eq!(a.args.len(), 1);
}

#[test]
fn repeated_names_are_kept() {
    let names = v(&["devcontainers-b", "devcontainers-a", "devcontainers-b"]);
    assert_eq!(devcontainers_dirs(&names), v(&["devcontainers-a", "devcontainers-b", "devcontainers-b"]));
}

#[test]
fn env_file_names_the_ipc_socket() {
    let text = r#"{"PATH": "/bin", "REMOTE_CONTAINERS_IPC": "/tmp/vscode-remote-containers-ipc-1.sock"}"#;
    assert_eq!(env_file_ipc(text), Some("/tmp/vscode-remote-containers-ipc-1.sock".to_string()));
    assert_eq!(env_file_ipc(r#"{"REMOTE_CONTAINERS_IPC": 5}"#), None);
    assert_eq!(env_file_ipc(r#"{"OTHER": "x"}"#), None);
    assert_eq!(env_file_ipc(r#"["REMOTE_CONTAINERS_IPC"]"#), None);
    assert_eq!(env_file_ipc("not json"), None);
}
