use clouddesk::code::{
    code_command, extra_env, extra_mounts, mount_target, resolve_workspace, run_as, AssignedRoot,
    CodeIdentityMarker,
};

fn marker(open: Option<&str>, rw: bool) -> CodeIdentityMarker {
    CodeIdentityMarker {
        uid: 1000,
        gid: 1000,
        home: "/home/alice".into(),
        workspace_id: Some("root-1".into()),
        workspace_path: "/srv/projects".into(),
        workspace_read_write: rw,
        open_relative_file: open.map(str::to_owned),
    }
}

#[test]
fn workspace_mount_keeps_its_granted_access() {
    assert_eq!(mount_target(true), "/workspace");
    assert_eq!(mount_target(false), "/workspace:ro");
    let m = marker(None, false);
    let mounts = extra_mounts(Some(&m));
    assert_eq!(mounts[0], ("/home/alice".to_string(), "/home/alice".to_string()));
    assert_eq!(mounts[1], ("/srv/projects".to_string(), "/workspace:ro".to_string()));
    assert!(extra_mounts(None).is_empty());
    assert_eq!(run_as(Some(&m)), Some((1000, 1000)));
    assert_eq!(extra_env(Some(&m)), vec![("HOME".to_string(), "/home/alice".to_string())]);
}

#[test]
fn command_opens_the_workspace_and_the_deep_linked_file() {
    let args = code_command("abc", Some(&marker(Some("src/main.rs"), true)));
    assert_eq!(args.len(), 11);
    assert_eq!(args[8], "/api/v1/runtime-instances/code/abc/proxy");
    assert_eq!(args[9], "/workspace");
    assert_eq!(args[10], "/workspace/src/main.rs");
    assert!(args.contains(&"--disable-proxy".to_string()));
    assert_eq!(code_command("abc", None).len(), 10);
}

#[test]
fn workspace_choice_prefers_request_then_last_then_home() {
    let root = AssignedRoot { id: "r1".into(), path: "/srv/r1".into(), read_write: false };
    let w = resolve_workspace::<String>("/home/a", Some(Ok(root.clone())), None).unwrap();
    assert_eq!((w.workspace_id.as_deref(), w.path.as_str(), w.read_write), (Some("r1"), "/srv/r1", false));
    assert_eq!(resolve_workspace::<String>("/home/a", Some(Err("gone".into())), Some(root.clone())).unwrap_err(), "gone");
    let w = resolve_workspace::<String>("/home/a", None, Some(root)).unwrap();
    assert_eq!(w.path, "/srv/r1");
    let w = resolve_workspace::<String>("/home/a", None, None).unwrap();
    assert_eq!((w.workspace_id, w.path.as_str(), w.read_write), (None, "/home/a", true));
}
