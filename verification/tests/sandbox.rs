use lib::sandbox::{
    closure_roots, default_roots, installation, installation_root, is_store_entry, path_segments, resolved_executable,
    select_executable, location_holds, roots_cover, Discovered, Environment, LeanLocated, Located, Mount, Observations, Probe,
    Tool, Transcript, MEMORY_LIMIT,
};

fn environment() -> Environment {
    Environment {
        lean: "/opt/lean/bin/lean".to_string(),
        bwrap: "/usr/bin/bwrap".to_string(),
        prlimit: "/usr/bin/prlimit".to_string(),
        systemd_run: "/usr/bin/systemd-run".to_string(),
        lean_root: "/opt/lean".to_string(),
        runtime_directory: "/run/user/1000".to_string(),
        runtime_roots: vec!["/opt/lean".to_string(), "/lib".to_string()],
    }
}

fn observations() -> Observations {
    Observations {
        linux: true,
        bwrap: None,
        prlimit: None,
        systemd_run: None,
        runtime: None,
        installation: None,
        roots: None,
    }
}

#[test]
fn tool_selection() {
    assert_eq!(select_executable(Tool::Bwrap, &[false, true, true], None).ok().unwrap(), "/usr/bin/bwrap");
    assert_eq!(select_executable(Tool::Lean, &[false, false, false], None).ok().unwrap(), "/nonexistent/noble-required-tool");
    assert_eq!(select_executable(Tool::Prlimit, &[true, true, true], Some("/x/prlimit".to_string())).ok().unwrap(), "/x/prlimit");
    let f = select_executable(Tool::SystemdRun, &[true, true, true], Some("relative".to_string())).err().unwrap();
    assert_eq!(f.code, "consumer-configuration");
    assert_eq!(f.message, "NOBLE_SYSTEMD_RUN must select an absolute executable path");
    assert_eq!(Tool::NixStore.key(), "NOBLE_NIX_STORE");
    assert_eq!(Tool::Lean.candidates(), vec!["/run/current-system/sw/bin/lean", "/usr/local/bin/lean", "/usr/bin/lean"]);
}

#[test]
fn tool_resolution() {
    let f = resolved_executable(Tool::Bwrap, "/usr/bin/bwrap", Err("No such file".to_string())).err().unwrap();
    assert_eq!(f.code, "missing-tool");
    assert_eq!(f.message, "cannot resolve NOBLE_BWRAP at /usr/bin/bwrap: No such file");
    let f = resolved_executable(Tool::Bwrap, "/usr/bin", Ok(("/usr/bin".to_string(), false))).err().unwrap();
    assert_eq!(f.message, "NOBLE_BWRAP does not identify an executable file");
    assert_eq!(resolved_executable(Tool::Bwrap, "/b", Ok(("/real/b".to_string(), true))).ok().unwrap(), "/real/b");
}

#[test]
fn paths_and_store_entries() {
    let parts = path_segments(&"/nix//store/./abc/".chars().collect::<Vec<char>>());
    assert_eq!(parts, vec![vec!['n', 'i', 'x'], vec!['s', 't', 'o', 'r', 'e'], vec!['a', 'b', 'c']]);
    assert!(is_store_entry("/nix/store/abc-lean"));
    assert!(is_store_entry("/nix//store/abc/"));
    assert!(!is_store_entry("/nix/store"));
    assert!(!is_store_entry("nix/store/abc"));
    assert!(!is_store_entry("/nix/store/abc/bin"));
    assert_eq!(installation_root("/opt/lean/bin/lean").ok().unwrap(), "/opt/lean");
    assert_eq!(installation_root("/bin/lean").ok().unwrap(), "/");
    assert_eq!(installation_root("/lean").err().unwrap().code, "toolchain-layout");
    assert!(installation("l".to_string(), "r".to_string(), true).is_ok());
    assert_eq!(installation("l".to_string(), "r".to_string(), false).err().unwrap().message, "selected Lean installation has no lib/lean/Init.olean");
}

#[test]
fn runtime_roots() {
    assert_eq!(default_roots("/opt/lean".to_string(), &[true, false, true]), vec!["/opt/lean", "/usr/lib", "/lib64"]);
    let stdout = "/nix/store/a\n/nix/store/lean\n";
    let roots = closure_roots("/nix/store/lean", true, "", stdout, &[true, true]).ok().unwrap();
    assert_eq!(roots, vec!["/nix/store/a", "/nix/store/lean"]);
    let f = closure_roots("/nix/store/lean", false, "boom", "", &[]).err().unwrap();
    assert_eq!(f.message, "cannot resolve the selected Lean Nix closure: boom");
    let f = closure_roots("/nix/store/lean", true, "", stdout, &[true, false]).err().unwrap();
    assert_eq!(f.message, "invalid or oversized Lean runtime closure");
    let f = closure_roots("/nix/store/lean", true, "", "/nix/store/a\n", &[true]).err().unwrap();
    assert_eq!(f.message, "Lean installation is absent from its runtime closure");
    let many: String = (0..129).map(|i| format!("/nix/store/p{i}\n")).collect();
    let f = closure_roots("/nix/store/p0", true, "", &many, &[true; 129]).err().unwrap();
    assert_eq!(f.code, "runtime-closure-invalid");
}

fn found(path: &str) -> Option<Result<Located, lib::outcome::Failure>> {
    Some(Ok(Located { selected: path.to_string(), canonical: Ok((path.to_string(), true)) }))
}

fn lean_at(path: &str, has_init: bool) -> Option<Result<LeanLocated, lib::outcome::Failure>> {
    Some(Ok(LeanLocated { tool: Located { selected: path.to_string(), canonical: Ok((path.to_string(), true)) }, has_init }))
}

fn tools_found() -> Observations {
    let mut o = observations();
    o.bwrap = found("/b");
    o.prlimit = found("/p");
    o.systemd_run = found("/s");
    o.runtime = Some(("/run/user/1".to_string(), true));
    o
}

#[test]
fn discovery_asks_in_order_and_stops_at_failures() {
    let mut o = observations();
    o.linux = false;
    let f = Environment::discover(o).err().unwrap();
    assert_eq!(f.code, "sandbox-unavailable");
    assert_eq!(f.message, "MC1 source verification requires the Linux bubblewrap sandbox");
    assert!(matches!(Environment::discover(observations()), Ok(Discovered::Probe(Probe::Tool(Tool::Bwrap)))));
    let mut o = observations();
    o.bwrap = found("/b");
    assert!(matches!(Environment::discover(o), Ok(Discovered::Probe(Probe::Tool(Tool::Prlimit)))));
    let mut o = observations();
    o.bwrap = Some(Ok(Located { selected: "/usr/bin/bwrap".to_string(), canonical: Err("No such file".to_string()) }));
    let f = Environment::discover(o).err().unwrap();
    assert_eq!(f.code, "missing-tool");
    assert_eq!(f.message, "cannot resolve NOBLE_BWRAP at /usr/bin/bwrap: No such file");
    let mut o = observations();
    o.bwrap = found("/b");
    o.prlimit = Some(Ok(Located { selected: "/p".to_string(), canonical: Ok(("/p".to_string(), false)) }));
    assert_eq!(Environment::discover(o).err().unwrap().message, "NOBLE_PRLIMIT does not identify an executable file");
    let mut o = tools_found();
    o.runtime = Some(("/run/user/1".to_string(), false));
    assert_eq!(Environment::discover(o).err().unwrap().message, "an active user systemd manager is required for aggregate proof-worker limits");
    assert!(matches!(Environment::discover(tools_found()), Ok(Discovered::Probe(Probe::Installation))));
    let mut o = tools_found();
    o.installation = lean_at("/lean", true);
    let f = Environment::discover(o).err().unwrap();
    assert_eq!(f.code, "toolchain-layout");
    assert_eq!(f.message, "Lean must be selected from its release bin directory");
    let mut o = tools_found();
    o.installation = lean_at("/opt/lean/bin/lean", false);
    assert_eq!(Environment::discover(o).err().unwrap().message, "selected Lean installation has no lib/lean/Init.olean");
    let mut o = tools_found();
    o.installation = lean_at("/nix/store/x/bin/lean", true);
    assert!(matches!(Environment::discover(o), Ok(Discovered::Probe(Probe::StoreClosure))));
    let mut o = tools_found();
    o.installation = lean_at("/opt/lean/bin/lean", true);
    assert!(matches!(Environment::discover(o), Ok(Discovered::Probe(Probe::PublicRoots))));
    let mut o = tools_found();
    o.installation = lean_at("/opt/lean/bin/lean", true);
    o.roots = Some(Ok(vec!["/opt/lean".to_string(), "/lib".to_string()]));
    match Environment::discover(o) {
        Ok(Discovered::Ready(e)) => {
            assert_eq!(e.bwrap, "/b");
            assert_eq!(e.lean, "/opt/lean/bin/lean");
            assert_eq!(e.lean_root, "/opt/lean");
            assert_eq!(e.runtime_directory, "/run/user/1");
            assert_eq!(e.runtime_roots, vec!["/opt/lean".to_string(), "/lib".to_string()]);
        }
        _ => panic!("expected a ready environment"),
    }
}

#[test]
fn discovery_observations_checked() {
    assert!(location_holds(&Located { selected: "/b".to_string(), canonical: Ok(("/real/b".to_string(), true)) }));
    assert!(location_holds(&Located { selected: "/b".to_string(), canonical: Err("gone".to_string()) }));
    assert!(!location_holds(&Located { selected: "b".to_string(), canonical: Err("gone".to_string()) }));
    assert!(!location_holds(&Located { selected: "/b".to_string(), canonical: Ok(("real/b".to_string(), true)) }));
    assert!(roots_cover(&vec!["/lib".to_string(), "/opt//lean/".to_string()], "/opt/lean"));
    assert!(!roots_cover(&vec!["/lib".to_string()], "/opt/lean"));
    let many: Vec<String> = (0..129).map(|_| "/opt/lean".to_string()).collect();
    assert!(!roots_cover(&many, "/opt/lean"));
}

#[test]
fn sandboxed_command_line() {
    let e = environment();
    assert_eq!(e.run(&[], "", &[], 0, 0).err().unwrap().message, "consumer wall-clock budget exhausted");
    let mounts = vec![
        Mount { host: "/h/in".to_string(), guest: "/inputs".to_string(), writable: false },
        Mount { host: "/h/out".to_string(), guest: "/out/x".to_string(), writable: true },
    ];
    let launch = e.run(&mounts, "/library", &["--version".to_string()], 4, 500).ok().unwrap();
    assert_eq!(launch.program, "/usr/bin/systemd-run");
    assert_eq!(launch.environment, vec![("XDG_RUNTIME_DIR".to_string(), "/run/user/1000".to_string())]);
    let a = launch.arguments;
    assert_eq!(&a[..5], &["--user", "--scope", "--quiet", "--collect", "-p"]);
    assert_eq!(a[5], format!("MemoryMax={MEMORY_LIMIT}"));
    assert_eq!(a[11], "/usr/bin/prlimit");
    assert_eq!(a[12], "--fsize=33554432:33554432");
    assert_eq!(a[15], "--cpu=5:6");
    assert_eq!(a[17], "/usr/bin/bwrap");
    assert_eq!(a[18], "--unshare-all");
    assert_eq!(a[62], "LEAN_PATH");
    assert_eq!(&a[63..70], &["/library", "--setenv", "LEAN_SYSROOT", "/opt/lean", "--setenv", "NOBLE_LEAN_EXECUTABLE", "/opt/lean/bin/lean"]);
    assert_eq!(&a[70..76], &["--ro-bind", "/opt/lean", "/opt/lean", "--ro-bind", "/lib", "/lib"]);
    assert_eq!(&a[76..82], &["--ro-bind", "/h/in", "/inputs", "--bind", "/h/out", "/out/x"]);
    assert_eq!(&a[82..], &["--remount-ro", "/", "--", "/opt/lean/bin/lean", "--version"]);
    let saturated = e.run(&[], "", &[], u64::MAX, 0).ok().unwrap();
    assert_eq!(saturated.arguments[15], format!("--cpu={}:{}", u64::MAX, u64::MAX));
    let _ = Transcript { succeeded: true, signal: None, status: String::new(), stdout: String::new(), stderr: String::new() };
}
