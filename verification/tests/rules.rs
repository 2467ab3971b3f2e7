use lib::rules::{
    can_compile, check_root_selection, check_toolchain, compilation_order, imports, is_lean_source, module_name,
    read_module, sort_by_name, Entry, Library, Module, Scan, Visit,
};

fn components(path: &str) -> Vec<Vec<u8>> {
    path.split('/').map(|c| c.as_bytes().to_vec()).collect()
}

fn module(name: &str, imports: &[&str]) -> Module {
    Module {
        name: name.to_string(),
        relative: components(&format!("{}.lean", name.replace('.', "/"))),
        source: String::new(),
        imports: imports.iter().map(|i| i.to_string()).collect(),
    }
}

#[test]
fn module_names_from_paths() {
    assert_eq!(module_name(&components("NobleContracts/Rules/Arith_1.lean")).ok().unwrap(), "NobleContracts.Rules.Arith_1");
    assert_eq!(module_name(&components("NobleContracts.lean")).ok().unwrap(), "NobleContracts");
    let f = module_name(&components("Noble/a.b.lean")).err().unwrap();
    assert_eq!(f.code, "library-module-name");
    assert_eq!(f.message, "module paths must contain ASCII identifiers");
    let f = module_name(&[vec![0xff], b"A.lean".to_vec()]).err().unwrap();
    assert_eq!(f.message, "non-UTF8 module path");
    assert!(is_lean_source(b"A.lean"));
    assert!(!is_lean_source(b".lean"));
    assert!(!is_lean_source(b"A.olean"));
}

#[test]
fn imports_up_to_comments() {
    let source = "import A.B C -- comment D\n  public import E\nimportX\n-- import F\n\timport G --H\r\n";
    assert_eq!(imports(source), vec!["A.B", "C", "E", "G"]);
    assert_eq!(imports(""), Vec::<String>::new());
    let m = read_module(components("NobleContracts/X.lean"), b"import Y\n").ok().unwrap();
    assert_eq!(m.name, "NobleContracts.X");
    assert_eq!(m.imports, vec!["Y"]);
    assert_eq!(read_module(components("X.lean"), &[0xff]).err().unwrap().code, "library-encoding");
}

#[test]
fn compilation_follows_imports() {
    let library = Library {
        root: "/lib".to_string(),
        modules: vec![module("A", &["B", "External"]), module("B", &["C"]), module("C", &[])],
    };
    assert_eq!(compilation_order(&library), (vec![2, 1, 0], false));
    assert!(can_compile(&library, 2, &[false, false, false]));
    assert!(!can_compile(&library, 0, &[false, false, false]));
    assert!(can_compile(&library, 0, &[false, true, false]));
}

#[test]
fn one_pass_compiles_a_chain_in_order() {
    let library = Library {
        root: "/lib".to_string(),
        modules: vec![module("A", &[]), module("B", &["A"]), module("C", &["B"])],
    };
    assert_eq!(compilation_order(&library), (vec![0, 1, 2], false));
}

#[test]
fn import_cycles_stop_the_build() {
    let library = Library {
        root: "/lib".to_string(),
        modules: vec![module("A", &["B"]), module("B", &["A"]), module("C", &[])],
    };
    assert_eq!(compilation_order(&library), (vec![2], true));
    let empty = Library { root: "/lib".to_string(), modules: vec![] };
    assert_eq!(compilation_order(&empty), (vec![], false));
}

#[test]
fn library_report() {
    let mut m = module("A", &[]);
    m.source = "def x := 1".to_string();
    let library = Library { root: "/lib".to_string(), modules: vec![m] };
    assert_eq!(
        library.json().encode(),
        "{\"root\":\"/lib\",\"toolchain\":\"leanprover/lean4:v4.31.0\",\"identity\":\"exact-source-snapshot; rebuilt without producer caches\",\"sources\":[{\"module\":\"A\",\"source\":\"def x := 1\"}]}"
    );
}

#[test]
fn modules_sort_by_name() {
    let sorted = sort_by_name(vec![module("C", &[]), module("A.B", &[]), module("A", &[]), module("B", &[])]);
    let names: Vec<&str> = sorted.iter().map(|m| m.name.as_str()).collect();
    assert_eq!(names, vec!["A", "A.B", "B", "C"]);
}

#[test]
fn library_walk() {
    let mut scan = Scan::start(true);
    assert_eq!(scan.pending.len(), 2);
    let first = scan.next().ok().unwrap().unwrap();
    assert_eq!(first, vec![b"NobleContracts".to_vec()]);
    let entries = vec![Ok(b"X.lean".to_vec()), Ok(b"notes.txt".to_vec())];
    assert_eq!(scan.visit(&first, Entry::Directory(entries)).ok(), Some(Visit::Skip));
    assert_eq!(scan.pending.len(), 3);
    let next = scan.next().ok().unwrap().unwrap();
    assert_eq!(next, vec![b"NobleContracts".to_vec(), b"notes.txt".to_vec()]);
    assert_eq!(scan.visit(&next, Entry::File).ok(), Some(Visit::Skip));
    let lean = scan.next().ok().unwrap().unwrap();
    assert_eq!(scan.visit(&lean, Entry::File).ok(), Some(Visit::ReadModule(4_194_304)));
    let m = read_module(lean, b"-- x\n").ok().unwrap();
    scan.add(m);
    assert_eq!(scan.bytes, 5);
    assert_eq!(scan.visit(&components("Y.lean"), Entry::File).ok(), Some(Visit::ReadModule(4_194_299)));
    assert_eq!(scan.visit(&components("Y.lean"), Entry::Symlink).err().unwrap().code, "library-symlink");
    assert_eq!(scan.visit(&components("Y.lean"), Entry::Unavailable("p: gone".to_string())).err().unwrap().message, "p: gone");
    assert_eq!(scan.visit(&components("D"), Entry::Directory(vec![Err("denied".to_string())])).err().unwrap().code, "library-read");
    let library = scan.finish("/root".to_string());
    assert_eq!(library.modules.len(), 1);
    assert_eq!(library.modules[0].name, "NobleContracts.X");
}

#[test]
fn the_walk_has_a_path_budget() {
    let mut scan = Scan::start(false);
    scan.visits = 512;
    assert_eq!(scan.next().err().unwrap().message, "library tree exceeds its finite path bound");
    let mut scan = Scan::start(false);
    let root = scan.next().ok().unwrap().unwrap();
    let entries: Vec<Result<Vec<u8>, String>> = (0..600).map(|i| Ok(format!("f{i}").into_bytes())).collect();
    assert_eq!(scan.visit(&root, Entry::Directory(entries)).err().unwrap().code, "library-limit");
}

#[test]
fn library_root_and_toolchain() {
    assert!(check_root_selection("/lib").is_ok());
    assert_eq!(check_root_selection("lib").err().unwrap().message, "NOBLE_CONTRACT_LIBRARY must be absolute");
    assert!(check_toolchain(b"leanprover/lean4:v4.31.0\n").is_ok());
    assert_eq!(check_toolchain(b"leanprover/lean4:v4.30.0").err().unwrap().code, "library-toolchain");
    assert!(check_toolchain(&[0xff]).is_err());
}
