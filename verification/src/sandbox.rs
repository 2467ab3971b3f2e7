//! The sandbox boundary: the tools it needs and the order in which they are
//! found, the runtime roots it exposes, and the exact command line of one
//! sandboxed Lean run. Probing the host and spawning processes is left to the
//! caller; every decision about what was observed is made here.

use vstd::prelude::*;

use crate::json::{append_decimal, decimal};
use crate::outcome::{Failure, Outcome};
use crate::text::{chars_equal, chars_of, lines, lines_spec, owned, push_char, push_text, string_of};

verus! {

pub const PIN: &'static str = "leanprover/lean4:v4.31.0";
pub const COMMIT: &'static str = "68218e876d2a38b1985b8590fff244a83c321783";
pub const OUTPUT_LIMIT: usize = 131_072;
pub const ARTIFACT_LIMIT: u64 = 33_554_432;
pub const MEMORY_LIMIT: u64 = 2_147_483_648;

/// A host path exposed inside the sandbox at `guest`.
pub struct Mount {
    pub host: String,
    pub guest: String,
    pub writable: bool,
}

/// The resolved tools and runtime roots of one sandbox installation.
pub struct Environment {
    pub lean: String,
    pub bwrap: String,
    pub prlimit: String,
    pub systemd_run: String,
    pub lean_root: String,
    pub runtime_directory: String,
    pub runtime_roots: Vec<String>,
}

/// What a finished sandboxed process left: whether it exited successfully,
/// the signal that ended it (if any), its exit status as text, and its output.
pub struct Transcript {
    pub succeeded: bool,
    pub signal: Option<i32>,
    pub status: String,
    pub stdout: String,
    pub stderr: String,
}

/// A host executable the sandbox depends on.
#[derive(Clone, Copy, PartialEq, Eq, Structural, Debug)]
pub enum Tool {
    Bwrap,
    Prlimit,
    SystemdRun,
    Lean,
    NixStore,
}

/// A failure with the given outcome, code and message.
pub open spec fn failed(f: Failure, outcome: Outcome, code: Seq<char>, message: Seq<char>) -> bool {
    &&& f.outcome == outcome
    &&& f.code@ == code
    &&& f.message@ == message
    &&& f.details is Null
}

impl Tool {
    /// The environment variable that overrides the tool's location.
    pub open spec fn spec_key(self) -> Seq<char> {
        match self {
            Tool::Bwrap => "NOBLE_BWRAP"@,
            Tool::Prlimit => "NOBLE_PRLIMIT"@,
            Tool::SystemdRun => "NOBLE_SYSTEMD_RUN"@,
            Tool::Lean => "NOBLE_LEAN"@,
            Tool::NixStore => "NOBLE_NIX_STORE"@,
        }
    }

    /// The conventional locations searched, in order.
    pub open spec fn spec_candidates(self) -> Seq<Seq<char>> {
        match self {
            Tool::Bwrap => seq!["/run/current-system/sw/bin/bwrap"@, "/usr/bin/bwrap"@, "/bin/bwrap"@],
            Tool::Prlimit => seq!["/run/current-system/sw/bin/prlimit"@, "/usr/bin/prlimit"@, "/bin/prlimit"@],
            Tool::SystemdRun => seq![
                "/run/current-system/sw/bin/systemd-run"@,
                "/usr/bin/systemd-run"@,
                "/bin/systemd-run"@,
            ],
            Tool::Lean => seq!["/run/current-system/sw/bin/lean"@, "/usr/local/bin/lean"@, "/usr/bin/lean"@],
            Tool::NixStore => seq![
                "/run/current-system/sw/bin/nix-store"@,
                "/nix/var/nix/profiles/default/bin/nix-store"@,
                "/usr/bin/nix-store"@,
            ],
        }
    }

    pub fn key(self) -> (r: &'static str)
        ensures
            r@ == self.spec_key(),
    {
        match self {
            Tool::Bwrap => "NOBLE_BWRAP",
            Tool::Prlimit => "NOBLE_PRLIMIT",
            Tool::SystemdRun => "NOBLE_SYSTEMD_RUN",
            Tool::Lean => "NOBLE_LEAN",
            Tool::NixStore => "NOBLE_NIX_STORE",
        }
    }

    pub fn candidates(self) -> (r: Vec<&'static str>)
        ensures
            r@.len() == self.spec_candidates().len(),
            forall|i: int| 0 <= i < r@.len() ==> (#[trigger] r@[i])@ == self.spec_candidates()[i],
    {
        match self {
            Tool::Bwrap => vec!["/run/current-system/sw/bin/bwrap", "/usr/bin/bwrap", "/bin/bwrap"],
            Tool::Prlimit => vec!["/run/current-system/sw/bin/prlimit", "/usr/bin/prlimit", "/bin/prlimit"],
            Tool::SystemdRun => vec![
                "/run/current-system/sw/bin/systemd-run",
                "/usr/bin/systemd-run",
                "/bin/systemd-run",
            ],
            Tool::Lean => vec!["/run/current-system/sw/bin/lean", "/usr/local/bin/lean", "/usr/bin/lean"],
            Tool::NixStore => vec![
                "/run/current-system/sw/bin/nix-store",
                "/nix/var/nix/profiles/default/bin/nix-store",
                "/usr/bin/nix-store",
            ],
        }
    }
}

/// The path placed where no candidate exists and no override is set.
pub open spec fn missing_tool_path() -> Seq<char> {
    "/nonexistent/noble-required-tool"@
}

/// The first candidate marked present, if any.
pub open spec fn first_present(candidates: Seq<Seq<char>>, present: Seq<bool>, i: int) -> Option<Seq<char>>
    decreases candidates.len() - i,
{
    if i < 0 || i >= candidates.len() || i >= present.len() {
        None
    } else if present[i] {
        Some(candidates[i])
    } else {
        first_present(candidates, present, i + 1)
    }
}

/// The path a tool lookup selects: the override, else the first present
/// candidate, else a path that names nothing.
pub open spec fn selected_path(tool: Tool, present: Seq<bool>, configured: Option<Seq<char>>) -> Seq<char> {
    match configured {
        Some(p) => p,
        None => match first_present(tool.spec_candidates(), present, 0) {
            Some(p) => p,
            None => missing_tool_path(),
        },
    }
}

/// The characters of an optional override.
pub open spec fn override_view(configured: Option<String>) -> Option<Seq<char>> {
    match configured {
        Some(c) => Some(c@),
        None => None,
    }
}

/// Whether a path is absolute (begins at the root).
pub open spec fn absolute(p: Seq<char>) -> bool {
    p.len() > 0 && p[0] == '/'
}

/// Selects the path of `tool`: `present[i]` says whether its `i`-th
/// conventional location holds a file, `configured` is the override from the
/// environment. A relative selection is refused.
pub fn select_executable(tool: Tool, present: &[bool], configured: Option<String>) -> (r: Result<String, Failure>)
    ensures
        absolute(selected_path(tool, present@, override_view(configured))) ==> (r matches Ok(p)
            && p@ == selected_path(tool, present@, override_view(configured))),
        !absolute(selected_path(tool, present@, override_view(configured))) ==> (r matches Err(f)
            && failed(f, Outcome::Unsupported, "consumer-configuration"@,
                tool.spec_key() + " must select an absolute executable path"@)),
{
    let candidates = tool.candidates();
    let selected = match configured {
        Some(path) => path,
        None => {
            let mut i: usize = 0;
            let mut found: Option<&'static str> = None;
            while i < candidates.len() && i < present.len() && found.is_none()
                invariant
                    candidates@.len() == tool.spec_candidates().len(),
                    forall|k: int| 0 <= k < candidates@.len() ==> (#[trigger] candidates@[k])@ == tool.spec_candidates()[k],
                    i <= candidates@.len(),
                    found matches Some(p) ==> first_present(tool.spec_candidates(), present@, 0) == Some(p@),
                    found is None ==> first_present(tool.spec_candidates(), present@, 0)
                        == first_present(tool.spec_candidates(), present@, i as int),
                decreases candidates@.len() - i,
            {
                if present[i] {
                    found = Some(candidates[i]);
                }
                i = i + 1;
            }
            match found {
                Some(p) => owned(p),
                None => owned("/nonexistent/noble-required-tool"),
            }
        },
    };
    let spelled = chars_of(selected.as_str());
    let absolute_path = spelled.len() > 0 && spelled[0] == '/';
    if !absolute_path {
        let mut message = owned(tool.key());
        push_text(&mut message, " must select an absolute executable path");
        return Err(Failure::unsupported("consumer-configuration", message));
    }
    Ok(selected)
}

/// The characters of a list of strings.
pub open spec fn views(v: Seq<String>) -> Seq<Seq<char>> {
    v.map_values(|s: String| s@)
}

/// Checks the canonical form of a selected tool: `canonical` is the resolved
/// path and whether it names a file, or the reason it could not be resolved.
pub fn resolved_executable(tool: Tool, selected: &str, canonical: Result<(String, bool), String>) -> (r: Result<String, Failure>)
    ensures
        canonical matches Err(e) ==> (r matches Err(f) && failed(f, Outcome::Unsupported, "missing-tool"@,
            "cannot resolve "@ + tool.spec_key() + " at "@ + selected@ + ": "@ + e@)),
        canonical matches Ok((p, false)) ==> (r matches Err(f) && failed(f, Outcome::Unsupported, "missing-tool"@,
            tool.spec_key() + " does not identify an executable file"@)),
        canonical matches Ok((p, true)) ==> r == Ok::<String, Failure>(p),
{
    match canonical {
        Err(e) => {
            let mut message = owned("cannot resolve ");
            push_text(&mut message, tool.key());
            push_text(&mut message, " at ");
            push_text(&mut message, selected);
            push_text(&mut message, ": ");
            push_text(&mut message, e.as_str());
            Err(Failure::unsupported("missing-tool", message))
        },
        Ok((path, is_file)) => {
            if !is_file {
                let mut message = owned(tool.key());
                push_text(&mut message, " does not identify an executable file");
                Err(Failure::unsupported("missing-tool", message))
            } else {
                Ok(path)
            }
        },
    }
}

/// The first `/` at or after `from`, or the length when there is none.
pub open spec fn next_slash(p: Seq<char>, from: int) -> int
    decreases p.len() - from,
{
    if from >= p.len() || from < 0 {
        p.len() as int
    } else if p[from] == '/' {
        from
    } else {
        next_slash(p, from + 1)
    }
}

pub proof fn lemma_next_slash(p: Seq<char>, from: int)
    requires
        0 <= from <= p.len(),
    ensures
        from <= next_slash(p, from) <= p.len(),
        next_slash(p, from) < p.len() ==> p[next_slash(p, from)] == '/',
        forall|i: int| from <= i < next_slash(p, from) ==> p[i] != '/',
    decreases p.len() - from,
{
    if from < p.len() && p[from] != '/' {
        lemma_next_slash(p, from + 1);
    }
}

/// The named components of a path from position `from`: the pieces between
/// slashes, without empty pieces and without `.`.
pub open spec fn segments_from(p: Seq<char>, from: int) -> Seq<Seq<char>>
    decreases p.len() - from,
{
    if from < 0 || from >= p.len() {
        Seq::empty()
    } else {
        let end = next_slash(p, from);
        proof {
            lemma_next_slash(p, from);
        }
        let piece = p.subrange(from, end);
        let rest = if end < p.len() {
            segments_from(p, end + 1)
        } else {
            Seq::empty()
        };
        if piece.len() == 0 || piece == "."@ {
            rest
        } else {
            seq![piece] + rest
        }
    }
}

/// The named components of a path.
pub open spec fn segments(p: Seq<char>) -> Seq<Seq<char>> {
    segments_from(p, 0)
}

/// Two paths, the second absolute, name the same location component by
/// component (`Path` equality).
pub open spec fn same_path(a: Seq<char>, b: Seq<char>) -> bool {
    absolute(a) && segments(a) == segments(b)
}

/// A path whose parent is the Nix store directory.
pub open spec fn store_entry(p: Seq<char>) -> bool {
    &&& absolute(p)
    &&& segments(p).len() == 3
    &&& segments(p)[0] == "nix"@
    &&& segments(p)[1] == "store"@
}

/// The named components of a path.
pub fn path_segments(p: &[char]) -> (r: Vec<Vec<char>>)
    ensures
        r@.len() == segments(p@).len(),
        forall|i: int| 0 <= i < r@.len() ==> (#[trigger] r@[i])@ == segments(p@)[i],
{
    let mut r: Vec<Vec<char>> = Vec::new();
    let n = p.len();
    let mut from: usize = 0;
    while from < n
        invariant
            n == p@.len(),
            from <= n,
            segments(p@) =~= r@.map_values(|s: Vec<char>| s@) + segments_from(p@, from as int),
        decreases n - from,
    {
        proof {
            lemma_next_slash(p@, from as int);
        }
        let mut end = from;
        let mut piece: Vec<char> = Vec::new();
        while end < n && p[end] != '/'
            invariant
                n == p@.len(),
                from <= end <= n,
                next_slash(p@, end as int) == next_slash(p@, from as int),
                piece@ == p@.subrange(from as int, end as int),
            decreases n - end,
        {
            piece.push(p[end]);
            assert(piece@ =~= p@.subrange(from as int, end + 1));
            end = end + 1;
        }
        let ghost before = r@;
        let dot = piece.len() == 1 && piece[0] == '.';
        proof {
            assert(dot == (piece@ == "."@)) by {
                reveal_strlit(".");
                if piece@ == "."@ {
                    assert(piece@[0] == '.');
                }
                if dot {
                    assert(piece@ =~= "."@);
                }
            }
        }
        if piece.len() > 0 && !dot {
            r.push(piece);
            proof {
                assert(r@.map_values(|s: Vec<char>| s@) =~= before.map_values(|s: Vec<char>| s@).push(p@.subrange(from as int, end as int)));
            }
        }
        if end < n {
            from = end + 1;
        } else {
            from = n;
        }
    }
    proof {
        assert(r@.map_values(|s: Vec<char>| s@).len() == r@.len());
        assert forall|i: int| 0 <= i < r@.len() implies (#[trigger] r@[i])@ == segments(p@)[i] by {
            assert(r@.map_values(|s: Vec<char>| s@)[i] == r@[i]@);
        }
    }
    r
}

/// Whether `p` names an entry directly under the Nix store.
pub fn is_store_entry(p: &str) -> (r: bool)
    ensures
        r == store_entry(p@),
{
    let spelled = chars_of(p);
    let parts = path_segments(spelled.as_slice());
    if spelled.len() == 0 || spelled[0] != '/' || parts.len() != 3 {
        return false;
    }
    let nix = chars_of("nix");
    let store = chars_of("store");
    chars_equal(parts[0].as_slice(), nix.as_slice()) && chars_equal(parts[1].as_slice(), store.as_slice())
}

/// Whether the absolute path `b` (as components) and `a` name the same location.
fn same_location(a: &[char], b: &Vec<Vec<char>>) -> (r: bool)
    ensures
        r == (absolute(a@) && segments(a@) == b@.map_values(|s: Vec<char>| s@)),
{
    if a.len() == 0 || a[0] != '/' {
        return false;
    }
    let parts = path_segments(a);
    if parts.len() != b.len() {
        proof {
            assert(b@.map_values(|s: Vec<char>| s@).len() == b@.len());
        }
        return false;
    }
    let mut i: usize = 0;
    while i < parts.len()
        invariant
            parts@.len() == b@.len() == segments(a@).len(),
            forall|k: int| 0 <= k < parts@.len() ==> (#[trigger] parts@[k])@ == segments(a@)[k],
            i <= parts@.len(),
            forall|k: int| 0 <= k < i ==> segments(a@)[k] == (#[trigger] b@[k])@,
        decreases parts@.len() - i,
    {
        if !chars_equal(parts[i].as_slice(), b[i].as_slice()) {
            proof {
                assert(b@.map_values(|s: Vec<char>| s@)[i as int] == b@[i as int]@);
            }
            return false;
        }
        i = i + 1;
    }
    assert(segments(a@) =~= b@.map_values(|s: Vec<char>| s@));
    true
}

/// The entries of a Nix closure may stand as runtime roots: at most 128 of
/// them, each a directory directly under the store.
pub open spec fn closure_valid(lines: Seq<Seq<char>>, directories: Seq<bool>) -> bool {
    &&& lines.len() <= 128
    &&& forall|i: int| 0 <= i < lines.len() ==> store_entry(#[trigger] lines[i]) && directories[i]
}

/// The runtime roots of a Nix installation from the output of
/// `nix-store --query --requisites`: `succeeded` is whether the query
/// succeeded, `directories[i]` whether the `i`-th listed path is a directory.
pub fn closure_roots(lean_root: &str, succeeded: bool, stderr: &str, stdout: &str, directories: &[bool]) -> (r: Result<Vec<String>, Failure>)
    requires
        absolute(lean_root@),
        directories@.len() == lines_spec(stdout@).len(),
    ensures
        !succeeded ==> (r matches Err(f) && failed(f, Outcome::Unsupported, "runtime-closure-unavailable"@,
            "cannot resolve the selected Lean Nix closure: "@ + stderr@)),
        succeeded && !closure_valid(lines_spec(stdout@), directories@) ==> (r matches Err(f)
            && failed(f, Outcome::Unsupported, "runtime-closure-invalid"@, "invalid or oversized Lean runtime closure"@)),
        succeeded && closure_valid(lines_spec(stdout@), directories@)
            && !(exists|i: int| 0 <= i < lines_spec(stdout@).len() && same_path(#[trigger] lines_spec(stdout@)[i], lean_root@))
            ==> (r matches Err(f) && failed(f, Outcome::Unsupported, "runtime-closure-invalid"@,
            "Lean installation is absent from its runtime closure"@)),
        succeeded && closure_valid(lines_spec(stdout@), directories@)
            && (exists|i: int| 0 <= i < lines_spec(stdout@).len() && same_path(#[trigger] lines_spec(stdout@)[i], lean_root@))
            ==> (r matches Ok(v) && views(v@) == lines_spec(stdout@)),
{
    if !succeeded {
        let mut message = owned("cannot resolve the selected Lean Nix closure: ");
        push_text(&mut message, stderr);
        return Err(Failure::unsupported("runtime-closure-unavailable", message));
    }
    let text = chars_of(stdout);
    let all = lines(text.as_slice());
    let root_spelled = chars_of(lean_root);
    let root = path_segments(root_spelled.as_slice());
    proof {
        assert(root@.map_values(|s: Vec<char>| s@) =~= segments(lean_root@));
    }
    let ghost ls = lines_spec(stdout@);
    let mut roots: Vec<String> = Vec::new();
    let mut present = false;
    let mut i: usize = 0;
    while i < all.len()
        invariant
            succeeded,
            ls == lines_spec(stdout@),
            all@.len() == ls.len() == directories@.len(),
            forall|k: int| 0 <= k < all@.len() ==> (#[trigger] all@[k])@ == ls[k],
            root@.map_values(|s: Vec<char>| s@) == segments(lean_root@),
            i <= all@.len(),
            roots@.len() == i,
            views(roots@) == ls.subrange(0, i as int),
            forall|k: int| 0 <= k < i ==> store_entry(#[trigger] ls[k]) && directories@[k],
            i <= 128,
            present == (exists|k: int| 0 <= k < i && same_path(#[trigger] ls[k], lean_root@)),
        decreases all@.len() - i,
    {
        let line = string_of(all[i].as_slice(), 0, all[i].len());
        proof {
            assert(all@[i as int]@.subrange(0, all@[i as int]@.len() as int) =~= all@[i as int]@);
        }
        if !is_store_entry(line.as_str()) || !directories[i] || roots.len() >= 128 {
            proof {
                if i >= 128 {
                    assert(ls.len() > 128);
                }
            }
            return Err(Failure::unsupported("runtime-closure-invalid", owned("invalid or oversized Lean runtime closure")));
        }
        let here = same_location(all[i].as_slice(), &root);
        let ghost before = roots@;
        roots.push(line);
        proof {
            assert(views(roots@) =~= views(before).push(ls[i as int]));
            assert(ls.subrange(0, i + 1) =~= ls.subrange(0, i as int).push(ls[i as int]));
            if here {
                assert(same_path(ls[i as int], lean_root@));
            }
            if !here {
                assert forall|k: int| 0 <= k < i + 1 && same_path(#[trigger] ls[k], lean_root@) implies k < i by {}
            }
        }
        present = present || here;
        i = i + 1;
    }
    proof {
        assert(ls.subrange(0, ls.len() as int) =~= ls);
    }
    if !present {
        return Err(Failure::unsupported("runtime-closure-invalid", owned("Lean installation is absent from its runtime closure")));
    }
    Ok(roots)
}

/// A path spelled from its named components, beginning at the root.
pub open spec fn spelled(parts: Seq<Seq<char>>) -> Seq<char>
    decreases parts.len(),
{
    if parts.len() == 0 {
        Seq::empty()
    } else {
        spelled(parts.drop_last()).push('/') + parts.last()
    }
}

/// The root directory, or the path spelled from `parts`.
pub open spec fn rooted(parts: Seq<Seq<char>>) -> Seq<char> {
    if parts.len() == 0 {
        seq!['/']
    } else {
        spelled(parts)
    }
}

/// The installation directory of a Lean executable: the parent of its `bin`
/// directory.
pub fn installation_root(lean: &str) -> (r: Result<String, Failure>)
    requires
        absolute(lean@),
    ensures
        segments(lean@).len() < 2 ==> (r matches Err(f) && failed(f, Outcome::Unsupported, "toolchain-layout"@,
            "Lean must be selected from its release bin directory"@)),
        segments(lean@).len() >= 2 ==> (r matches Ok(root)
            && root@ == rooted(segments(lean@).subrange(0, segments(lean@).len() - 2))),
{
    let spelled_lean = chars_of(lean);
    let parts = path_segments(spelled_lean.as_slice());
    if parts.len() < 2 {
        return Err(Failure::unsupported("toolchain-layout", owned("Lean must be selected from its release bin directory")));
    }
    let keep = parts.len() - 2;
    let ghost kept = segments(lean@).subrange(0, keep as int);
    let mut root = String::new();
    let mut i: usize = 0;
    while i < keep
        invariant
            keep <= parts@.len() == segments(lean@).len(),
            forall|k: int| 0 <= k < parts@.len() ==> (#[trigger] parts@[k])@ == segments(lean@)[k],
            kept == segments(lean@).subrange(0, keep as int),
            i <= keep,
            root@ == spelled(kept.subrange(0, i as int)),
        decreases keep - i,
    {
        let ghost before = root@;
        push_char(&mut root, '/');
        push_text(&mut root, string_of(parts[i].as_slice(), 0, parts[i].len()).as_str());
        proof {
            assert(parts@[i as int]@.subrange(0, parts@[i as int]@.len() as int) =~= parts@[i as int]@);
            let next = kept.subrange(0, i + 1);
            assert(next.drop_last() =~= kept.subrange(0, i as int));
            assert(next.last() == segments(lean@)[i as int]);
        }
        i = i + 1;
    }
    proof {
        assert(kept.subrange(0, keep as int) =~= kept);
    }
    if keep == 0 {
        push_char(&mut root, '/');
        assert(root@ =~= seq!['/']);
    }
    Ok(root)
}

/// The selected Lean executable and its installation directory, provided the
/// installation holds `lib/lean/Init.olean`.
pub fn installation(lean: String, lean_root: String, has_init: bool) -> (r: Result<(String, String), Failure>)
    ensures
        has_init ==> r == Ok::<(String, String), Failure>((lean, lean_root)),
        !has_init ==> (r matches Err(f) && failed(f, Outcome::Unsupported, "toolchain-layout"@,
            "selected Lean installation has no lib/lean/Init.olean"@)),
{
    if !has_init {
        return Err(Failure::unsupported("toolchain-layout", owned("selected Lean installation has no lib/lean/Init.olean")));
    }
    Ok((lean, lean_root))
}

/// The library directories exposed beside a conventional installation.
pub open spec fn public_roots() -> Seq<Seq<char>> {
    seq!["/usr/lib"@, "/lib"@, "/lib64"@]
}

/// The runtime roots of a conventional installation: its own directory and
/// each public library directory that exists (`public[i]`).
pub fn default_roots(lean_root: String, public: &[bool]) -> (r: Vec<String>)
    requires
        public@.len() == 3,
    ensures
        views(r@) == seq![lean_root@]
            + (if public@[0] { seq!["/usr/lib"@] } else { Seq::empty() })
            + (if public@[1] { seq!["/lib"@] } else { Seq::empty() })
            + (if public@[2] { seq!["/lib64"@] } else { Seq::empty() }),
{
    let ghost root = lean_root@;
    let mut roots: Vec<String> = Vec::new();
    roots.push(lean_root);
    let ghost first = views(roots@);
    assert(first =~= seq![root]);
    if public[0] {
        roots.push(owned("/usr/lib"));
    }
    let ghost second = views(roots@);
    assert(second =~= first + (if public@[0] { seq!["/usr/lib"@] } else { Seq::empty() }));
    if public[1] {
        roots.push(owned("/lib"));
    }
    let ghost third = views(roots@);
    assert(third =~= second + (if public@[1] { seq!["/lib"@] } else { Seq::empty() }));
    if public[2] {
        roots.push(owned("/lib64"));
    }
    assert(views(roots@) =~= third + (if public@[2] { seq!["/lib64"@] } else { Seq::empty() }));
    roots
}

/// What the host showed of a tool: the path selected for it
/// (`select_executable`), and the canonical form of that path with whether it
/// names a regular file, or the reason it could not be resolved.
pub struct Located {
    pub selected: String,
    pub canonical: Result<(String, bool), String>,
}

/// What the host showed of Lean: where it is, and whether its installation
/// directory holds `lib/lean/Init.olean`.
pub struct LeanLocated {
    pub tool: Located,
    pub has_init: bool,
}

/// What has been learnt about the host so far, in the order discovery asks
/// for it. `None` marks a probe not yet made; an `Err` is a refused selection.
pub struct Observations {
    /// Whether the host runs Linux.
    pub linux: bool,
    pub bwrap: Option<Result<Located, Failure>>,
    pub prlimit: Option<Result<Located, Failure>>,
    pub systemd_run: Option<Result<Located, Failure>>,
    /// The user runtime directory and whether it holds the systemd bus.
    pub runtime: Option<(String, bool)>,
    pub installation: Option<Result<LeanLocated, Failure>>,
    /// The runtime roots (`closure_roots` or `default_roots`).
    pub roots: Option<Result<Vec<String>, Failure>>,
}

/// A location as `select_executable` and a canonical resolution give it: the
/// selected path is absolute, and so is any canonical form.
pub open spec fn located_valid(l: Located) -> bool {
    &&& absolute(l.selected@)
    &&& l.canonical matches Ok((p, _)) ==> absolute(p@)
}

/// The canonical path a tool location resolves to, or the message of the
/// `missing-tool` refusal (as `resolved_executable` decides).
pub open spec fn resolution(tool: Tool, l: Located) -> Result<Seq<char>, Seq<char>> {
    match l.canonical {
        Err(e) => Err("cannot resolve "@ + tool.spec_key() + " at "@ + l.selected@ + ": "@ + e@),
        Ok((p, is_file)) => if is_file {
            Ok(p@)
        } else {
            Err(tool.spec_key() + " does not identify an executable file"@)
        },
    }
}

/// The Lean executable and its installation directory (the parent of its
/// `bin` directory), or the code and message of the refusal.
pub open spec fn lean_installation(l: LeanLocated) -> Result<(Seq<char>, Seq<char>), (Seq<char>, Seq<char>)> {
    match resolution(Tool::Lean, l.tool) {
        Err(m) => Err(("missing-tool"@, m)),
        Ok(lean) => if segments(lean).len() < 2 {
            Err(("toolchain-layout"@, "Lean must be selected from its release bin directory"@))
        } else if !l.has_init {
            Err(("toolchain-layout"@, "selected Lean installation has no lib/lean/Init.olean"@))
        } else {
            Ok((lean, rooted(segments(lean).subrange(0, segments(lean).len() - 2))))
        },
    }
}

/// Runtime roots fit for an installation: at most 128, one of them the
/// installation directory itself.
pub open spec fn roots_hold(roots: Seq<Seq<char>>, root: Seq<char>) -> bool {
    &&& roots.len() <= 128
    &&& exists|i: int| 0 <= i < roots.len() && same_path(#[trigger] roots[i], root)
}

/// A tool's observation, where it holds a location, holds a valid one.
pub open spec fn tool_valid(o: Option<Result<Located, Failure>>) -> bool {
    o matches Some(Ok(l)) ==> located_valid(l)
}

/// Observations as the probes give them: each location is valid, and runtime
/// roots are only recorded for a known installation that they cover.
pub open spec fn valid_observations(o: Observations) -> bool {
    &&& tool_valid(o.bwrap)
    &&& tool_valid(o.prlimit)
    &&& tool_valid(o.systemd_run)
    &&& o.installation matches Some(Ok(l)) ==> located_valid(l.tool)
    &&& o.roots matches Some(Ok(roots)) ==> (o.installation matches Some(Ok(l))
        && lean_installation(l) matches Ok((_, root)) && roots_hold(views(roots@), root))
}

/// Whether a location is as `select_executable` and a canonical resolution
/// give it.
pub fn location_holds(l: &Located) -> (r: bool)
    ensures
        r == located_valid(*l),
{
    let selected = chars_of(l.selected.as_str());
    if selected.len() == 0 || selected[0] != '/' {
        return false;
    }
    match &l.canonical {
        Ok((p, _)) => {
            let c = chars_of(p.as_str());
            c.len() > 0 && c[0] == '/'
        },
        Err(_) => true,
    }
}

/// Whether runtime roots are fit for the installation directory `root`.
pub fn roots_cover(roots: &Vec<String>, root: &str) -> (r: bool)
    ensures
        r == roots_hold(views(roots@), root@),
{
    if roots.len() > 128 {
        return false;
    }
    let spelled = chars_of(root);
    let parts = path_segments(spelled.as_slice());
    proof {
        assert(parts@.map_values(|s: Vec<char>| s@) =~= segments(root@));
    }
    let mut i: usize = 0;
    while i < roots.len()
        invariant
            i <= roots@.len() <= 128,
            parts@.map_values(|s: Vec<char>| s@) == segments(root@),
            forall|k: int| 0 <= k < i ==> !same_path(#[trigger] views(roots@)[k], root@),
        decreases roots@.len() - i,
    {
        let c = chars_of(roots[i].as_str());
        if same_location(c.as_slice(), &parts) {
            assert(same_path(views(roots@)[i as int], root@));
            return true;
        }
        i = i + 1;
    }
    false
}

/// The next host probe discovery needs.
pub enum Probe {
    /// Locate a tool (`select_executable`, then resolve the selected path).
    Tool(Tool),
    /// Read the user runtime directory and look for its bus.
    Runtime,
    /// Locate Lean and look for `lib/lean/Init.olean` in its installation.
    Installation,
    /// Query the Nix closure of the installation (`closure_roots`).
    StoreClosure,
    /// Look for the public library directories (`default_roots`).
    PublicRoots,
}

/// Either the probe discovery needs next, or the finished environment.
pub enum Discovered {
    Probe(Probe),
    Ready(Environment),
}

/// The path a tool's observation yields, if it yields one.
pub open spec fn tool_path(o: Option<Result<Located, Failure>>, tool: Tool) -> Option<Seq<char>> {
    match o {
        Some(Ok(l)) => match resolution(tool, l) {
            Ok(p) => Some(p),
            Err(_) => None,
        },
        _ => None,
    }
}

/// What discovery answers at a tool whose observation yields no path: the
/// probe while it is unmade, the refused selection, or the `missing-tool`
/// refusal.
pub open spec fn tool_stop(o: Option<Result<Located, Failure>>, tool: Tool, r: Result<Discovered, Failure>) -> bool {
    match o {
        None => r matches Ok(Discovered::Probe(Probe::Tool(t))) && t == tool,
        Some(Err(f)) => r == Err::<Discovered, Failure>(f),
        Some(Ok(l)) => match resolution(tool, l) {
            Err(m) => r matches Err(f) && failed(f, Outcome::Unsupported, "missing-tool"@, m),
            Ok(_) => true,
        },
    }
}

/// A ready environment is what the observations checked: each tool is the
/// canonical form, naming a regular file, of an absolute selected path; the
/// installation directory is the parent of Lean's `bin` directory and holds
/// `lib/lean/Init.olean`; the runtime directory holds the bus; the runtime
/// roots are at most 128 and include the installation directory.
pub open spec fn environment_checked(o: Observations, e: Environment) -> bool {
    &&& tool_path(o.bwrap, Tool::Bwrap) == Some(e.bwrap@) && absolute(e.bwrap@)
    &&& tool_path(o.prlimit, Tool::Prlimit) == Some(e.prlimit@) && absolute(e.prlimit@)
    &&& tool_path(o.systemd_run, Tool::SystemdRun) == Some(e.systemd_run@) && absolute(e.systemd_run@)
    &&& o.installation matches Some(Ok(l)) && l.has_init
        && lean_installation(l) == Ok::<(Seq<char>, Seq<char>), (Seq<char>, Seq<char>)>((e.lean@, e.lean_root@))
    &&& absolute(e.lean@) && segments(e.lean@).len() >= 2
    &&& e.lean_root@ == rooted(segments(e.lean@).subrange(0, segments(e.lean@).len() - 2))
    &&& o.runtime == Some((e.runtime_directory, true))
    &&& o.roots == Some(Ok::<Vec<String>, Failure>(e.runtime_roots))
    &&& roots_hold(views(e.runtime_roots@), e.lean_root@)
}

/// What discovery answers for the observations `o`: the first failure among
/// them, the first probe not yet made, or the environment they describe.
pub open spec fn discovery(o: Observations, r: Result<Discovered, Failure>) -> bool {
    if !o.linux {
        r matches Err(f) && failed(f, Outcome::Unsupported, "sandbox-unavailable"@,
            "MC1 source verification requires the Linux bubblewrap sandbox"@)
    } else if tool_path(o.bwrap, Tool::Bwrap) is None {
        tool_stop(o.bwrap, Tool::Bwrap, r)
    } else if tool_path(o.prlimit, Tool::Prlimit) is None {
        tool_stop(o.prlimit, Tool::Prlimit, r)
    } else if tool_path(o.systemd_run, Tool::SystemdRun) is None {
        tool_stop(o.systemd_run, Tool::SystemdRun, r)
    } else {
        match o.runtime {
            None => r matches Ok(Discovered::Probe(Probe::Runtime)),
            Some((directory, bus)) => if !bus {
                r matches Err(f) && failed(f, Outcome::Unsupported, "sandbox-unavailable"@,
                    "an active user systemd manager is required for aggregate proof-worker limits"@)
            } else {
                match o.installation {
                    None => r matches Ok(Discovered::Probe(Probe::Installation)),
                    Some(Err(f)) => r == Err::<Discovered, Failure>(f),
                    Some(Ok(l)) => match lean_installation(l) {
                        Err((code, message)) => r matches Err(f) && failed(f, Outcome::Unsupported, code, message),
                        Ok((lean, lean_root)) => match o.roots {
                            None => if store_entry(lean_root) {
                                r matches Ok(Discovered::Probe(Probe::StoreClosure))
                            } else {
                                r matches Ok(Discovered::Probe(Probe::PublicRoots))
                            },
                            Some(Err(f)) => r == Err::<Discovered, Failure>(f),
                            Some(Ok(roots)) => r matches Ok(Discovered::Ready(e)) && environment_checked(o, e),
                        },
                    },
                }
            },
        }
    }
}

/// One tool's step of discovery: the tool's canonical path, or the probe or
/// refusal that stops discovery there.
fn tool_step(o: Option<Result<Located, Failure>>, tool: Tool) -> (r: Result<String, Result<Discovered, Failure>>)
    ensures
        r matches Ok(p) ==> tool_path(o, tool) == Some(p@),
        r matches Err(stop) ==> tool_path(o, tool) is None && tool_stop(o, tool, stop),
{
    match o {
        None => Err(Ok(Discovered::Probe(Probe::Tool(tool)))),
        Some(Err(f)) => Err(Err(f)),
        Some(Ok(l)) => match resolved_executable(tool, l.selected.as_str(), l.canonical) {
            Ok(p) => Ok(p),
            Err(f) => Err(Err(f)),
        },
    }
}

impl Environment {
    /// One step of sandbox discovery: refuses at the first failed
    /// observation, asks for the next probe, or assembles the environment.
    /// Nothing is selected before isolation is known to be possible.
    pub fn discover(o: Observations) -> (r: Result<Discovered, Failure>)
        requires
            valid_observations(o),
        ensures
            discovery(o, r),
            r matches Ok(Discovered::Ready(e)) ==> environment_checked(o, e),
    {
        let Observations { linux, bwrap, prlimit, systemd_run, runtime, installation: found, roots } = o;
        if !linux {
            return Err(Failure::unsupported("sandbox-unavailable",
                owned("MC1 source verification requires the Linux bubblewrap sandbox")));
        }
        let bwrap = match tool_step(bwrap, Tool::Bwrap) {
            Ok(p) => p,
            Err(stop) => return stop,
        };
        let prlimit = match tool_step(prlimit, Tool::Prlimit) {
            Ok(p) => p,
            Err(stop) => return stop,
        };
        let systemd_run = match tool_step(systemd_run, Tool::SystemdRun) {
            Ok(p) => p,
            Err(stop) => return stop,
        };
        let runtime_directory = match runtime {
            None => return Ok(Discovered::Probe(Probe::Runtime)),
            Some((directory, bus)) => {
                if !bus {
                    return Err(Failure::unsupported("sandbox-unavailable",
                        owned("an active user systemd manager is required for aggregate proof-worker limits")));
                }
                directory
            },
        };
        let (lean, lean_root) = match found {
            None => return Ok(Discovered::Probe(Probe::Installation)),
            Some(Err(f)) => return Err(f),
            Some(Ok(l)) => {
                let has_init = l.has_init;
                let lean = match resolved_executable(Tool::Lean, l.tool.selected.as_str(), l.tool.canonical) {
                    Ok(p) => p,
                    Err(f) => return Err(f),
                };
                let root = match installation_root(lean.as_str()) {
                    Ok(root) => root,
                    Err(f) => return Err(f),
                };
                match installation(lean, root, has_init) {
                    Ok(pair) => pair,
                    Err(f) => return Err(f),
                }
            },
        };
        let runtime_roots = match roots {
            None => {
                if is_store_entry(lean_root.as_str()) {
                    return Ok(Discovered::Probe(Probe::StoreClosure));
                }
                return Ok(Discovered::Probe(Probe::PublicRoots));
            },
            Some(Err(f)) => return Err(f),
            Some(Ok(roots)) => roots,
        };
        Ok(Discovered::Ready(Environment { lean, bwrap, prlimit, systemd_run, lean_root, runtime_directory, runtime_roots }))
    }
}

/// One process to launch: the program, its whole environment and its
/// arguments.
pub struct Invocation {
    pub program: String,
    pub environment: Vec<(String, String)>,
    pub arguments: Vec<String>,
}

/// `n + 1`, saturating at the largest `u64`.
pub open spec fn saturating_next(n: u64) -> u64 {
    if n == u64::MAX { n } else { (n + 1) as u64 }
}

/// The scope and resource limits placed around the sandbox, ending with the
/// bubblewrap executable.
pub open spec fn limits(e: Environment, seconds: u64) -> Seq<Seq<char>> {
    seq![
        "--user"@, "--scope"@, "--quiet"@, "--collect"@, "-p"@,
        "MemoryMax="@ + decimal(MEMORY_LIMIT as nat),
        "-p"@, "MemorySwapMax=0"@, "-p"@, "TasksMax=64"@, "--"@,
        e.prlimit@,
        "--fsize="@ + decimal(ARTIFACT_LIMIT as nat) + ":"@ + decimal(ARTIFACT_LIMIT as nat),
        "--nofile=128:128"@, "--core=0:0"@,
        "--cpu="@ + decimal(seconds as nat) + ":"@ + decimal(saturating_next(seconds) as nat),
        "--"@,
        e.bwrap@,
    ]
}

/// The namespace, filesystem and environment isolation of every run.
pub open spec fn isolation() -> Seq<Seq<char>> {
    seq![
        "--unshare-all"@, "--die-with-parent"@, "--new-session"@, "--cap-drop"@, "ALL"@, "--clearenv"@,
        "--proc"@, "/proc"@, "--dev"@, "/dev"@, "--size"@, "1048576"@, "--tmpfs"@, "/dev/shm"@,
        "--remount-ro"@, "/dev"@, "--size"@, "67108864"@, "--tmpfs"@, "/tmp"@,
        "--dir"@, "/inputs"@, "--dir"@, "/out"@, "--dir"@, "/library"@, "--dir"@, "/obligation"@,
        "--dir"@, "/producer"@, "--dir"@, "/checker"@, "--chdir"@, "/tmp"@,
        "--setenv"@, "HOME"@, "/tmp"@, "--setenv"@, "TMPDIR"@, "/tmp"@, "--setenv"@, "LANG"@, "C.UTF-8"@,
        "--setenv"@, "LEAN_PATH"@,
    ]
}

/// The Lean search path and the locations of the Lean installation.
pub open spec fn lean_setup(e: Environment, search_path: Seq<char>) -> Seq<Seq<char>> {
    seq![search_path, "--setenv"@, "LEAN_SYSROOT"@, e.lean_root@, "--setenv"@, "NOBLE_LEAN_EXECUTABLE"@, e.lean@]
}

/// Read-only binds of the runtime roots at their own paths.
pub open spec fn root_binds(roots: Seq<Seq<char>>) -> Seq<Seq<char>>
    decreases roots.len(),
{
    if roots.len() == 0 {
        Seq::empty()
    } else {
        root_binds(roots.drop_last()) + seq!["--ro-bind"@, roots.last(), roots.last()]
    }
}

/// The bind of one mount.
pub open spec fn mount_bind(m: Mount) -> Seq<Seq<char>> {
    seq![if m.writable { "--bind"@ } else { "--ro-bind"@ }, m.host@, m.guest@]
}

/// The binds of the mounts, in order.
pub open spec fn mount_binds(mounts: Seq<Mount>) -> Seq<Seq<char>>
    decreases mounts.len(),
{
    if mounts.len() == 0 {
        Seq::empty()
    } else {
        mount_binds(mounts.drop_last()) + mount_bind(mounts.last())
    }
}

/// The arguments of the scoped sandbox that runs Lean with `arguments`.
pub open spec fn command_line(e: Environment, mounts: Seq<Mount>, search_path: Seq<char>, arguments: Seq<Seq<char>>, seconds: u64) -> Seq<Seq<char>> {
    limits(e, seconds) + isolation() + lean_setup(e, search_path) + root_binds(views(e.runtime_roots@))
        + mount_binds(mounts) + seq!["--remount-ro"@, "/"@, "--"@, e.lean@] + arguments
}

/// Appends one argument.
fn push_arg(out: &mut Vec<String>, a: &str)
    ensures
        views(final(out)@) == views(old(out)@).push(a@),
{
    out.push(owned(a));
    assert(views(final(out)@) =~= views(old(out)@).push(a@));
}

/// Appends arguments spelled by a prefix and a number.
fn push_numbered(out: &mut Vec<String>, prefix: &str, n: u64)
    ensures
        views(final(out)@) == views(old(out)@).push(prefix@ + decimal(n as nat)),
{
    let mut a = owned(prefix);
    append_decimal(n, &mut a);
    out.push(a);
    assert(views(final(out)@) =~= views(old(out)@).push(prefix@ + decimal(n as nat)));
}

fn push_limits(out: &mut Vec<String>, e: &Environment, seconds: u64)
    ensures
        views(final(out)@) == views(old(out)@) + limits(*e, seconds),
{
    let ghost start = views(out@);
    push_arg(out, "--user");
    push_arg(out, "--scope");
    push_arg(out, "--quiet");
    push_arg(out, "--collect");
    push_arg(out, "-p");
    push_numbered(out, "MemoryMax=", MEMORY_LIMIT);
    push_arg(out, "-p");
    push_arg(out, "MemorySwapMax=0");
    push_arg(out, "-p");
    push_arg(out, "TasksMax=64");
    push_arg(out, "--");
    push_arg(out, e.prlimit.as_str());
    let mut fsize = owned("--fsize=");
    append_decimal(ARTIFACT_LIMIT, &mut fsize);
    push_text(&mut fsize, ":");
    append_decimal(ARTIFACT_LIMIT, &mut fsize);
    let ghost before_fsize = views(out@);
    out.push(fsize);
    assert(views(out@) =~= before_fsize.push("--fsize="@ + decimal(ARTIFACT_LIMIT as nat) + ":"@ + decimal(ARTIFACT_LIMIT as nat)));
    push_arg(out, "--nofile=128:128");
    push_arg(out, "--core=0:0");
    let mut cpu = owned("--cpu=");
    append_decimal(seconds, &mut cpu);
    push_text(&mut cpu, ":");
    append_decimal(seconds.saturating_add(1), &mut cpu);
    let ghost before_cpu = views(out@);
    out.push(cpu);
    assert(views(out@) =~= before_cpu.push("--cpu="@ + decimal(seconds as nat) + ":"@ + decimal(saturating_next(seconds) as nat)));
    push_arg(out, "--");
    push_arg(out, e.bwrap.as_str());
    assert(views(out@) =~= start + limits(*e, seconds));
}

#[verifier::rlimit(40)]
fn push_isolation(out: &mut Vec<String>)
    ensures
        views(final(out)@) == views(old(out)@) + isolation(),
{
    let ghost start = views(out@);
    push_arg(out, "--unshare-all");
    push_arg(out, "--die-with-parent");
    push_arg(out, "--new-session");
    push_arg(out, "--cap-drop");
    push_arg(out, "ALL");
    push_arg(out, "--clearenv");
    push_arg(out, "--proc");
    push_arg(out, "/proc");
    push_arg(out, "--dev");
    push_arg(out, "/dev");
    push_arg(out, "--size");
    push_arg(out, "1048576");
    push_arg(out, "--tmpfs");
    push_arg(out, "/dev/shm");
    push_arg(out, "--remount-ro");
    push_arg(out, "/dev");
    push_arg(out, "--size");
    push_arg(out, "67108864");
    push_arg(out, "--tmpfs");
    push_arg(out, "/tmp");
    push_arg(out, "--dir");
    push_arg(out, "/inputs");
    push_arg(out, "--dir");
    push_arg(out, "/out");
    push_arg(out, "--dir");
    push_arg(out, "/library");
    push_arg(out, "--dir");
    push_arg(out, "/obligation");
    push_arg(out, "--dir");
    push_arg(out, "/producer");
    push_arg(out, "--dir");
    push_arg(out, "/checker");
    push_arg(out, "--chdir");
    push_arg(out, "/tmp");
    push_arg(out, "--setenv");
    push_arg(out, "HOME");
    push_arg(out, "/tmp");
    push_arg(out, "--setenv");
    push_arg(out, "TMPDIR");
    push_arg(out, "/tmp");
    push_arg(out, "--setenv");
    push_arg(out, "LANG");
    push_arg(out, "C.UTF-8");
    push_arg(out, "--setenv");
    push_arg(out, "LEAN_PATH");
    assert(views(out@) =~= start + isolation());
}

fn push_binds(out: &mut Vec<String>, roots: &Vec<String>, mounts: &[Mount])
    ensures
        views(final(out)@) == views(old(out)@) + root_binds(views(roots@)) + mount_binds(mounts@),
{
    let ghost start = views(out@);
    let mut i: usize = 0;
    while i < roots.len()
        invariant
            i <= roots@.len(),
            views(out@) == start + root_binds(views(roots@.subrange(0, i as int))),
        decreases roots@.len() - i,
    {
        push_arg(out, "--ro-bind");
        push_arg(out, roots[i].as_str());
        push_arg(out, roots[i].as_str());
        proof {
            let next = views(roots@.subrange(0, i + 1));
            assert(next.drop_last() =~= views(roots@.subrange(0, i as int)));
            assert(next.last() == roots@[i as int]@);
            assert(views(out@) =~= start + root_binds(next));
        }
        i = i + 1;
    }
    assert(roots@.subrange(0, roots@.len() as int) =~= roots@);
    let ghost middle = views(out@);
    let mut j: usize = 0;
    while j < mounts.len()
        invariant
            j <= mounts@.len(),
            views(out@) == middle + mount_binds(mounts@.subrange(0, j as int)),
        decreases mounts@.len() - j,
    {
        let m = &mounts[j];
        if m.writable {
            push_arg(out, "--bind");
        } else {
            push_arg(out, "--ro-bind");
        }
        push_arg(out, m.host.as_str());
        push_arg(out, m.guest.as_str());
        proof {
            let next = mounts@.subrange(0, j + 1);
            assert(next.drop_last() =~= mounts@.subrange(0, j as int));
            assert(views(out@) =~= middle + mount_binds(next));
        }
        j = j + 1;
    }
    assert(mounts@.subrange(0, mounts@.len() as int) =~= mounts@);
}

impl Environment {
    /// The launch of Lean with `arguments` inside the sandbox, with `remaining`
    /// the time left before the caller's deadline (whole seconds and the
    /// nanoseconds beyond them). No time left is a timeout.
    pub fn run(&self, mounts: &[Mount], search_path: &str, arguments: &[String], remaining_seconds: u64, remaining_nanos: u32) -> (r: Result<Invocation, Failure>)
        ensures
            remaining_seconds == 0 && remaining_nanos == 0 ==> (r matches Err(f)
                && failed(f, Outcome::Timeout, "timeout"@, "consumer wall-clock budget exhausted"@)),
            !(remaining_seconds == 0 && remaining_nanos == 0) ==> (r matches Ok(launch)
                && launch.program@ == self.systemd_run@
                && launch.environment@.len() == 1
                && launch.environment@[0].0@ == "XDG_RUNTIME_DIR"@
                && launch.environment@[0].1@ == self.runtime_directory@
                && views(launch.arguments@) == command_line(*self, mounts@, search_path@, views(arguments@),
                    saturating_next(remaining_seconds))),
    {
        if remaining_seconds == 0 && remaining_nanos == 0 {
            return Err(Failure::timeout("consumer wall-clock budget exhausted"));
        }
        let seconds = remaining_seconds.saturating_add(1);
        let mut out: Vec<String> = Vec::new();
        push_limits(&mut out, self, seconds);
        push_isolation(&mut out);
        push_arg(&mut out, search_path);
        push_arg(&mut out, "--setenv");
        push_arg(&mut out, "LEAN_SYSROOT");
        push_arg(&mut out, self.lean_root.as_str());
        push_arg(&mut out, "--setenv");
        push_arg(&mut out, "NOBLE_LEAN_EXECUTABLE");
        push_arg(&mut out, self.lean.as_str());
        let ghost before_binds = views(out@);
        assert(before_binds =~= limits(*self, seconds) + isolation() + lean_setup(*self, search_path@));
        push_binds(&mut out, &self.runtime_roots, mounts);
        push_arg(&mut out, "--remount-ro");
        push_arg(&mut out, "/");
        push_arg(&mut out, "--");
        push_arg(&mut out, self.lean.as_str());
        let ghost before_arguments = views(out@);
        let mut i: usize = 0;
        while i < arguments.len()
            invariant
                i <= arguments@.len(),
                views(out@) == before_arguments + views(arguments@.subrange(0, i as int)),
            decreases arguments@.len() - i,
        {
            push_arg(&mut out, arguments[i].as_str());
            assert(views(arguments@.subrange(0, i + 1)) =~= views(arguments@.subrange(0, i as int)).push(arguments@[i as int]@));
            i = i + 1;
        }
        assert(arguments@.subrange(0, arguments@.len() as int) =~= arguments@);
        assert(views(out@) =~= command_line(*self, mounts@, search_path@, views(arguments@), seconds));
        let environment = vec![(owned("XDG_RUNTIME_DIR"), owned(self.runtime_directory.as_str()))];
        Ok(Invocation { program: owned(self.systemd_run.as_str()), environment, arguments: out })
    }
}

} // verus!
