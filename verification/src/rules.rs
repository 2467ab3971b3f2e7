//! The consumer's rule library: module names from their paths, the imports
//! each module declares, the order in which the modules can be compiled, and
//! the library's report.

use vstd::prelude::*;

use crate::json::{keys, object, string, text_is, value_at, Json};
use crate::number::{ascii_words, leading_space, split_ascii_words, trim, trimmed_length};
use crate::outcome::{Failure, Outcome};
use crate::sandbox::failed;
use crate::text::{chars_of, lines, lines_spec, owned, push_char, push_text, string_of};
use crate::utf8::decode;
use vstd::utf8::{decode_utf8, valid_utf8};

verus! {

pub const MODULE_LIMIT: usize = 128;
pub const PATH_LIMIT: usize = 512;
pub const DIRECTORY_SCAN_LIMIT: usize = 513;
pub const LIBRARY_LIMIT: usize = 4_194_304;

/// One rule-library module: its dotted name, its path below the library root
/// (one entry per component), its source and its imports.
pub struct Module {
    pub name: String,
    pub relative: Vec<Vec<u8>>,
    pub source: String,
    pub imports: Vec<String>,
}

/// The rule library: its root directory and its modules, ordered by name.
pub struct Library {
    pub root: String,
    pub modules: Vec<Module>,
}

/// A byte of an identifier component: ASCII letter, digit or `_`.
pub open spec fn ident_byte(b: u8) -> bool {
    (48 <= b <= 57) || (65 <= b <= 90) || (97 <= b <= 122) || b == 95
}

/// A file name with the extension `lean` (and a nonempty stem).
pub open spec fn lean_file(name: Seq<u8>) -> bool {
    name.len() > 5 && name.subrange(name.len() - 5, name.len() as int) == seq![46u8, 108u8, 101u8, 97u8, 110u8]
}

/// Whether a file name has the extension `lean`.
pub fn is_lean_source(name: &[u8]) -> (r: bool)
    ensures
        r == lean_file(name@),
{
    let n = name.len();
    if n <= 5 {
        return false;
    }
    let r = name[n - 5] == 46u8 && name[n - 4] == 108u8 && name[n - 3] == 101u8 && name[n - 2] == 97u8
        && name[n - 1] == 110u8;
    assert(r == (name@.subrange(n - 5, n as int) =~= seq![46u8, 108u8, 101u8, 97u8, 110u8]));
    r
}

/// The components of a module path with the extension of the last removed.
pub open spec fn module_parts(components: Seq<Seq<u8>>) -> Seq<Seq<u8>> {
    components.update(components.len() - 1, components.last().subrange(0, components.last().len() - 5))
}

/// The dotted module name of the given components, or the message of the
/// first invalid component.
pub open spec fn dotted(parts: Seq<Seq<u8>>) -> Result<Seq<char>, Seq<char>>
    decreases parts.len(),
{
    if parts.len() == 0 {
        Ok(Seq::empty())
    } else {
        match dotted(parts.drop_last()) {
            Err(e) => Err(e),
            Ok(prefix) => {
                let part = parts.last();
                if !valid_utf8(part) {
                    Err("non-UTF8 module path"@)
                } else if part.len() == 0 || !(forall|i: int| 0 <= i < part.len() ==> ident_byte(#[trigger] part[i])) {
                    Err("module paths must contain ASCII identifiers"@)
                } else if prefix.len() == 0 {
                    Ok(decode_utf8(part))
                } else {
                    Ok(prefix.push('.') + decode_utf8(part))
                }
            },
        }
    }
}

/// The dotted name of the module at the path with these components, the
/// last of them a Lean source file.
pub fn module_name(components: &[Vec<u8>]) -> (r: Result<String, Failure>)
    requires
        components@.len() > 0,
        lean_file(components@.last()@),
    ensures
        match dotted(module_parts(components@.map_values(|c: Vec<u8>| c@))) {
            Ok(name) => r matches Ok(s) && s@ == name,
            Err(message) => r matches Err(f) && failed(f, Outcome::Unsupported, "library-module-name"@, message),
        },
{
    let ghost parts = module_parts(components@.map_values(|c: Vec<u8>| c@));
    let n = components.len();
    let mut name = String::new();
    let mut i: usize = 0;
    while i < n
        invariant
            n == components@.len() > 0,
            parts == module_parts(components@.map_values(|c: Vec<u8>| c@)),
            parts.len() == n,
            lean_file(components@.last()@),
            i <= n,
            dotted(parts.subrange(0, i as int)) == Ok::<Seq<char>, Seq<char>>(name@),
            i > 0 ==> name@.len() > 0,
        decreases n - i,
    {
        let whole = components[i].as_slice();
        let end = if i + 1 == n { whole.len() - 5 } else { whole.len() };
        let mut part: Vec<u8> = Vec::new();
        let mut k: usize = 0;
        while k < end
            invariant
                end <= whole@.len(),
                k <= end,
                part@ == whole@.subrange(0, k as int),
            decreases end - k,
        {
            part.push(whole[k]);
            assert(part@ =~= whole@.subrange(0, k + 1));
            k = k + 1;
        }
        proof {
            assert(parts[i as int] =~= part@);
            assert(parts.subrange(0, i + 1).drop_last() =~= parts.subrange(0, i as int));
            assert(parts.subrange(0, i + 1).last() == part@);
        }
        let text = match decode(part.as_slice()) {
            Some(t) => t,
            None => {
                proof {
                    lemma_dotted_error(parts, i + 1);
                }
                return Err(Failure::unsupported("library-module-name", owned("non-UTF8 module path")));
            },
        };
        let mut valid = part.len() > 0;
        let mut j: usize = 0;
        while j < part.len()
            invariant
                j <= part@.len(),
                valid == (part@.len() > 0 && forall|m: int| 0 <= m < j ==> ident_byte(#[trigger] part@[m])),
            decreases part@.len() - j,
        {
            let b = part[j];
            if !((48u8 <= b && b <= 57u8) || (65u8 <= b && b <= 90u8) || (97u8 <= b && b <= 122u8) || b == 95u8) {
                valid = false;
            }
            j = j + 1;
        }
        if !valid {
            proof {
                lemma_dotted_error(parts, i + 1);
            }
            return Err(Failure::unsupported("library-module-name", owned("module paths must contain ASCII identifiers")));
        }
        if i > 0 {
            push_char(&mut name, '.');
        }
        push_text(&mut name, text.as_str());
        i = i + 1;
    }
    assert(parts.subrange(0, n as int) =~= parts);
    Ok(name)
}

/// An error among the first `i` components is the error of the whole path.
pub proof fn lemma_dotted_error(parts: Seq<Seq<u8>>, i: int)
    requires
        0 <= i <= parts.len(),
        dotted(parts.subrange(0, i)) is Err,
    ensures
        dotted(parts) == dotted(parts.subrange(0, i)),
    decreases parts.len() - i,
{
    if i < parts.len() {
        assert(parts.subrange(0, i + 1).drop_last() =~= parts.subrange(0, i));
        lemma_dotted_error(parts, i + 1);
    } else {
        assert(parts.subrange(0, i) =~= parts);
    }
}

/// Whether `s` begins with `p`.
pub open spec fn begins(s: Seq<char>, p: Seq<char>) -> bool {
    p.len() <= s.len() && s.subrange(0, p.len() as int) == p
}

/// What follows an import keyword on a trimmed line.
pub open spec fn import_rest(line: Seq<char>) -> Option<Seq<char>> {
    let t = trim(line);
    if begins(t, "import "@) {
        Some(t.subrange("import "@.len() as int, t.len() as int))
    } else if begins(t, "public import "@) {
        Some(t.subrange("public import "@.len() as int, t.len() as int))
    } else {
        None
    }
}

/// The words before the first one that opens a comment.
pub open spec fn before_comment(words: Seq<Seq<char>>) -> Seq<Seq<char>>
    decreases words.len(),
{
    if words.len() == 0 || begins(words[0], "--"@) {
        Seq::empty()
    } else {
        seq![words[0]] + before_comment(words.drop_first())
    }
}

/// The modules one line imports.
pub open spec fn line_imports(line: Seq<char>) -> Seq<Seq<char>> {
    match import_rest(line) {
        Some(rest) => before_comment(ascii_words(rest)),
        None => Seq::empty(),
    }
}

/// The modules the given lines import, in order.
pub open spec fn imports_of(ls: Seq<Seq<char>>) -> Seq<Seq<char>>
    decreases ls.len(),
{
    if ls.len() == 0 {
        Seq::empty()
    } else {
        imports_of(ls.drop_last()) + line_imports(ls.last())
    }
}

/// The modules a source declares as imports.
pub open spec fn declared_imports(source: Seq<char>) -> Seq<Seq<char>> {
    imports_of(lines_spec(source))
}

/// The characters of a list of strings.
pub open spec fn texts(v: Seq<String>) -> Seq<Seq<char>> {
    v.map_values(|s: String| s@)
}

/// Whether `s` begins with `p`.
fn begins_with(s: &[char], p: &str) -> (r: bool)
    ensures
        r == begins(s@, p@),
{
    let prefix = chars_of(p);
    crate::text::starts_with(s, prefix.as_slice())
}

/// Appends the imports of one line.
fn append_line_imports(line: &[char], out: &mut Vec<String>)
    ensures
        texts(final(out)@) == texts(old(out)@) + line_imports(line@),
{
    let end = trimmed_length(line);
    let start = leading_space(line, end);
    let t = string_of(line, start, end);
    let spelled = chars_of(t.as_str());
    proof {
        reveal_strlit("import ");
        reveal_strlit("public import ");
        assert(spelled@ == trim(line@));
    }
    let skip: usize = if begins_with(spelled.as_slice(), "import ") {
        7
    } else if begins_with(spelled.as_slice(), "public import ") {
        14
    } else {
        assert(line_imports(line@) =~= Seq::<Seq<char>>::empty());
        assert(texts(out@) =~= texts(out@) + line_imports(line@));
        return;
    };
    let rest = string_of(spelled.as_slice(), skip, spelled.len());
    let rest_spelled = chars_of(rest.as_str());
    let words = split_ascii_words(rest_spelled.as_slice());
    let ghost w = ascii_words(rest@);
    let ghost start_out = texts(out@);
    let mut i: usize = 0;
    assert(w.subrange(0, w.len() as int) =~= w);
    while i < words.len()
        invariant
            words@.len() == w.len(),
            forall|k: int| 0 <= k < words@.len() ==> (#[trigger] words@[k])@ == w[k],
            i <= words@.len(),
            before_comment(w) == w.subrange(0, i as int) + before_comment(w.subrange(i as int, w.len() as int)),
            texts(out@) == start_out + w.subrange(0, i as int),
        ensures
            texts(out@) == start_out + before_comment(w),
        decreases words@.len() - i,
    {
        proof {
            if i == words@.len() {
                assert(w.subrange(i as int, w.len() as int) =~= Seq::<Seq<char>>::empty());
            }
        }
        let word = words[i].as_slice();
        if begins_with(word, "--") {
            proof {
                assert(before_comment(w.subrange(i as int, w.len() as int)) =~= Seq::<Seq<char>>::empty());
                assert(before_comment(w) =~= w.subrange(0, i as int));
            }
            break;
        }
        let ghost before = texts(out@);
        out.push(string_of(word, 0, word.len()));
        proof {
            assert(word@.subrange(0, word@.len() as int) =~= word@);
            assert(texts(out@) =~= before.push(w[i as int]));
            let tail = w.subrange(i as int, w.len() as int);
            assert(tail.drop_first() =~= w.subrange(i + 1, w.len() as int));
            assert(before_comment(tail) == seq![w[i as int]] + before_comment(w.subrange(i + 1, w.len() as int)));
            assert(w.subrange(0, i + 1) =~= w.subrange(0, i as int).push(w[i as int]));
            assert(before_comment(w) =~= w.subrange(0, i + 1) + before_comment(w.subrange(i + 1, w.len() as int)));
        }
        i = i + 1;
    }
    proof {
        assert(import_rest(line@) == Some(rest@));
    }
}

/// The modules a source imports: on each line that, once trimmed, begins
/// with `import ` or `public import `, the words up to a comment.
pub fn imports(source: &str) -> (r: Vec<String>)
    ensures
        texts(r@) == declared_imports(source@),
{
    let spelled = chars_of(source);
    let all = lines(spelled.as_slice());
    let ghost ls = lines_spec(source@);
    let mut out: Vec<String> = Vec::new();
    let mut i: usize = 0;
    assert(texts(out@) =~= imports_of(ls.subrange(0, 0)));
    while i < all.len()
        invariant
            all@.len() == ls.len(),
            ls == lines_spec(source@),
            forall|k: int| 0 <= k < all@.len() ==> (#[trigger] all@[k])@ == ls[k],
            i <= all@.len(),
            texts(out@) == imports_of(ls.subrange(0, i as int)),
        decreases all@.len() - i,
    {
        append_line_imports(all[i].as_slice(), &mut out);
        proof {
            assert(ls.subrange(0, i + 1).drop_last() =~= ls.subrange(0, i as int));
            assert(ls.subrange(0, i + 1).last() == ls[i as int]);
        }
        i = i + 1;
    }
    assert(ls.subrange(0, ls.len() as int) =~= ls);
    out
}

/// Reads one module from its path components and its bytes: the source must
/// be UTF-8 and the path must name a module.
pub fn read_module(relative: Vec<Vec<u8>>, bytes: &[u8]) -> (r: Result<Module, Failure>)
    requires
        relative@.len() > 0,
        lean_file(relative@.last()@),
    ensures
        !valid_utf8(bytes@) ==> (r matches Err(f) && failed(f, Outcome::Unsupported, "library-encoding"@,
            "library source is not UTF-8"@)),
        valid_utf8(bytes@) ==> match dotted(module_parts(relative@.map_values(|c: Vec<u8>| c@))) {
            Err(message) => r matches Err(f) && failed(f, Outcome::Unsupported, "library-module-name"@, message),
            Ok(name) => r matches Ok(m) && m.name@ == name && m.source@ == decode_utf8(bytes@)
                && texts(m.imports@) == declared_imports(decode_utf8(bytes@))
                && m.relative == relative,
        },
{
    let source = match decode(bytes) {
        Some(s) => s,
        None => return Err(Failure::unsupported("library-encoding", owned("library source is not UTF-8"))),
    };
    let name = match module_name(relative.as_slice()) {
        Ok(n) => n,
        Err(f) => return Err(f),
    };
    let found = imports(source.as_str());
    Ok(Module { name, relative, source, imports: found })
}

/// The module names of a library, in order.
pub open spec fn names_of(modules: Seq<Module>) -> Seq<Seq<char>> {
    modules.map_values(|m: Module| m.name@)
}

/// The imports of each module of a library.
pub open spec fn imports_by_module(modules: Seq<Module>) -> Seq<Seq<Seq<char>>> {
    modules.map_values(|m: Module| texts(m.imports@))
}

/// The first module at or after `i` with the given name.
pub open spec fn position_from(names: Seq<Seq<char>>, name: Seq<char>, i: int) -> Option<int>
    decreases names.len() - i,
{
    if i < 0 || i >= names.len() {
        None
    } else if names[i] == name {
        Some(i)
    } else {
        position_from(names, name, i + 1)
    }
}

/// The library module an import names, if the library has one.
pub open spec fn position(names: Seq<Seq<char>>, name: Seq<char>) -> Option<int> {
    position_from(names, name, 0)
}

/// Every import of module `m` that names a library module names a built one.
pub open spec fn ready(names: Seq<Seq<char>>, imports: Seq<Seq<Seq<char>>>, built: Seq<bool>, m: int) -> bool {
    forall|k: int| 0 <= k < imports[m].len() ==> match #[trigger] position(names, imports[m][k]) {
        Some(j) => built[j],
        None => true,
    }
}

/// One pass over the modules from `i`, building each unbuilt module whose
/// library imports are built, in order.
pub open spec fn pass(names: Seq<Seq<char>>, imports: Seq<Seq<Seq<char>>>, built: Seq<bool>, order: Seq<int>, i: int) -> (Seq<bool>, Seq<int>)
    decreases names.len() - i,
{
    if i < 0 || i >= names.len() {
        (built, order)
    } else if !built[i] && ready(names, imports, built, i) {
        pass(names, imports, built.update(i, true), order.push(i), i + 1)
    } else {
        pass(names, imports, built, order, i + 1)
    }
}

/// Passes until every module is built, or a pass builds nothing (an import
/// cycle): the build order and whether a cycle stopped it.
pub open spec fn schedule(names: Seq<Seq<char>>, imports: Seq<Seq<Seq<char>>>, built: Seq<bool>, order: Seq<int>, fuel: nat) -> (Seq<int>, bool)
    decreases fuel,
{
    if order.len() >= names.len() {
        (order, false)
    } else {
        let (next_built, next_order) = pass(names, imports, built, order, 0);
        if next_order.len() == order.len() || fuel == 0 {
            (order, true)
        } else {
            schedule(names, imports, next_built, next_order, (fuel - 1) as nat)
        }
    }
}

/// The order in which a library's modules are compiled, and whether an
/// import cycle leaves some of them uncompiled.
pub open spec fn library_order(names: Seq<Seq<char>>, imports: Seq<Seq<Seq<char>>>) -> (Seq<int>, bool) {
    schedule(names, imports, Seq::new(names.len(), |i: int| false), Seq::empty(), names.len())
}

/// The indices of a build order as integers.
pub open spec fn indices(order: Seq<usize>) -> Seq<int> {
    order.map_values(|i: usize| i as int)
}

/// Whether every library import of module `m` is built.
pub fn can_compile(library: &Library, m: usize, built: &[bool]) -> (r: bool)
    requires
        m < library.modules@.len(),
        built@.len() == library.modules@.len(),
    ensures
        r == ready(names_of(library.modules@), imports_by_module(library.modules@), built@, m as int),
{
    let ghost names = names_of(library.modules@);
    let ghost imports = imports_by_module(library.modules@);
    let module = &library.modules[m];
    let n = library.modules.len();
    assert(imports[m as int] == texts(module.imports@));
    let mut k: usize = 0;
    while k < module.imports.len()
        invariant
            n == library.modules@.len() == built@.len(),
            names == names_of(library.modules@),
            imports == imports_by_module(library.modules@),
            *module == library.modules@[m as int],
            imports[m as int] == texts(module.imports@),
            k <= module.imports@.len(),
            forall|q: int| 0 <= q < k ==> match #[trigger] position(names, imports[m as int][q]) {
                Some(j) => built@[j],
                None => true,
            },
        decreases module.imports@.len() - k,
    {
        let wanted = module.imports[k].as_str();
        assert(imports[m as int][k as int] == wanted@);
        let mut j: usize = 0;
        let mut found: Option<usize> = None;
        while j < n && found.is_none()
            invariant
                n == library.modules@.len() == built@.len(),
                names == names_of(library.modules@),
                j <= n,
                found matches Some(f) ==> position(names, wanted@) == Some(f as int) && f < n,
                found is None ==> position(names, wanted@) == position_from(names, wanted@, j as int),
            decreases n - j,
        {
            assert(names[j as int] == library.modules@[j as int].name@);
            if crate::text::text_equal(library.modules[j].name.as_str(), wanted) {
                found = Some(j);
            }
            j = j + 1;
        }
        match found {
            Some(f) => {
                if !built[f] {
                    return false;
                }
            },
            None => {},
        }
        k = k + 1;
    }
    true
}

/// A pass only appends to the build order.
pub proof fn lemma_pass_extends(names: Seq<Seq<char>>, imports: Seq<Seq<Seq<char>>>, built: Seq<bool>, order: Seq<int>, i: int)
    requires
        built.len() == names.len(),
    ensures
        pass(names, imports, built, order, i).0.len() == built.len(),
        pass(names, imports, built, order, i).1.len() >= order.len(),
        pass(names, imports, built, order, i).1.subrange(0, order.len() as int) == order,
    decreases names.len() - i,
{
    if 0 <= i < names.len() {
        if !built[i] && ready(names, imports, built, i) {
            lemma_pass_extends(names, imports, built.update(i, true), order.push(i), i + 1);
            let r = pass(names, imports, built.update(i, true), order.push(i), i + 1).1;
            assert(r.subrange(0, order.len() as int) =~= r.subrange(0, (order.len() + 1) as int).subrange(0, order.len() as int));
        } else {
            lemma_pass_extends(names, imports, built, order, i + 1);
        }
    } else {
        assert(order.subrange(0, order.len() as int) =~= order);
    }
}

/// One pass of the build order over `built`, appending what it builds.
fn build_pass(library: &Library, built: &mut Vec<bool>, order: &mut Vec<usize>)
    requires
        old(built)@.len() == library.modules@.len(),
    ensures
        final(built)@.len() == library.modules@.len(),
        (final(built)@, indices(final(order)@)) == pass(names_of(library.modules@), imports_by_module(library.modules@),
            old(built)@, indices(old(order)@), 0),
{
    let ghost names = names_of(library.modules@);
    let ghost imports = imports_by_module(library.modules@);
    let n = library.modules.len();
    let mut i: usize = 0;
    while i < n
        invariant
            n == library.modules@.len() == built@.len(),
            names == names_of(library.modules@),
            imports == imports_by_module(library.modules@),
            i <= n,
            pass(names, imports, old(built)@, indices(old(order)@), 0) == pass(names, imports, built@, indices(order@), i as int),
        decreases n - i,
    {
        if !built[i] && can_compile(library, i, built.as_slice()) {
            let ghost before = indices(order@);
            built.set(i, true);
            order.push(i);
            assert(indices(order@) =~= before.push(i as int));
        }
        i = i + 1;
    }
}

/// The order in which to compile the modules of a library: passes in module
/// order, each compiling every module whose library imports are already
/// compiled. The flag is set when a pass compiles nothing while modules
/// remain: their local imports cannot be ordered.
pub fn compilation_order(library: &Library) -> (r: (Vec<usize>, bool))
    ensures
        (indices(r.0@), r.1) == library_order(names_of(library.modules@), imports_by_module(library.modules@)),
{
    let ghost names = names_of(library.modules@);
    let ghost imports = imports_by_module(library.modules@);
    let n = library.modules.len();
    let mut built: Vec<bool> = Vec::new();
    let mut i: usize = 0;
    while i < n
        invariant
            i <= n,
            built@ == Seq::new(i as nat, |k: int| false),
        decreases n - i,
    {
        built.push(false);
        assert(built@ =~= Seq::new((i + 1) as nat, |k: int| false));
        i = i + 1;
    }
    let mut order: Vec<usize> = Vec::new();
    let mut fuel: usize = n;
    assert(indices(order@) =~= Seq::<int>::empty());
    assert(names.len() == n);
    while order.len() < n
        invariant
            n == library.modules@.len() == built@.len() == names.len(),
            names == names_of(library.modules@),
            imports == imports_by_module(library.modules@),
            library_order(names, imports) == schedule(names, imports, built@, indices(order@), fuel as nat),
            fuel + order@.len() >= n,
        decreases fuel,
    {
        let before = order.len();
        let ghost previous_built = built@;
        let ghost previous_order = indices(order@);
        build_pass(library, &mut built, &mut order);
        proof {
            lemma_pass_extends(names, imports, previous_built, previous_order, 0);
            assert(indices(order@).len() == order@.len());
        }
        if order.len() == before {
            proof {
                assert(indices(order@) =~= previous_order);
            }
            return (order, true);
        }
        fuel = fuel - 1;
    }
    proof {
        assert(indices(order@).len() == order@.len());
    }
    (order, false)
}

/// Module `j` stands in the build order.
pub open spec fn placed(order: Seq<int>, j: int) -> bool {
    exists|q: int| 0 <= q < order.len() && order[q] == j
}

/// The build order names distinct modules of a library of `n`.
pub open spec fn distinct_modules(order: Seq<int>, n: int) -> bool {
    &&& forall|p: int| 0 <= p < order.len() ==> 0 <= #[trigger] order[p] < n
    &&& order.no_duplicates()
}

/// Every library import of a module in the order stands before it.
pub open spec fn imports_first(names: Seq<Seq<char>>, imports: Seq<Seq<Seq<char>>>, order: Seq<int>) -> bool {
    forall|p: int, k: int| 0 <= p < order.len() && 0 <= k < imports[order[p]].len() ==>
        match #[trigger] position(names, imports[order[p]][k]) {
            Some(j) => exists|q: int| 0 <= q < p && order[q] == j,
            None => true,
        }
}

/// Some library import of module `i` is not in the order.
pub open spec fn waits(names: Seq<Seq<char>>, imports: Seq<Seq<Seq<char>>>, order: Seq<int>, i: int) -> bool {
    exists|k: int| 0 <= k < imports[i].len() && match #[trigger] position(names, imports[i][k]) {
        Some(j) => !placed(order, j),
        None => false,
    }
}

/// The state of a build: what is built is exactly what stands in the order.
pub open spec fn consistent(names: Seq<Seq<char>>, imports: Seq<Seq<Seq<char>>>, built: Seq<bool>, order: Seq<int>) -> bool {
    &&& built.len() == names.len()
    &&& distinct_modules(order, names.len() as int)
    &&& imports_first(names, imports, order)
    &&& forall|j: int| 0 <= j < names.len() ==> (built[j] <==> placed(order, j))
}

proof fn lemma_pass_consistent(names: Seq<Seq<char>>, imports: Seq<Seq<Seq<char>>>, built: Seq<bool>, order: Seq<int>, i: int)
    requires
        consistent(names, imports, built, order),
        0 <= i,
    ensures
        consistent(names, imports, pass(names, imports, built, order, i).0, pass(names, imports, built, order, i).1),
    decreases names.len() - i,
{
    if i < names.len() {
        if !built[i] && ready(names, imports, built, i) {
            let b2 = built.update(i, true);
            let o2 = order.push(i);
            assert forall|j: int| 0 <= j < names.len() implies (b2[j] <==> placed(o2, j)) by {
                if j == i {
                    assert(o2[order.len() as int] == i);
                } else {
                    if placed(o2, j) {
                        let q = choose|q: int| 0 <= q < o2.len() && o2[q] == j;
                        assert(q < order.len());
                        assert(order[q] == j);
                    }
                    if placed(order, j) {
                        let q = choose|q: int| 0 <= q < order.len() && order[q] == j;
                        assert(o2[q] == j);
                    }
                }
            }
            assert(!placed(order, i));
            assert forall|a: int, b: int| 0 <= a < o2.len() && 0 <= b < o2.len() && a != b implies o2[a] != o2[b] by {
                if a == order.len() {
                    assert(o2[b] == order[b]);
                } else if b == order.len() {
                    assert(o2[a] == order[a]);
                }
            }
            assert forall|p: int, k: int| 0 <= p < o2.len() && 0 <= k < imports[o2[p]].len() implies
                match #[trigger] position(names, imports[o2[p]][k]) {
                    Some(j) => exists|q: int| 0 <= q < p && o2[q] == j,
                    None => true,
                } by {
                if p == order.len() {
                    if let Some(j) = position(names, imports[i][k]) {
                        lemma_position_in_range(names, imports[i][k], 0);
                        assert(built[j]);
                        assert(placed(order, j));
                        let q = choose|q: int| 0 <= q < order.len() && order[q] == j;
                        assert(o2[q] == j);
                    }
                } else {
                    assert(o2[p] == order[p]);
                    if let Some(j) = position(names, imports[order[p]][k]) {
                        let q = choose|q: int| 0 <= q < p && order[q] == j;
                        assert(o2[q] == j);
                    }
                }
            }
            lemma_pass_consistent(names, imports, b2, o2, i + 1);
        } else {
            lemma_pass_consistent(names, imports, built, order, i + 1);
        }
    }
}

proof fn lemma_pass_stuck(names: Seq<Seq<char>>, imports: Seq<Seq<Seq<char>>>, built: Seq<bool>, order: Seq<int>, i: int)
    requires
        built.len() == names.len(),
        0 <= i,
        pass(names, imports, built, order, i).1.len() == order.len(),
    ensures
        forall|m: int| i <= m < names.len() ==> built[m] || !ready(names, imports, built, m),
    decreases names.len() - i,
{
    if i < names.len() {
        if !built[i] && ready(names, imports, built, i) {
            lemma_pass_extends(names, imports, built.update(i, true), order.push(i), i + 1);
        } else {
            lemma_pass_stuck(names, imports, built, order, i + 1);
        }
    }
}

proof fn lemma_schedule(names: Seq<Seq<char>>, imports: Seq<Seq<Seq<char>>>, built: Seq<bool>, order: Seq<int>, fuel: nat)
    requires
        consistent(names, imports, built, order),
        fuel + order.len() >= names.len(),
    ensures
        distinct_modules(schedule(names, imports, built, order, fuel).0, names.len() as int),
        imports_first(names, imports, schedule(names, imports, built, order, fuel).0),
        !schedule(names, imports, built, order, fuel).1 ==> schedule(names, imports, built, order, fuel).0.len() >= names.len(),
        schedule(names, imports, built, order, fuel).1 ==> forall|i: int| 0 <= i < names.len()
            && !placed(schedule(names, imports, built, order, fuel).0, i)
            ==> waits(names, imports, schedule(names, imports, built, order, fuel).0, i),
    decreases fuel,
{
    if order.len() < names.len() {
        let (b2, o2) = pass(names, imports, built, order, 0);
        lemma_pass_extends(names, imports, built, order, 0);
        if o2.len() == order.len() || fuel == 0 {
            assert(o2.len() == order.len());
            lemma_pass_stuck(names, imports, built, order, 0);
            assert forall|i: int| 0 <= i < names.len() && !placed(order, i) implies waits(names, imports, order, i) by {
                assert(!built[i]);
                assert(!ready(names, imports, built, i));
                let k = choose|k: int| 0 <= k < imports[i].len() && !(match #[trigger] position(names, imports[i][k]) {
                    Some(j) => built[j],
                    None => true,
                });
                let j = position(names, imports[i][k])->0;
                lemma_position_in_range(names, imports[i][k], 0);
                assert(!placed(order, j));
            }
        } else {
            lemma_pass_consistent(names, imports, built, order, 0);
            lemma_schedule(names, imports, b2, o2, (fuel - 1) as nat);
        }
    }
}

proof fn lemma_position_in_range(names: Seq<Seq<char>>, name: Seq<char>, i: int)
    ensures
        position_from(names, name, i) matches Some(j) ==> i <= j < names.len() && names[j] == name,
    decreases names.len() - i,
{
    if 0 <= i < names.len() && names[i] != name {
        lemma_position_in_range(names, name, i + 1);
    }
}

/// Law: the compilation order compiles each module at most once, and after
/// every module of the library that it imports.
pub proof fn law_compilation_follows_imports(names: Seq<Seq<char>>, imports: Seq<Seq<Seq<char>>>)
    ensures
        distinct_modules(library_order(names, imports).0, names.len() as int),
        imports_first(names, imports, library_order(names, imports).0),
{
    lemma_library_order(names, imports);
}

proof fn lemma_library_order(names: Seq<Seq<char>>, imports: Seq<Seq<Seq<char>>>)
    ensures
        distinct_modules(library_order(names, imports).0, names.len() as int),
        imports_first(names, imports, library_order(names, imports).0),
        !library_order(names, imports).1 ==> library_order(names, imports).0.len() >= names.len(),
        library_order(names, imports).1 ==> forall|i: int| 0 <= i < names.len()
            && !placed(library_order(names, imports).0, i) ==> waits(names, imports, library_order(names, imports).0, i),
{
    let built = Seq::new(names.len(), |i: int| false);
    let order = Seq::<int>::empty();
    assert(consistent(names, imports, built, order));
    lemma_schedule(names, imports, built, order, names.len());
}

/// Law: without a cycle every module is compiled; with one, every module
/// left out imports a library module that is left out too.
pub proof fn law_compilation_complete_unless_cycle(names: Seq<Seq<char>>, imports: Seq<Seq<Seq<char>>>)
    ensures
        !library_order(names, imports).1 ==> forall|i: int| 0 <= i < names.len() ==> placed(library_order(names, imports).0, i),
        library_order(names, imports).1 ==> forall|i: int| 0 <= i < names.len()
            && !placed(library_order(names, imports).0, i) ==> waits(names, imports, library_order(names, imports).0, i),
{
    lemma_library_order(names, imports);
    let order = library_order(names, imports).0;
    if !library_order(names, imports).1 {
        let n = names.len() as int;
        order.unique_seq_to_set();
        vstd::set_lib::lemma_int_range(0, n);
        let range = vstd::set_lib::set_int_range(0, n);
        assert(order.to_set().subset_of(range)) by {
            assert forall|x: int| order.to_set().contains(x) implies range.contains(x) by {
                let q = choose|q: int| 0 <= q < order.len() && order[q] == x;
                assert(0 <= order[q] < n);
            }
        }
        vstd::set_lib::lemma_len_subset(order.to_set(), range);
        vstd::set_lib::lemma_subset_equality(order.to_set(), range);
        assert forall|i: int| 0 <= i < names.len() implies placed(order, i) by {
            assert(range.contains(i));
            assert(order.to_set().contains(i));
        }
    }
}

/// The library tree has more paths than the scan may visit.
pub fn path_limit() -> (r: Failure)
    ensures
        failed(r, Outcome::Unsupported, "library-limit"@, "library tree exceeds its finite path bound"@),
{
    Failure::unsupported("library-limit", owned("library tree exceeds its finite path bound"))
}

/// The report entry of one library module.
pub open spec fn source_entry(j: Json, m: Module) -> bool {
    &&& keys(j) == seq!["module"@, "source"@]
    &&& text_is(value_at(j, 0), m.name@)
    &&& text_is(value_at(j, 1), m.source@)
}

impl Library {
    /// The library's report: its root, the pinned toolchain, how it is
    /// identified, and every module's name and exact source.
    pub fn json(&self) -> (r: Json)
        ensures
            keys(r) == seq!["root"@, "toolchain"@, "identity"@, "sources"@],
            text_is(value_at(r, 0), self.root@),
            text_is(value_at(r, 1), crate::sandbox::PIN@),
            text_is(value_at(r, 2), "exact-source-snapshot; rebuilt without producer caches"@),
            value_at(r, 3) matches Json::Array(items) && items@.len() == self.modules@.len()
                && forall|i: int| 0 <= i < items@.len() ==> source_entry(#[trigger] items@[i], self.modules@[i]),
    {
        let mut sources: Vec<Json> = Vec::new();
        let mut i: usize = 0;
        while i < self.modules.len()
            invariant
                i <= self.modules@.len(),
                sources@.len() == i,
                forall|k: int| 0 <= k < i ==> source_entry(#[trigger] sources@[k], self.modules@[k]),
            decreases self.modules@.len() - i,
        {
            let module = &self.modules[i];
            let entry = object(vec![("module", string(module.name.as_str())), ("source", string(module.source.as_str()))]);
            assert(keys(entry) =~= seq!["module"@, "source"@]);
            sources.push(entry);
            i = i + 1;
        }
        let r = object(vec![
            ("root", string(self.root.as_str())),
            ("toolchain", string(crate::sandbox::PIN)),
            ("identity", string("exact-source-snapshot; rebuilt without producer caches")),
            ("sources", Json::Array(sources)),
        ]);
        assert(keys(r) =~= seq!["root"@, "toolchain"@, "identity"@, "sources"@]);
        r
    }
}

/// Byte order is asymmetric.
pub proof fn lemma_bytes_before_asymmetric(a: Seq<u8>, b: Seq<u8>)
    ensures
        crate::reader::bytes_before(a, b) ==> !crate::reader::bytes_before(b, a),
    decreases a.len(),
{
    if a.len() > 0 && b.len() > 0 && a[0] == b[0] {
        lemma_bytes_before_asymmetric(a.drop_first(), b.drop_first());
    }
}

/// Each module's name does not sort before the previous module's.
pub open spec fn names_sorted(modules: Seq<Module>) -> bool {
    forall|i: int| 0 <= i < modules.len() - 1 ==> !crate::reader::key_before(#[trigger] modules[i + 1].name@, modules[i].name@)
}

/// Orders modules by name (byte order of their names), keeping modules of
/// equal names in their order.
pub fn sort_by_name(modules: Vec<Module>) -> (r: Vec<Module>)
    ensures
        names_sorted(r@),
        r@.to_multiset() == modules@.to_multiset(),
        r@.len() == modules@.len(),
{
    let mut rest = modules;
    let ghost all = rest@.to_multiset();
    let mut sorted: Vec<Module> = Vec::new();
    assert(sorted@.to_multiset() =~= vstd::multiset::Multiset::empty()) by {
        broadcast use vstd::seq_lib::group_to_multiset_ensures, vstd::multiset::lemma_multiset_empty_len;
    }
    while rest.len() > 0
        invariant
            names_sorted(sorted@),
            sorted@.to_multiset().add(rest@.to_multiset()) == all,
            all == modules@.to_multiset(),
        decreases rest@.len(),
    {
        let ghost before_rest = rest@;
        let m = rest.remove(0);
        assert(rest@ == before_rest.remove(0));
        proof {
            vstd::seq_lib::to_multiset_remove(before_rest, 0);
        }
        assert(rest@.to_multiset() == before_rest.to_multiset().remove(m));
        let mut p: usize = 0;
        let mut found = false;
        while p < sorted.len() && !found
            invariant
                p <= sorted@.len(),
                forall|k: int| 0 <= k < p ==> !crate::reader::key_before(m.name@, #[trigger] sorted@[k].name@),
                found ==> p < sorted@.len() && crate::reader::key_before(m.name@, sorted@[p as int].name@),
            decreases sorted@.len() - p + (if found { 0int } else { 1int }),
        {
            let (_, before) = crate::reader::compare_keys(&m.name, &sorted[p].name);
            if before {
                found = true;
            } else {
                p = p + 1;
            }
        }
        let ghost old_sorted = sorted@;
        proof {
            if p < old_sorted.len() {
                lemma_bytes_before_asymmetric(vstd::utf8::encode_utf8(m.name@), vstd::utf8::encode_utf8(old_sorted[p as int].name@));
            }
        }
        sorted.insert(p, m);
        proof {
            let s = sorted@;
            assert(s == old_sorted.insert(p as int, m));
            assert forall|i: int| 0 <= i < s.len() - 1 implies !crate::reader::key_before(#[trigger] s[i + 1].name@, s[i].name@) by {
                if i + 1 < p {
                    assert(s[i + 1] == old_sorted[i + 1] && s[i] == old_sorted[i]);
                    assert(!crate::reader::key_before(old_sorted[i + 1].name@, old_sorted[i].name@));
                } else if i + 1 == p {
                    assert(s[i + 1] == m && s[i] == old_sorted[i]);
                    assert(!crate::reader::key_before(m.name@, old_sorted[i].name@));
                } else if i == p {
                    assert(s[i] == m && s[i + 1] == old_sorted[i]);
                    assert(found);
                } else {
                    let k = i - 1;
                    assert(s[i + 1] == old_sorted[k + 1] && s[i] == old_sorted[k]);
                    assert(!crate::reader::key_before(old_sorted[k + 1].name@, old_sorted[k].name@));
                }
            }
            vstd::seq_lib::to_multiset_insert(old_sorted, p as int, m);
            assert(sorted@.to_multiset() == old_sorted.to_multiset().insert(m));
            assert(before_rest.to_multiset().contains(m)) by {
                broadcast use vstd::seq_lib::to_multiset_contains;
                assert(before_rest[0] == m);
            }
            assert(sorted@.to_multiset().add(rest@.to_multiset()) =~= old_sorted.to_multiset().add(before_rest.to_multiset())) by {
                broadcast use vstd::multiset::group_multiset_axioms;
            }
        }
    }
    assert(rest@.to_multiset() =~= vstd::multiset::Multiset::empty()) by {
        broadcast use vstd::seq_lib::group_to_multiset_ensures, vstd::multiset::lemma_multiset_empty_len;
    }
    assert(sorted@.to_multiset() =~= all) by {
        broadcast use vstd::multiset::group_multiset_axioms;
    }
    proof {
        broadcast use vstd::seq_lib::group_to_multiset_ensures;
        assert(sorted@.len() == sorted@.to_multiset().len());
        assert(modules@.len() == modules@.to_multiset().len());
    }
    sorted
}

/// A walk of the rule-library tree under its budgets: the paths still to
/// visit (each as its components), the modules read, their bytes, and the
/// number of paths visited.
pub struct Scan {
    pub pending: Vec<Vec<Vec<u8>>>,
    pub modules: Vec<Module>,
    pub bytes: usize,
    pub visits: usize,
}

/// What the host shows at a visited path.
pub enum Entry {
    /// Its metadata could not be read; the message names path and error.
    Unavailable(String),
    Symlink,
    /// A directory, with its first entries' names (or the errors reading them).
    Directory(Vec<Result<Vec<u8>, String>>),
    File,
}

/// What to do after a visit.
#[derive(Clone, Copy, PartialEq, Eq, Structural, Debug)]
pub enum Visit {
    /// Nothing more at this path.
    Skip,
    /// Read the module's source within this many bytes, then `add` it.
    ReadModule(usize),
}

/// The components of a pending path.
pub open spec fn path_view(p: Vec<Vec<u8>>) -> Seq<Seq<u8>> {
    p@.map_values(|c: Vec<u8>| c@)
}

/// The pending paths.
pub open spec fn pending_view(pending: Seq<Vec<Vec<u8>>>) -> Seq<Seq<Seq<u8>>> {
    pending.map_values(|p: Vec<Vec<u8>>| path_view(p))
}

/// The root module's file name.
pub open spec fn root_file() -> Seq<u8> {
    "NobleContracts.lean"@.map_values(|c: char| c as u8)
}

/// A path below `relative`.
fn extend_path(relative: &Vec<Vec<u8>>, name: &[u8]) -> (r: Vec<Vec<u8>>)
    ensures
        path_view(r) == path_view(*relative).push(name@),
{
    let mut path: Vec<Vec<u8>> = Vec::new();
    let mut k: usize = 0;
    while k < relative.len()
        invariant
            k <= relative@.len(),
            path@.len() == k,
            forall|j: int| 0 <= j < k ==> (#[trigger] path@[j])@ == relative@[j]@,
        decreases relative@.len() - k,
    {
        path.push(crate::arguments::bytes_of(relative[k].as_slice()));
        k = k + 1;
    }
    path.push(crate::arguments::bytes_of(name));
    assert(path_view(path) =~= path_view(*relative).push(name@));
    path
}

impl Scan {
    /// The walk's start: the root module, and its directory when there is one
    /// (visited first).
    pub fn start(has_directory: bool) -> (r: Scan)
        ensures
            pending_view(r.pending@) == if has_directory {
                seq![seq![root_file()], seq![root_file().subrange(0, 14)]]
            } else {
                seq![seq![root_file()]]
            },
            r.modules@.len() == 0,
            r.bytes == 0,
            r.visits == 0,
    {
        let name: Vec<u8> = vec![78, 111, 98, 108, 101, 67, 111, 110, 116, 114, 97, 99, 116, 115, 46, 108, 101, 97, 110];
        let directory: Vec<u8> = vec![78, 111, 98, 108, 101, 67, 111, 110, 116, 114, 97, 99, 116, 115];
        proof {
            reveal_strlit("NobleContracts.lean");
            assert(name@ =~= root_file());
            assert(directory@ =~= root_file().subrange(0, 14));
        }
        let first = vec![name];
        assert(path_view(first) =~= seq![root_file()]);
        let mut pending: Vec<Vec<Vec<u8>>> = Vec::new();
        pending.push(first);
        if has_directory {
            let second = vec![directory];
            assert(path_view(second) =~= seq![root_file().subrange(0, 14)]);
            pending.push(second);
        }
        proof {
            if has_directory {
                assert(pending_view(pending@) =~= seq![seq![root_file()], seq![root_file().subrange(0, 14)]]);
            } else {
                assert(pending_view(pending@) =~= seq![seq![root_file()]]);
            }
        }
        Scan { pending, modules: Vec::new(), bytes: 0, visits: 0 }
    }

    /// The next path to visit (the last pending one), counted against the
    /// path budget; `None` when the walk is done.
    pub fn next(&mut self) -> (r: Result<Option<Vec<Vec<u8>>>, Failure>)
        ensures
            old(self).pending@.len() == 0 ==> (r matches Ok(None) && final(self).visits == old(self).visits),
            old(self).pending@.len() > 0 && old(self).visits + 1 > PATH_LIMIT ==> (r matches Err(f)
                && failed(f, Outcome::Unsupported, "library-limit"@, "library tree exceeds its finite path bound"@)),
            old(self).pending@.len() > 0 && old(self).visits + 1 <= PATH_LIMIT ==> (r matches Ok(Some(p))
                && p == old(self).pending@.last()
                && final(self).pending@ == old(self).pending@.drop_last()
                && final(self).visits == old(self).visits + 1),
            final(self).modules == old(self).modules,
            final(self).bytes == old(self).bytes,
    {
        if self.pending.len() == 0 {
            return Ok(None);
        }
        if self.visits >= PATH_LIMIT {
            return Err(path_limit());
        }
        let relative = self.pending.pop().unwrap();
        self.visits = self.visits + 1;
        Ok(Some(relative))
    }

    /// Judges a visited path by what the host shows there: directories add
    /// their entries to the walk, Lean files are read as modules while the
    /// module budget lasts, other files are skipped.
    pub fn visit(&mut self, relative: &Vec<Vec<u8>>, entry: Entry) -> (r: Result<Visit, Failure>)
        requires
            relative@.len() > 0,
            old(self).visits <= PATH_LIMIT,
        ensures
            entry matches Entry::Unavailable(m) ==> (r matches Err(f) && failed(f, Outcome::Unsupported, "library-unavailable"@, m@)),
            entry is Symlink ==> (r matches Err(f) && failed(f, Outcome::Unsupported, "library-symlink"@,
                "library source symlinks are not permitted"@)),
            entry is File && !lean_file(relative@.last()@) ==> r == Ok::<Visit, Failure>(Visit::Skip),
            entry is File && lean_file(relative@.last()@) && old(self).modules@.len() >= MODULE_LIMIT ==> (r matches Err(f)
                && failed(f, Outcome::Unsupported, "library-limit"@, "too many rule-library modules"@)),
            entry is File && lean_file(relative@.last()@) && old(self).modules@.len() < MODULE_LIMIT ==>
                r == Ok::<Visit, Failure>(Visit::ReadModule(if old(self).bytes <= LIBRARY_LIMIT { (LIBRARY_LIMIT - old(self).bytes) as usize } else { 0 })),
            entry matches Entry::Directory(entries) ==> (match r {
                Ok(v) => v == Visit::Skip && {
                    let n = if entries@.len() < DIRECTORY_SCAN_LIMIT { entries@.len() } else { DIRECTORY_SCAN_LIMIT as nat };
                    &&& forall|i: int| 0 <= i < n ==> (#[trigger] entries@[i]) is Ok
                    &&& n > 0 ==> old(self).pending@.len() + old(self).visits + n <= PATH_LIMIT
                    &&& final(self).pending@.len() == old(self).pending@.len() + n
                    &&& final(self).pending@.subrange(0, old(self).pending@.len() as int) == old(self).pending@
                    &&& forall|i: int| 0 <= i < n ==> path_view(#[trigger] final(self).pending@[old(self).pending@.len() + i])
                        == path_view(*relative).push(entries@[i]->Ok_0@)
                },
                Err(f) => f.outcome == Outcome::Unsupported,
            }),
            final(self).modules == old(self).modules,
            final(self).bytes == old(self).bytes,
            final(self).visits == old(self).visits,
    {
        match entry {
            Entry::Unavailable(message) => Err(Failure::unsupported("library-unavailable", message)),
            Entry::Symlink => Err(Failure::unsupported("library-symlink", owned("library source symlinks are not permitted"))),
            Entry::Directory(entries) => {
                assert(entry == Entry::Directory(entries));
                let n = if entries.len() < DIRECTORY_SCAN_LIMIT { entries.len() } else { DIRECTORY_SCAN_LIMIT };
                let ghost start = self.pending@;
                let mut i: usize = 0;
                while i < n
                    invariant
                        n <= entries@.len(),
                        n == (if entries@.len() < DIRECTORY_SCAN_LIMIT { entries@.len() } else { DIRECTORY_SCAN_LIMIT as nat }),
                        i <= n,
                        self.visits <= PATH_LIMIT,
                        self.visits == old(self).visits,
                        self.modules == old(self).modules,
                        self.bytes == old(self).bytes,
                        start == old(self).pending@,
                        self.pending@.len() == start.len() + i,
                        self.pending@.subrange(0, start.len() as int) == start,
                        forall|k: int| 0 <= k < i ==> (#[trigger] entries@[k]) is Ok,
                        i > 0 ==> start.len() + old(self).visits + i <= PATH_LIMIT,
                        entry == Entry::Directory(entries),
                        forall|k: int| 0 <= k < i ==> path_view(#[trigger] self.pending@[start.len() + k])
                            == path_view(*relative).push(entries@[k]->Ok_0@),
                    decreases n - i,
                {
                    let name = match &entries[i] {
                        Ok(name) => name,
                        Err(e) => return Err(Failure::unsupported("library-read", owned(e.as_str()))),
                    };
                    if self.pending.len() >= PATH_LIMIT - self.visits {
                        return Err(path_limit());
                    }
                    let path = extend_path(relative, name.as_slice());
                    let ghost before = self.pending@;
                    self.pending.push(path);
                    assert(self.pending@.subrange(0, start.len() as int) =~= before.subrange(0, start.len() as int));
                    i = i + 1;
                }
                Ok(Visit::Skip)
            },
            Entry::File => {
                let last = relative[relative.len() - 1].as_slice();
                if !is_lean_source(last) {
                    return Ok(Visit::Skip);
                }
                if self.modules.len() >= MODULE_LIMIT {
                    return Err(Failure::unsupported("library-limit", owned("too many rule-library modules")));
                }
                let remaining = if self.bytes <= LIBRARY_LIMIT { LIBRARY_LIMIT - self.bytes } else { 0 };
                Ok(Visit::ReadModule(remaining))
            },
        }
    }

    /// Adds a module read within the budget.
    pub fn add(&mut self, module: Module)
        ensures
            final(self).modules@ == old(self).modules@.push(module),
            final(self).bytes == (if old(self).bytes + vstd::utf8::encode_utf8(module.source@).len() > usize::MAX { usize::MAX as int }
                else { old(self).bytes + vstd::utf8::encode_utf8(module.source@).len() }),
            final(self).pending == old(self).pending,
            final(self).visits == old(self).visits,
    {
        let length = module.source.as_str().as_bytes().len();
        proof {
            vstd::utf8::encode_utf8_decode_utf8(module.source@);
        }
        self.bytes = self.bytes.saturating_add(length);
        self.modules.push(module);
    }

    /// The library the walk read, its modules ordered by name.
    pub fn finish(self, root: String) -> (r: Library)
        ensures
            r.root == root,
            names_sorted(r.modules@),
            r.modules@.to_multiset() == self.modules@.to_multiset(),
            r.modules@.len() == self.modules@.len(),
    {
        Library { root, modules: sort_by_name(self.modules) }
    }
}

/// The library root must be selected by an absolute path.
pub fn check_root_selection(selected: &str) -> (r: Result<(), Failure>)
    ensures
        crate::sandbox::absolute(selected@) ==> r is Ok,
        !crate::sandbox::absolute(selected@) ==> (r matches Err(f) && failed(f, Outcome::Unsupported,
            "consumer-configuration"@, "NOBLE_CONTRACT_LIBRARY must be absolute"@)),
{
    let spelled = chars_of(selected);
    if spelled.len() > 0 && spelled[0] == '/' {
        Ok(())
    } else {
        Err(Failure::unsupported("consumer-configuration", owned("NOBLE_CONTRACT_LIBRARY must be absolute")))
    }
}

/// The library's `lean-toolchain` file must name the pinned Lean release
/// (surrounding whitespace aside).
pub fn check_toolchain(pin: &[u8]) -> (r: Result<(), Failure>)
    ensures
        valid_utf8(pin@) && trim(decode_utf8(pin@)) == crate::sandbox::PIN@ ==> r is Ok,
        !(valid_utf8(pin@) && trim(decode_utf8(pin@)) == crate::sandbox::PIN@) ==> (r matches Err(f)
            && failed(f, Outcome::Unsupported, "library-toolchain"@, "library does not select the pinned Lean release"@)),
{
    let refused = Failure::unsupported("library-toolchain", owned("library does not select the pinned Lean release"));
    let text = match decode(pin) {
        Some(t) => t,
        None => return Err(refused),
    };
    let spelled = chars_of(text.as_str());
    let end = trimmed_length(spelled.as_slice());
    let start = leading_space(spelled.as_slice(), end);
    let trimmed = string_of(spelled.as_slice(), start, end);
    if crate::text::text_equal(trimmed.as_str(), crate::sandbox::PIN) {
        Ok(())
    } else {
        Err(refused)
    }
}

} // verus!
