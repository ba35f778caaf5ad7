//! WIT world files: reading an existing world's name, imports and includes,
//! writing a world with the generated interfaces imported, and deciding
//! which world files of an API directory to rewrite or create.
use vstd::prelude::*;
use crate::naming::{starts_with_lit, wit_ident, to_wit_ident};
use crate::text::{
    chars_of, contains_exec, contains_sub, has_prefix, join, join_exec, lemma_views_push, lines,
    lines_exec, push_all, push_str, slice_of, split_whitespace, split_ws, strip_suffixes, trim,
    trim_chars, trim_end_matches, views,
};
use crate::ts_types::{char_pos, char_pos_exec};

verus! {

/// What a world file declares: the name of its (last) `world` line, its
/// `import` lines and its distinct `include` lines, trimmed, in order.
pub struct WorldFileM {
    pub name: Option<Seq<char>>,
    pub imports: Seq<Seq<char>>,
    pub includes: Seq<Seq<char>>,
}

pub open spec fn scan_world(ls: Seq<Seq<char>>, n: int) -> WorldFileM
    decreases n,
{
    if n <= 0 || n > ls.len() {
        WorldFileM { name: None, imports: seq![], includes: seq![] }
    } else {
        let w = scan_world(ls, n - 1);
        let t = trim(ls[n - 1]);
        if has_prefix(t, "world "@) {
            let toks = split_ws(t);
            if toks.len() > 1 {
                WorldFileM { name: Some(strip_suffixes(toks[1], " {"@)), ..w }
            } else {
                w
            }
        } else if has_prefix(t, "import "@) {
            WorldFileM { imports: w.imports.push(t), ..w }
        } else if has_prefix(t, "include "@) {
            if w.includes.contains(t) {
                w
            } else {
                WorldFileM { includes: w.includes.push(t), ..w }
            }
        } else {
            w
        }
    }
}

/// What a world file's text declares.
pub open spec fn world_file(content: Seq<char>) -> WorldFileM {
    scan_world(lines(content), lines(content).len() as int)
}

/// The include lines a world gets: `types-` worlds include `lib`, others
/// keep theirs or include `process-v1`.
pub open spec fn includes_for(world: Seq<char>, inc: Seq<Seq<char>>) -> Seq<Seq<char>> {
    if has_prefix(world, "types-"@) {
        if inc.contains("include lib;"@) {
            inc
        } else {
            inc.push("include lib;"@)
        }
    } else if inc.len() == 0 {
        seq!["include process-v1;"@]
    } else {
        inc
    }
}

/// The existing imports followed by the first `n` new ones (trimmed) that
/// no import already gives.
pub open spec fn merged_imports(existing: Seq<Seq<char>>, new: Seq<Seq<char>>, n: int) -> Seq<
    Seq<char>,
>
    decreases n,
{
    if n <= 0 || n > new.len() {
        existing
    } else {
        let all = merged_imports(existing, new, n - 1);
        let stmt = trim(new[n - 1]);
        if exists|i: int| 0 <= i < all.len() && trim(#[trigger] all[i]) == stmt {
            all
        } else {
            all.push(stmt)
        }
    }
}

/// An import line indented by four spaces.
pub open spec fn indent_import(i: Seq<char>) -> Seq<char> {
    if has_prefix(i, "    "@) {
        i
    } else {
        "    "@ + trim(i)
    }
}

pub open spec fn indent_imports(is: Seq<Seq<char>>) -> Seq<Seq<char>> {
    is.map_values(|i: Seq<char>| indent_import(i))
}

/// The include lines, each indented and ended.
pub open spec fn include_block(inc: Seq<Seq<char>>) -> Seq<char>
    decreases inc.len(),
{
    if inc.len() == 0 {
        seq![]
    } else {
        include_block(inc.drop_last()) + "    "@ + inc.last() + "\n"@
    }
}

/// A world file with the given imports and includes.
pub open spec fn world_text(world: Seq<char>, imports: Seq<Seq<char>>, inc: Seq<Seq<char>>) -> Seq<
    char,
> {
    "world "@ + world + " {\n"@ + join(indent_imports(imports), "\n"@) + "\n"@ + include_block(inc)
        + "}"@
}

/// The world file written for `world`: its existing imports with the new
/// ones added, and its includes completed.
pub open spec fn wit_file_text(
    world: Seq<char>,
    new: Seq<Seq<char>>,
    existing: Seq<Seq<char>>,
    inc: Seq<Seq<char>>,
) -> Seq<char> {
    world_text(world, merged_imports(existing, new, new.len() as int), includes_for(world, inc))
}

fn contains_line(v: &Vec<Vec<char>>, x: &Vec<char>) -> (b: bool)
    ensures
        b == views(v@).contains(x@),
{
    let ghost vv = views(v@);
    let mut k: usize = 0;
    while k < v.len()
        invariant
            vv == views(v@),
            k <= v.len(),
            forall|l: int| 0 <= l < k ==> vv[l] != x@,
        decreases v.len() - k,
    {
        assert(vv[k as int] == v[k as int]@);
        if crate::text::eq_chars(&v[k], x) {
            return true;
        }
        k = k + 1;
    }
    false
}

/// Reads the name, imports and includes a world file declares.
pub fn read_world_file(content: &Vec<char>) -> (r: (Option<Vec<char>>, Vec<Vec<char>>, Vec<Vec<char>>))
    ensures
        (crate::text::opt_view(r.0), views(r.1@), views(r.2@)) == (
            world_file(content@).name,
            world_file(content@).imports,
            world_file(content@).includes,
        ),
{
    let ls = lines_exec(content);
    let ghost l = views(ls@);
    let mut name: Option<Vec<char>> = None;
    let mut imports: Vec<Vec<char>> = Vec::new();
    let mut includes: Vec<Vec<char>> = Vec::new();
    let mut i: usize = 0;
    assert(views(imports@) =~= seq![] && views(includes@) =~= seq![]);
    while i < ls.len()
        invariant
            l == views(ls@),
            l == lines(content@),
            i <= ls.len(),
            scan_world(l, i as int) == (WorldFileM {
                name: crate::text::opt_view(name),
                imports: views(imports@),
                includes: views(includes@),
            }),
        decreases ls.len() - i,
    {
        assert(l[i as int] == ls[i as int]@);
        let t = trim_chars(&ls[i]);
        if starts_with_lit(&t, "world ") {
            let toks = split_whitespace(&t);
            if toks.len() > 1 {
                assert(views(toks@)[1] == toks[1]@);
                name = Some(trim_end_matches(&toks[1], &chars_of(" {")));
            }
        } else if starts_with_lit(&t, "import ") {
            proof {
                lemma_views_push(imports@, t);
            }
            imports.push(t);
        } else if starts_with_lit(&t, "include ") {
            if !contains_line(&includes, &t) {
                proof {
                    lemma_views_push(includes@, t);
                }
                includes.push(t);
            }
        }
        i = i + 1;
    }
    (name, imports, includes)
}

/// Writes a world file: the existing imports with the new ones added where
/// no import already gives them, each indented, then the include lines,
/// which `include_lines` is completed to.
pub fn generate_wit_file(
    world_name: &Vec<char>,
    new_imports: &Vec<Vec<char>>,
    existing_imports: &Vec<Vec<char>>,
    include_lines: &mut Vec<Vec<char>>,
) -> (r: Vec<char>)
    ensures
        views(final(include_lines)@) == includes_for(world_name@, views(old(include_lines)@)),
        r@ == wit_file_text(
            world_name@,
            views(new_imports@),
            views(existing_imports@),
            views(old(include_lines)@),
        ),
{
    let ghost inc0 = views(include_lines@);
    if starts_with_lit(world_name, "types-") {
        let lib = chars_of("include lib;");
        if !contains_line(include_lines, &lib) {
            proof {
                lemma_views_push(include_lines@, lib);
            }
            include_lines.push(lib);
        }
    } else if include_lines.len() == 0 {
        let p = chars_of("include process-v1;");
        proof {
            lemma_views_push(include_lines@, p);
        }
        include_lines.push(p);
        assert(views(include_lines@) =~= seq!["include process-v1;"@]);
    }
    let ghost newv = views(new_imports@);
    let mut all: Vec<Vec<char>> = Vec::new();
    let mut i: usize = 0;
    while i < existing_imports.len()
        invariant
            i <= existing_imports.len(),
            views(all@) == views(existing_imports@).take(i as int),
        decreases existing_imports.len() - i,
    {
        proof {
            lemma_views_push(all@, existing_imports[i as int]);
        }
        all.push(existing_imports[i].clone());
        assert(views(existing_imports@).take(i + 1) =~= views(existing_imports@).take(
            i as int,
        ).push(existing_imports[i as int]@));
        i = i + 1;
    }
    assert(views(existing_imports@).take(existing_imports.len() as int) =~= views(
        existing_imports@,
    ));
    let mut j: usize = 0;
    while j < new_imports.len()
        invariant
            newv == views(new_imports@),
            j <= new_imports.len(),
            views(all@) == merged_imports(views(existing_imports@), newv, j as int),
        decreases new_imports.len() - j,
    {
        assert(newv[j as int] == new_imports[j as int]@);
        let stmt = trim_chars(&new_imports[j]);
        let ghost av = views(all@);
        let mut found = false;
        let mut k: usize = 0;
        while k < all.len()
            invariant
                av == views(all@),
                k <= all.len(),
                found == exists|m: int| 0 <= m < k && trim(#[trigger] av[m]) == stmt@,
            decreases all.len() - k,
        {
            assert(av[k as int] == all[k as int]@);
            if crate::text::eq_chars(&trim_chars(&all[k]), &stmt) {
                found = true;
            }
            k = k + 1;
        }
        if !found {
            proof {
                lemma_views_push(all@, stmt);
            }
            all.push(stmt);
        }
        j = j + 1;
    }
    let ghost allv = views(all@);
    let mut indented: Vec<Vec<char>> = Vec::new();
    let mut k: usize = 0;
    while k < all.len()
        invariant
            allv == views(all@),
            k <= all.len(),
            views(indented@) == indent_imports(allv.take(k as int)),
        decreases all.len() - k,
    {
        assert(allv[k as int] == all[k as int]@);
        let x = if starts_with_lit(&all[k], "    ") {
            all[k].clone()
        } else {
            let mut y = chars_of("    ");
            push_all(&mut y, &trim_chars(&all[k]));
            y
        };
        proof {
            lemma_views_push(indented@, x);
        }
        indented.push(x);
        assert(indent_imports(allv.take(k + 1)) =~= indent_imports(allv.take(k as int)).push(
            indent_import(allv[k as int]),
        ));
        k = k + 1;
    }
    assert(allv.take(all.len() as int) =~= allv);
    let mut out = chars_of("world ");
    push_all(&mut out, world_name);
    push_str(&mut out, " {\n");
    push_all(&mut out, &join_exec(&indented, &chars_of("\n")));
    push_str(&mut out, "\n");
    let ghost head = out@;
    let ghost incv = views(include_lines@);
    let mut m: usize = 0;
    while m < include_lines.len()
        invariant
            incv == views(include_lines@),
            m <= include_lines.len(),
            out@ == head + include_block(incv.take(m as int)),
        decreases include_lines.len() - m,
    {
        assert(incv[m as int] == include_lines[m as int]@);
        push_str(&mut out, "    ");
        push_all(&mut out, &include_lines[m]);
        push_str(&mut out, "\n");
        assert(incv.take(m + 1).drop_last() =~= incv.take(m as int));
        assert(out@ =~= head + include_block(incv.take(m + 1)));
        m = m + 1;
    }
    assert(incv.take(include_lines.len() as int) =~= incv);
    push_str(&mut out, "}");
    out
}

/// The worlds without `x`.
pub open spec fn remove_world(ws: Seq<Seq<char>>, x: Seq<char>) -> Seq<Seq<char>>
    decreases ws.len(),
{
    if ws.len() == 0 {
        seq![]
    } else if ws.last() == x {
        remove_world(ws.drop_last(), x)
    } else {
        remove_world(ws.drop_last(), x).push(ws.last())
    }
}

/// Going through the API directory's `.wit` files from the `i`-th on: each
/// world file whose world is one of `worlds` (which it then leaves), or
/// whose name past its first six bytes is, is rewritten with the new
/// imports. The name that cannot be cut where those six bytes end inside a
/// character or past its end.
pub open spec fn plan_from(
    files: Seq<Seq<char>>,
    new: Seq<Seq<char>>,
    i: int,
    worlds: Seq<Seq<char>>,
    rewrites: Seq<(int, Seq<char>)>,
) -> Result<(Seq<Seq<char>>, Seq<(int, Seq<char>)>), Seq<char>>
    decreases files.len() - i,
{
    if i < 0 || i >= files.len() {
        Ok((worlds, rewrites))
    } else {
        let c = files[i];
        let wf = world_file(c);
        if !contains_sub(c, "world "@) || wf.name is None {
            plan_from(files, new, i + 1, worlds, rewrites)
        } else {
            let name = wf.name.unwrap();
            let text = wit_file_text(name, new, wf.imports, wf.includes);
            if worlds.contains(name) {
                plan_from(files, new, i + 1, remove_world(worlds, name), rewrites.push((i, text)))
            } else {
                match char_pos(name, 6) {
                    None => Err(name),
                    Some(k) => if worlds.contains(name.skip(k)) {
                        plan_from(files, new, i + 1, worlds, rewrites.push((i, text)))
                    } else {
                        plan_from(files, new, i + 1, worlds, rewrites)
                    },
                }
            }
        }
    }
}

/// The world files created for worlds no file declared: the world itself
/// and its `types-` counterpart.
pub open spec fn creations(ws: Seq<Seq<char>>, new: Seq<Seq<char>>) -> Seq<(Seq<char>, Seq<char>)>
    decreases ws.len(),
{
    if ws.len() == 0 {
        seq![]
    } else {
        let w = ws.last();
        creations(ws.drop_last(), new) + seq![
            (w, wit_file_text(w, new, seq![], seq![])),
            ("types-"@ + w, wit_file_text("types-"@ + w, new, seq![], seq![])),
        ]
    }
}

/// The world used when no world file was written.
pub open spec fn default_world() -> Seq<char> {
    "async-app-template-dot-os-v0"@
}

/// The world files of the API directory to rewrite (by position among
/// `files`) and to create (by stem), given the files' texts, the import
/// lines of the generated interfaces and the worlds the projects target;
/// when none was written but there are imports, a default world is created.
pub open spec fn world_plan(files: Seq<Seq<char>>, new: Seq<Seq<char>>, worlds: Seq<Seq<char>>) -> Result<
    (Seq<(int, Seq<char>)>, Seq<(Seq<char>, Seq<char>)>),
    Seq<char>,
> {
    match plan_from(files, new, 0, worlds, seq![]) {
        Err(name) => Err(name),
        Ok(p) => {
            let created = creations(p.0, new);
            if p.1.len() == 0 && p.0.len() == 0 && new.len() > 0 {
                Ok(
                    (
                        p.1,
                        created.push(
                            (
                                default_world(),
                                wit_file_text(
                                    default_world(),
                                    new,
                                    seq![],
                                    seq!["include process-v1;"@],
                                ),
                            ),
                        ),
                    ),
                )
            } else {
                Ok((p.1, created))
            }
        },
    }
}

/// The world files to write: rewrites by position among the given files,
/// and new files by stem.
pub struct WorldPlan {
    pub rewrites: Vec<(usize, Vec<char>)>,
    pub creates: Vec<(Vec<char>, Vec<char>)>,
}

pub open spec fn rewrites_view(v: Seq<(usize, Vec<char>)>) -> Seq<(int, Seq<char>)> {
    v.map_values(|p: (usize, Vec<char>)| (p.0 as int, p.1@))
}

pub open spec fn creates_view(v: Seq<(Vec<char>, Vec<char>)>) -> Seq<(Seq<char>, Seq<char>)> {
    v.map_values(|p: (Vec<char>, Vec<char>)| (p.0@, p.1@))
}

fn remove_world_exec(ws: &Vec<Vec<char>>, x: &Vec<char>) -> (r: Vec<Vec<char>>)
    ensures
        views(r@) == remove_world(views(ws@), x@),
{
    let ghost wv = views(ws@);
    let mut r: Vec<Vec<char>> = Vec::new();
    let mut i: usize = 0;
    assert(views(r@) =~= seq![]);
    while i < ws.len()
        invariant
            wv == views(ws@),
            i <= ws.len(),
            views(r@) == remove_world(wv.take(i as int), x@),
        decreases ws.len() - i,
    {
        assert(wv[i as int] == ws[i as int]@);
        assert(wv.take(i + 1).drop_last() =~= wv.take(i as int));
        if !crate::text::eq_chars(&ws[i], x) {
            proof {
                lemma_views_push(r@, ws[i as int]);
            }
            r.push(ws[i].clone());
        }
        i = i + 1;
    }
    assert(wv.take(ws.len() as int) =~= wv);
    r
}

/// Decides which world files to rewrite and to create; the world name that
/// cannot be cut where there is one (see `plan_from`).
pub fn plan_world_files(
    files: &Vec<Vec<char>>,
    new_imports: &Vec<Vec<char>>,
    worlds: &Vec<Vec<char>>,
) -> (r: Result<WorldPlan, Vec<char>>)
    ensures
        match world_plan(views(files@), views(new_imports@), views(worlds@)) {
            Err(name) => r matches Err(x) && x@ == name,
            Ok(p) => r matches Ok(x) && rewrites_view(x.rewrites@) == p.0 && creates_view(
                x.creates@,
            ) == p.1,
        },
{
    let ghost fv = views(files@);
    let ghost nv = views(new_imports@);
    let mut ws: Vec<Vec<char>> = Vec::new();
    let mut c: usize = 0;
    while c < worlds.len()
        invariant
            c <= worlds.len(),
            views(ws@) == views(worlds@).take(c as int),
        decreases worlds.len() - c,
    {
        proof {
            lemma_views_push(ws@, worlds[c as int]);
        }
        ws.push(worlds[c].clone());
        assert(views(worlds@).take(c + 1) =~= views(worlds@).take(c as int).push(worlds[c as int]@));
        c = c + 1;
    }
    assert(views(worlds@).take(worlds.len() as int) =~= views(worlds@));
    let mut rewrites: Vec<(usize, Vec<char>)> = Vec::new();
    assert(rewrites_view(rewrites@) =~= seq![]);
    let mut i: usize = 0;
    proof {
        reveal_strlit("world ");
    }
    while i < files.len()
        invariant
            fv == views(files@),
            nv == views(new_imports@),
            i <= files.len(),
            plan_from(fv, nv, 0, views(worlds@), seq![]) == plan_from(
                fv,
                nv,
                i as int,
                views(ws@),
                rewrites_view(rewrites@),
            ),
        decreases files.len() - i,
    {
        let content = &files[i];
        assert(fv[i as int] == content@);
        if contains_exec(content, &chars_of("world ")) {
            let (name, imports, includes) = read_world_file(content);
            match name {
                Some(name) => {
                    let mut inc = includes;
                    let text = generate_wit_file(&name, new_imports, &imports, &mut inc);
                    let ghost rv = rewrites_view(rewrites@);
                    if contains_line(&ws, &name) {
                        ws = remove_world_exec(&ws, &name);
                        rewrites.push((i, text));
                        assert(rewrites_view(rewrites@) =~= rv.push((i as int, text@)));
                    } else {
                        match char_pos_exec(&name, 6) {
                            None => {
                                return Err(name);
                            },
                            Some(k) => {
                                let tail = slice_of(&name, k, name.len());
                                assert(tail@ =~= name@.skip(k as int));
                                if contains_line(&ws, &tail) {
                                    rewrites.push((i, text));
                                    assert(rewrites_view(rewrites@) =~= rv.push((i as int, text@)));
                                }
                            },
                        }
                    }
                },
                None => {},
            }
        }
        i = i + 1;
    }
    let mut creates: Vec<(Vec<char>, Vec<char>)> = Vec::new();
    let ghost wsv = views(ws@);
    let mut j: usize = 0;
    assert(creates_view(creates@) =~= seq![]);
    while j < ws.len()
        invariant
            wsv == views(ws@),
            nv == views(new_imports@),
            j <= ws.len(),
            creates_view(creates@) == creations(wsv.take(j as int), nv),
        decreases ws.len() - j,
    {
        let w = &ws[j];
        assert(wsv[j as int] == w@);
        let empty_imports: Vec<Vec<char>> = Vec::new();
        let mut inc1: Vec<Vec<char>> = Vec::new();
        assert(views(empty_imports@) =~= seq![] && views(inc1@) =~= seq![]);
        let t1 = generate_wit_file(w, new_imports, &empty_imports, &mut inc1);
        let mut tw = chars_of("types-");
        push_all(&mut tw, w);
        let mut inc2: Vec<Vec<char>> = Vec::new();
        assert(views(inc2@) =~= seq![]);
        let t2 = generate_wit_file(&tw, new_imports, &empty_imports, &mut inc2);
        let ghost cv = creates_view(creates@);
        creates.push((w.clone(), t1));
        creates.push((tw, t2));
        assert(wsv.take(j + 1).drop_last() =~= wsv.take(j as int));
        assert(creates_view(creates@) =~= cv + seq![(w@, t1@), ("types-"@ + w@, t2@)]);
        j = j + 1;
    }
    assert(wsv.take(ws.len() as int) =~= wsv);
    if rewrites.len() == 0 && ws.len() == 0 && new_imports.len() > 0 {
        let name = chars_of("async-app-template-dot-os-v0");
        let empty_imports: Vec<Vec<char>> = Vec::new();
        let mut inc: Vec<Vec<char>> = Vec::new();
        inc.push(chars_of("include process-v1;"));
        assert(views(empty_imports@) =~= seq![]);
        assert(views(inc@) =~= seq!["include process-v1;"@]);
        let t = generate_wit_file(&name, new_imports, &empty_imports, &mut inc);
        let ghost cv = creates_view(creates@);
        creates.push((name, t));
        assert(creates_view(creates@) =~= cv.push((default_world(), t@)));
    }
    Ok(WorldPlan { rewrites, creates })
}

/// The import line a generated interface adds to its world.
pub open spec fn import_line(interface: Seq<char>) -> Seq<char> {
    "    import "@ + wit_ident(interface) + ";"@
}

/// Writes the import line of a generated interface.
pub fn import_statement(interface: &Vec<char>) -> (r: Vec<char>)
    ensures
        r@ == import_line(interface@),
{
    let mut r = chars_of("    import ");
    push_all(&mut r, &to_wit_ident(interface));
    push_str(&mut r, ";");
    r
}

} // verus!

verus! {

/// What the toml crate reads at `package.metadata.component.package` of a
/// `Cargo.toml` text: the string there, or `None` when the text does not
/// parse or holds no string there.
pub uninterp spec fn toml_component_package(content: Seq<char>) -> Option<Seq<char>>;

/// Parses a `Cargo.toml` text with the toml crate (`str::parse::<toml::Value>`)
/// and reads `package.metadata.component.package` if it is a string.
#[verifier::external_body]
fn component_package(content: &str) -> (r: Option<String>)
    ensures
        match r {
            Some(s) => toml_component_package(content@) == Some(s@),
            None => toml_component_package(content@) is None,
        },
{
    let value: toml::Value = match content.parse() {
        Ok(v) => v,
        Err(_) => return None,
    };
    match value.get("package").and_then(|p| p.get("metadata")).and_then(|m| m.get("component")).and_then(|c| c.get("package")) {
        Some(toml::Value::String(s)) => Some(s.clone()),
        _ => None,
    }
}

/// A project's `Cargo.toml` marks it as a hyperware process component.
pub open spec fn is_process_manifest(content: Seq<char>) -> bool {
    toml_component_package(content) == Some("hyperware:process"@)
}

/// Whether the project with this `Cargo.toml` text is a hyperware process
/// (`package.metadata.component.package` is `hyperware:process`).
pub fn is_hyperware_process(cargo_toml_content: &str) -> (r: bool)
    ensures
        r == is_process_manifest(cargo_toml_content@),
{
    match component_package(cargo_toml_content) {
        Some(p) => crate::naming::eq_lit(&chars_of(p.as_str()), "hyperware:process"),
        None => false,
    }
}

/// Whether a file found under a project's `src/` is a rust source file.
pub fn is_rust_source(file_name: &str) -> (r: bool)
    ensures
        r == crate::build_rules::has_extension(file_name@, "rs"@),
{
    crate::build_rules::file_has_extension(file_name, "rs")
}

/// The imports, interfaces and worlds gathered from processed projects,
/// each given by its interface (empty when it has none) and its world: an
/// import line and the interface for each project with an interface, and
/// each world once, in the order first met.
pub open spec fn gathered(results: Seq<(Seq<char>, Seq<char>)>) -> (Seq<Seq<char>>, Seq<Seq<char>>, Seq<Seq<char>>)
    decreases results.len(),
{
    if results.len() == 0 {
        (seq![], seq![], seq![])
    } else {
        let (imports, interfaces, worlds) = gathered(results.drop_last());
        let (interface, world) = results.last();
        let worlds2 = if worlds.contains(world) { worlds } else { worlds.push(world) };
        if interface.len() > 0 {
            (imports.push(import_line(interface)), interfaces.push(interface), worlds2)
        } else {
            (imports, interfaces, worlds2)
        }
    }
}

pub open spec fn results_view(v: Seq<(Vec<char>, Vec<char>)>) -> Seq<(Seq<char>, Seq<char>)> {
    v.map_values(|p: (Vec<char>, Vec<char>)| (p.0@, p.1@))
}

/// Gathers, from the processed projects (interface, world), the import
/// lines to add, the interfaces generated, and the worlds to write.
pub fn collect_project_results(results: &Vec<(Vec<char>, Vec<char>)>) -> (r: (Vec<Vec<char>>, Vec<Vec<char>>, Vec<Vec<char>>))
    ensures
        (views(r.0@), views(r.1@), views(r.2@)) == gathered(results_view(results@)),
{
    let ghost rv = results_view(results@);
    let mut imports: Vec<Vec<char>> = Vec::new();
    let mut interfaces: Vec<Vec<char>> = Vec::new();
    let mut worlds: Vec<Vec<char>> = Vec::new();
    let mut i: usize = 0;
    while i < results.len()
        invariant
            rv == results_view(results@),
            i <= results.len(),
            (views(imports@), views(interfaces@), views(worlds@)) == gathered(rv.take(i as int)),
        decreases results.len() - i,
    {
        assert(rv.take(i + 1).drop_last() =~= rv.take(i as int));
        assert(rv.take(i + 1).last() == rv[i as int]);
        let interface = &results[i].0;
        let world = &results[i].1;
        assert(rv[i as int] == (interface@, world@));
        if !contains_line(&worlds, world) {
            proof {
                lemma_views_push(worlds@, *world);
            }
            worlds.push(world.clone());
        }
        if interface.len() > 0 {
            let line = import_statement(interface);
            proof {
                lemma_views_push(imports@, line);
                lemma_views_push(interfaces@, *interface);
            }
            imports.push(line);
            interfaces.push(interface.clone());
        }
        i = i + 1;
    }
    assert(rv.take(results.len() as int) =~= rv);
    (imports, interfaces, worlds)
}

} // verus!
