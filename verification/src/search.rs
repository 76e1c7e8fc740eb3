//! Where the scripts are looked for: the ordered candidate folders, each
//! with the file whose presence selects it.
use vstd::prelude::*;

use crate::text::{opt_view, string_of, string_views};

verus! {

/// What `std::path::Path::join` gives for `base` and `child` on the build
/// platform, as text.
pub uninterp spec fn joined_path(base: Seq<char>, child: Seq<char>) -> Seq<char>;

/// What `std::path::Path::parent` gives for `path` on the build platform,
/// as text.
pub uninterp spec fn parent_path(path: Seq<char>) -> Option<Seq<char>>;

/// Whether `std::path::Path` compares the two paths equal (component by
/// component) on the build platform.
pub uninterp spec fn paths_equal(a: Seq<char>, b: Seq<char>) -> bool;

/// `std::path::Path::join`, read back as text.
///
/// Claims the result is `joined_path` of the two texts. Joining two valid
/// texts gives valid text, so reading it back loses nothing.
#[verifier::external_body]
fn path_join(base: &str, child: &str) -> (r: String)
    ensures
        r@ == joined_path(base@, child@),
{
    std::path::Path::new(base).join(child).to_string_lossy().into_owned()
}

/// `std::path::Path::parent`, read back as text.
///
/// Claims the result is `parent_path` of the text, and that a parent is
/// shorter than the path: std returns the part of the path before its last
/// component, which is never empty.
#[verifier::external_body]
fn path_parent(path: &str) -> (r: Option<String>)
    ensures
        opt_view(r) == parent_path(path@),
        r matches Some(q) ==> q@.len() < path@.len(),
{
    std::path::Path::new(path).parent().map(|q| q.to_string_lossy().into_owned())
}

/// `PartialEq` of `std::path::Path`.
///
/// Claims the result is `paths_equal` of the two texts.
#[verifier::external_body]
fn same_path(a: &str, b: &str) -> (r: bool)
    ensures
        r == paths_equal(a@, b@),
{
    std::path::Path::new(a) == std::path::Path::new(b)
}

/// `Path::ancestors`: the path itself, then each parent in turn.
pub open spec fn ancestors_spec(path: Seq<char>) -> Seq<Seq<char>>
    decreases path.len(),
{
    match parent_path(path) {
        Some(q) => if q.len() < path.len() {
            seq![path] + ancestors_spec(q)
        } else {
            seq![path]
        },
        None => seq![path],
    }
}

/// The paths of `s` in order, each kept only when no earlier kept path is
/// equal to it (what a set of seen paths lets through).
pub open spec fn distinct_paths(s: Seq<Seq<char>>) -> Seq<Seq<char>>
    decreases s.len(),
{
    if s.len() == 0 {
        s
    } else {
        let d = distinct_paths(s.drop_last());
        if exists|j: int| 0 <= j < d.len() && paths_equal(#[trigger] d[j], s.last()) {
            d
        } else {
            d.push(s.last())
        }
    }
}

pub open spec fn opt_ancestors(start: Option<Seq<char>>) -> Seq<Seq<char>> {
    match start {
        Some(p) => ancestors_spec(p),
        None => Seq::empty(),
    }
}

/// The folders searched upwards: the ancestors of the working directory,
/// then those of the program's directory, each once.
pub open spec fn searched_ancestors(cwd: Option<Seq<char>>, exe_dir: Option<Seq<char>>) -> Seq<
    Seq<char>,
> {
    distinct_paths(opt_ancestors(cwd) + opt_ancestors(exe_dir))
}

/// A folder's `python-core` subfolder with its `train.py`.
pub open spec fn core_probe(folder: Seq<char>) -> (Seq<char>, Seq<char>) {
    let c = joined_path(folder, "python-core"@);
    (c, joined_path(c, "train.py"@))
}

/// Where the script folder is looked for, in order, as (folder, file whose
/// presence selects it): the resources' `python-core`, the resource folder
/// itself, then `python-core` in each searched ancestor.
pub open spec fn python_core_candidates_spec(
    resource_dir: Option<Seq<char>>,
    cwd: Option<Seq<char>>,
    exe_dir: Option<Seq<char>>,
) -> Seq<(Seq<char>, Seq<char>)> {
    let from_resources = match resource_dir {
        Some(r) => seq![core_probe(r), (r, joined_path(r, "train.py"@))],
        None => Seq::empty(),
    };
    from_resources + searched_ancestors(cwd, exe_dir).map_values(|a: Seq<char>| core_probe(a))
}

/// Where the project root is looked for, in order: each searched ancestor,
/// selected by its `python-core/train.py`.
pub open spec fn project_root_candidates_spec(cwd: Option<Seq<char>>, exe_dir: Option<Seq<char>>) -> Seq<
    (Seq<char>, Seq<char>),
> {
    searched_ancestors(cwd, exe_dir).map_values(|a: Seq<char>| (a, core_probe(a).1))
}

/// The script folders tried under a project root, in order: `python-core`,
/// `../python-core`, `resources/python-core`, each selected by its
/// `train.py`.
pub open spec fn python_core_dir_candidates_spec(root: Seq<char>) -> Seq<(Seq<char>, Seq<char>)> {
    seq![
        core_probe(root),
        core_probe(joined_path(root, ".."@)),
        core_probe(joined_path(root, "resources"@)),
    ]
}

/// The views of a vector of pairs of strings.
pub open spec fn pair_views(v: Seq<(String, String)>) -> Seq<(Seq<char>, Seq<char>)> {
    v.map_values(|p: (String, String)| (p.0@, p.1@))
}

/// `Path::ancestors` of `path`.
pub fn ancestors_of(path: &str) -> (r: Vec<String>)
    ensures
        string_views(r@) == ancestors_spec(path@),
{
    let mut out: Vec<String> = Vec::new();
    let mut cur = string_of(path);
    proof {
        assert(string_views(out@) + ancestors_spec(cur@) =~= ancestors_spec(path@));
    }
    loop
        invariant
            ancestors_spec(path@) == string_views(out@) + ancestors_spec(cur@),
        decreases cur@.len(),
    {
        let parent = path_parent(cur.as_str());
        let ghost prev = out@;
        let c = cur.clone();
        out.push(c);
        proof {
            assert(string_views(out@) =~= string_views(prev).push(cur@));
        }
        match parent {
            Some(q) => {
                proof {
                    assert(ancestors_spec(cur@) == seq![cur@] + ancestors_spec(q@));
                    assert(string_views(prev) + (seq![cur@] + ancestors_spec(q@)) =~= string_views(
                        prev,
                    ).push(cur@) + ancestors_spec(q@));
                }
                cur = q;
            },
            None => {
                proof {
                    assert(ancestors_spec(cur@) == seq![cur@]);
                    assert(string_views(prev) + seq![cur@] =~= string_views(prev).push(cur@));
                }
                return out;
            },
        }
    }
}

/// The paths of `paths` in order, each only when not equal to an earlier
/// kept one.
pub fn distinct_in_order(paths: &Vec<String>) -> (r: Vec<String>)
    ensures
        string_views(r@) == distinct_paths(string_views(paths@)),
{
    let ghost all = string_views(paths@);
    let mut out: Vec<String> = Vec::new();
    let mut i: usize = 0;
    proof {
        assert(all.take(0) =~= Seq::<Seq<char>>::empty());
        assert(string_views(out@) =~= Seq::<Seq<char>>::empty());
    }
    while i < paths.len()
        invariant
            i <= paths@.len(),
            all == string_views(paths@),
            string_views(out@) == distinct_paths(all.take(i as int)),
        decreases paths.len() - i,
    {
        let ghost d = string_views(out@);
        let mut found = false;
        let mut j: usize = 0;
        while j < out.len()
            invariant
                j <= out@.len(),
                d == string_views(out@),
                i < paths@.len(),
                found <==> exists|m: int| 0 <= m < j && paths_equal(#[trigger] d[m], paths@[i as int]@),
            decreases out.len() - j,
        {
            let eq = same_path(out[j].as_str(), paths[i].as_str());
            proof {
                assert(d[j as int] == out@[j as int]@);
            }
            if eq {
                found = true;
            }
            j = j + 1;
        }
        proof {
            assert(all.take(i + 1).drop_last() =~= all.take(i as int));
            assert(all.take(i + 1).last() == paths@[i as int]@);
        }
        if !found {
            let p = paths[i].clone();
            out.push(p);
            proof {
                assert(string_views(out@) =~= d.push(paths@[i as int]@));
            }
        }
        i = i + 1;
    }
    proof {
        assert(all.take(paths@.len() as int) =~= all);
    }
    out
}

fn searched_folders(cwd: Option<String>, exe_dir: Option<String>) -> (r: Vec<String>)
    ensures
        string_views(r@) == searched_ancestors(opt_view(cwd), opt_view(exe_dir)),
{
    let mut all: Vec<String> = match &cwd {
        Some(c) => ancestors_of(c.as_str()),
        None => Vec::new(),
    };
    let mut rest: Vec<String> = match &exe_dir {
        Some(e) => ancestors_of(e.as_str()),
        None => Vec::new(),
    };
    let ghost a = string_views(all@);
    let ghost b = string_views(rest@);
    all.append(&mut rest);
    proof {
        assert(string_views(all@) =~= a + b);
        assert(a =~= opt_ancestors(opt_view(cwd)));
        assert(b =~= opt_ancestors(opt_view(exe_dir)));
    }
    distinct_in_order(&all)
}

fn probe_of(folder: &str) -> (r: (String, String))
    ensures
        (r.0@, r.1@) == core_probe(folder@),
{
    let c = path_join(folder, "python-core");
    let f = path_join(c.as_str(), "train.py");
    (c, f)
}

/// Where the script folder is looked for, in order, with the file whose
/// presence selects each: the resource folder's `python-core`, the resource
/// folder itself, then `python-core` in the ancestors of the working
/// directory and of the program's directory, each folder once.
pub fn python_core_candidates(
    resource_dir: Option<String>,
    cwd: Option<String>,
    exe_dir: Option<String>,
) -> (r: Vec<(String, String)>)
    ensures
        pair_views(r@) == python_core_candidates_spec(
            opt_view(resource_dir),
            opt_view(cwd),
            opt_view(exe_dir),
        ),
{
    let mut out: Vec<(String, String)> = Vec::new();
    match &resource_dir {
        Some(r) => {
            out.push(probe_of(r.as_str()));
            let f = path_join(r.as_str(), "train.py");
            out.push((r.clone(), f));
        },
        None => {},
    }
    let ghost first = pair_views(out@);
    proof {
        assert(first =~= match opt_view(resource_dir) {
            Some(r) => seq![core_probe(r), (r, joined_path(r, "train.py"@))],
            None => Seq::empty(),
        });
    }
    let folders = searched_folders(cwd, exe_dir);
    let ghost fs = string_views(folders@);
    let start = out.len();
    let mut k: usize = 0;
    while k < folders.len()
        invariant
            k <= folders@.len(),
            fs == string_views(folders@),
            start == first.len(),
            out@.len() == start + k,
            pair_views(out@) == first + fs.take(k as int).map_values(|a: Seq<char>| core_probe(a)),
        decreases folders.len() - k,
    {
        let ghost prev = out@;
        let p = probe_of(folders[k].as_str());
        out.push(p);
        proof {
            let g = |a: Seq<char>| core_probe(a);
            assert(fs[k as int] == folders@[k as int]@);
            assert(fs.take(k + 1) =~= fs.take(k as int).push(fs[k as int]));
            assert(fs.take(k + 1).map_values(g) =~= fs.take(k as int).map_values(g).push(g(fs[k as int])));
            assert(pair_views(out@) =~= pair_views(prev).push(g(fs[k as int])));
        }
        k = k + 1;
    }
    proof {
        assert(fs.take(folders@.len() as int) =~= fs);
    }
    out
}

/// Where the project root is looked for, in order: each ancestor of the
/// working directory and of the program's directory, once, with its
/// `python-core/train.py`.
pub fn project_root_candidates(cwd: Option<String>, exe_dir: Option<String>) -> (r: Vec<
    (String, String),
>)
    ensures
        pair_views(r@) == project_root_candidates_spec(opt_view(cwd), opt_view(exe_dir)),
{
    let folders = searched_folders(cwd, exe_dir);
    let ghost fs = string_views(folders@);
    let mut out: Vec<(String, String)> = Vec::new();
    let mut k: usize = 0;
    while k < folders.len()
        invariant
            k <= folders@.len(),
            fs == string_views(folders@),
            out@.len() == k,
            pair_views(out@) == fs.take(k as int).map_values(|a: Seq<char>| (a, core_probe(a).1)),
        decreases folders.len() - k,
    {
        let ghost prev = out@;
        let p = probe_of(folders[k].as_str());
        let f = folders[k].clone();
        proof {
            assert(f@ == folders@[k as int]@);
        }
        out.push((f, p.1));
        proof {
            let g = |a: Seq<char>| (a, core_probe(a).1);
            assert(fs[k as int] == folders@[k as int]@);
            assert(fs.take(k + 1) =~= fs.take(k as int).push(fs[k as int]));
            assert(fs.take(k + 1).map_values(g) =~= fs.take(k as int).map_values(g).push(g(fs[k as int])));
            assert(pair_views(out@) =~= pair_views(prev).push(g(fs[k as int])));
        }
        k = k + 1;
    }
    proof {
        assert(fs.take(folders@.len() as int) =~= fs);
    }
    out
}

/// The script folders tried under a project root, in order.
pub fn python_core_dir_candidates(root: &str) -> (r: Vec<(String, String)>)
    ensures
        pair_views(r@) == python_core_dir_candidates_spec(root@),
{
    let up = path_join(root, "..");
    let res = path_join(root, "resources");
    let mut out: Vec<(String, String)> = Vec::new();
    out.push(probe_of(root));
    out.push(probe_of(up.as_str()));
    out.push(probe_of(res.as_str()));
    proof {
        assert(pair_views(out@) =~= python_core_dir_candidates_spec(root@));
    }
    out
}

/// The folder used when no candidate has the script: `python-core` next to
/// the program, or a relative `python-core`.
pub fn python_core_fallback(exe_dir: Option<String>) -> (r: String)
    ensures
        r@ == (match opt_view(exe_dir) {
            Some(d) => joined_path(d, "python-core"@),
            None => "python-core"@,
        }),
{
    match &exe_dir {
        Some(d) => path_join(d.as_str(), "python-core"),
        None => string_of("python-core"),
    }
}

/// The first candidate whose file was found: the least index at which
/// `found` holds, or `None` when it holds nowhere.
pub fn first_found(found: &Vec<bool>) -> (r: Option<usize>)
    ensures
        match r {
            Some(i) => i < found@.len() && found@[i as int] && forall|j: int|
                0 <= j < i ==> !#[trigger] found@[j],
            None => forall|j: int| 0 <= j < found@.len() ==> !#[trigger] found@[j],
        },
{
    let mut i: usize = 0;
    while i < found.len()
        invariant
            i <= found@.len(),
            forall|j: int| 0 <= j < i ==> !#[trigger] found@[j],
        decreases found.len() - i,
    {
        if found[i] {
            return Some(i);
        }
        i = i + 1;
    }
    None
}

} // verus!
