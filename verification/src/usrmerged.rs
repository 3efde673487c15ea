//! Checks for files that moved between `/` and `/usr` (the `/usr` merge):
//! the lines of `Contents` files, and how a file of stable compares with
//! the same file under the other prefix in testing.

use vstd::prelude::*;

use vstd::hash_map::StringHashMap;

use crate::strings::{split_words, starts_with, views, words};
use crate::text::{chars_of, find_char, has_prefix, lemma_first_index, split_all, split_once, split_str, string_of};

verus! {

/// Paths that are known not to be affected.
pub open spec fn skipped_path(path: Seq<char>) -> bool {
    ||| has_prefix(path, "boot/"@)
    ||| has_prefix(path, "etc/"@)
    ||| has_prefix(path, "lib/modules/"@)
    ||| has_prefix(path, "usr/src/"@)
    ||| has_prefix(path, "usr/share/doc"@)
    ||| has_prefix(path, "var/"@)
}

/// Whether a path is known not to be affected.
pub fn skip_path(path: &str) -> (r: bool)
    ensures
        r == skipped_path(path@),
{
    starts_with(path, "boot/") || starts_with(path, "etc/") || starts_with(path, "lib/modules/") || starts_with(
        path,
        "usr/src/",
    ) || starts_with(path, "usr/share/doc") || starts_with(path, "var/")
}

/// A package of a `Contents` file without its section.
pub open spec fn without_section(package: Seq<char>) -> Seq<char> {
    match split_once(package, '/') {
        Some(p) => p.1,
        None => package,
    }
}

/// A package of a `Contents` file without its section.
pub fn strip_section(package: &str) -> (r: String)
    ensures
        r@ == without_section(package@),
{
    let v = chars_of(package);
    let i = find_char(&v, '/');
    proof {
        lemma_first_index(v@, '/');
    }
    if i < v.len() {
        string_of(&v, i + 1, v.len())
    } else {
        let r = string_of(&v, 0, v.len());
        assert(r@ =~= package@);
        r
    }
}

/// The same path under the other prefix: without `usr/`, or with it.
pub open spec fn path_to_test(path: Seq<char>) -> Seq<char> {
    if has_prefix(path, "usr/"@) {
        path.subrange(4, path.len() as int)
    } else {
        "usr/"@ + path
    }
}

/// Taking the path under the other prefix twice gives the path back, for
/// paths that do not start with `usr/usr/`.
pub proof fn lemma_path_to_test_twice(path: Seq<char>)
    requires
        !has_prefix(path, "usr/usr/"@),
    ensures
        path_to_test(path_to_test(path)) == path,
{
    reveal_strlit("usr/");
    reveal_strlit("usr/usr/");
    if has_prefix(path, "usr/"@) {
        let p = path.subrange(4, path.len() as int);
        if has_prefix(p, "usr/"@) {
            assert(path.subrange(0, 8) =~= "usr/usr/"@) by {
                assert(path.subrange(0, 4) =~= "usr/"@);
                assert(p.subrange(0, 4) =~= "usr/"@);
                assert forall|j: int| 0 <= j < 8 implies path.subrange(0, 8)[j] == "usr/usr/"@[j] by {
                    if j < 4 {
                        assert(path.subrange(0, 4)[j] == path[j]);
                    } else {
                        assert(p.subrange(0, 4)[j - 4] == path[j]);
                    }
                }
            }
        }
        assert(path_to_test(path) == p);
        assert("usr/"@ + p =~= path) by {
            assert(path.subrange(0, 4) =~= "usr/"@);
        }
    } else {
        let q = "usr/"@ + path;
        assert(q.subrange(0, 4) =~= "usr/"@);
        assert(has_prefix(q, "usr/"@));
        assert(q.subrange(4, q.len() as int) =~= path);
    }
}

/// The same path under the other prefix.
pub fn compute_path_to_test(path: &str) -> (r: String)
    ensures
        r@ == path_to_test(path@),
{
    proof {
        reveal_strlit("usr/");
    }
    if starts_with(path, "usr/") {
        let v = chars_of(path);
        string_of(&v, 4, v.len())
    } else {
        let mut r = String::from_str("usr/");
        r.append(path);
        r
    }
}

/// What a line of a `Contents` file gives: the path and its packages
/// without sections; nothing for lines of fewer than two words and, unless
/// asked, for paths known not to be affected.
pub open spec fn contents_line(line: Seq<char>, no_skip: bool) -> Option<(Seq<char>, Seq<Seq<char>>)> {
    let ws = words(line, false);
    if ws.len() < 2 {
        None
    } else if !no_skip && skipped_path(ws[0]) {
        None
    } else {
        Some((ws[0], split_all(ws[1], ',').map_values(|p: Seq<char>| without_section(p))))
    }
}

/// Reads a line of a `Contents` file.
pub fn parse_contents_line(line: &str, no_skip: bool) -> (r: Option<(String, Vec<String>)>)
    ensures
        match contents_line(line@, no_skip) {
            Some((p, ps)) => r matches Some((q, qs)) && q@ == p && views(qs@) == ps,
            None => r is None,
        },
{
    let ws = split_words(line, false);
    let ghost all = words(line@, false);
    if ws.len() < 2 {
        return None;
    }
    assert(all[0] == ws@[0]@ && all[1] == ws@[1]@);
    if !no_skip && skip_path(ws[0].as_str()) {
        return None;
    }
    let pieces = split_str(ws[1].as_str(), ',');
    let ghost ps = split_all(all[1], ',');
    let mut packages: Vec<String> = Vec::new();
    let mut i: usize = 0;
    while i < pieces.len()
        invariant
            i <= pieces.len(),
            views(pieces@) == ps,
            views(packages@) == ps.subrange(0, i as int).map_values(|p: Seq<char>| without_section(p)),
        decreases pieces.len() - i,
    {
        let s = strip_section(pieces[i].as_str());
        let ghost before = views(packages@);
        packages.push(s);
        assert(views(packages@) =~= before.push(s@));
        assert(ps[i as int] == pieces@[i as int]@);
        assert(ps.subrange(0, i + 1).map_values(|p: Seq<char>| without_section(p)) =~= ps.subrange(
            0,
            i as int,
        ).map_values(|p: Seq<char>| without_section(p)).push(s@));
        i = i + 1;
    }
    assert(ps.subrange(0, pieces.len() as int) =~= ps);
    Some((crate::text::string_from(ws[0].as_str()), packages))
}

/// Two lists of packages hold the same packages.
pub open spec fn same_packages(a: Seq<Seq<char>>, b: Seq<Seq<char>>) -> bool {
    forall|x: Seq<char>| a.contains(x) <==> b.contains(x)
}

/// How a file of stable compares with testing.
#[derive(Debug, Clone, Copy, PartialEq, Eq, Structural)]
pub enum MoveOutcome {
    /// The other path is not in testing
    NotFound,
    /// The file is also in another package
    AlsoInOtherPackage,
    /// The file moved to other packages
    Moved,
    /// The file moved within the same packages
    MovedInPackage,
    /// The file was only renamed
    Renamed,
}

/// How a file of stable compares with testing: the packages of the other
/// path in testing (`new`) and of the same path (`old`).
pub open spec fn move_outcome(
    stable: Seq<Seq<char>>,
    new: Option<Seq<Seq<char>>>,
    old: Seq<Seq<char>>,
    include_moved_in_package: bool,
) -> MoveOutcome {
    match new {
        None => MoveOutcome::NotFound,
        Some(n) => if !same_packages(stable, n) {
            if same_packages(stable, old) {
                MoveOutcome::AlsoInOtherPackage
            } else {
                MoveOutcome::Moved
            }
        } else if include_moved_in_package {
            MoveOutcome::MovedInPackage
        } else {
            MoveOutcome::Renamed
        },
    }
}

/// Whether the first list holds every package of the second.
fn holds_all(a: &Vec<String>, b: &Vec<String>) -> (r: bool)
    ensures
        r == forall|x: Seq<char>| views(b@).contains(x) ==> views(a@).contains(x),
{
    let mut j: usize = 0;
    while j < b.len()
        invariant
            j <= b.len(),
            forall|k: int| 0 <= k < j ==> views(a@).contains(#[trigger] b@[k]@),
        decreases b.len() - j,
    {
        let mut i: usize = 0;
        let mut found = false;
        while i < a.len() && !found
            invariant
                i <= a.len(),
                j < b.len(),
                found ==> views(a@).contains(b@[j as int]@),
                !found ==> forall|k: int| 0 <= k < i ==> a@[k]@ != b@[j as int]@,
            decreases a.len() - i,
        {
            if crate::text::str_eq(a[i].as_str(), b[j].as_str()) {
                assert(views(a@)[i as int] == b@[j as int]@);
                found = true;
            }
            i = i + 1;
        }
        if !found {
            assert(!views(a@).contains(b@[j as int]@)) by {
                if views(a@).contains(b@[j as int]@) {
                    let k = choose|k: int| 0 <= k < views(a@).len() && views(a@)[k] == b@[j as int]@;
                    assert(a@[k]@ == views(a@)[k]);
                }
            }
            assert(views(b@)[j as int] == b@[j as int]@);
            return false;
        }
        j = j + 1;
    }
    assert forall|x: Seq<char>| views(b@).contains(x) implies views(a@).contains(x) by {
        let k = choose|k: int| 0 <= k < views(b@).len() && views(b@)[k] == x;
        assert(b@[k]@ == x);
    }
    true
}

/// Whether two lists hold the same packages.
pub fn same_package_set(a: &Vec<String>, b: &Vec<String>) -> (r: bool)
    ensures
        r == same_packages(views(a@), views(b@)),
{
    holds_all(a, b) && holds_all(b, a)
}

/// How a file of stable compares with testing.
pub fn classify_move(
    stable: &Vec<String>,
    new: Option<&Vec<String>>,
    old: &Vec<String>,
    include_moved_in_package: bool,
) -> (r: MoveOutcome)
    ensures
        r == move_outcome(
            views(stable@),
            match new {
                Some(n) => Some(views(n@)),
                None => None,
            },
            views(old@),
            include_moved_in_package,
        ),
{
    match new {
        None => MoveOutcome::NotFound,
        Some(n) => if !same_package_set(stable, n) {
            if same_package_set(stable, old) {
                MoveOutcome::AlsoInOtherPackage
            } else {
                MoveOutcome::Moved
            }
        } else if include_moved_in_package {
            MoveOutcome::MovedInPackage
        } else {
            MoveOutcome::Renamed
        },
    }
}

/// The packages of a path in testing: those for the architecture and
/// those for `all`, where there are any.
pub open spec fn testing_packages(arch: Option<Seq<Seq<char>>>, all: Option<Seq<Seq<char>>>) -> Option<Seq<Seq<char>>> {
    match (arch, all) {
        (None, None) => None,
        (Some(p), None) => Some(p),
        (None, Some(p)) => Some(p),
        (Some(p), Some(q)) => Some(p + q),
    }
}

/// The packages of a path in testing, for the architecture and for `all`.
pub fn join_testing_packages(arch: Option<&Vec<String>>, all: Option<&Vec<String>>) -> (r: Option<Vec<String>>)
    ensures
        match testing_packages(
            match arch {
                Some(p) => Some(views(p@)),
                None => None,
            },
            match all {
                Some(p) => Some(views(p@)),
                None => None,
            },
        ) {
            Some(ps) => r matches Some(v) && views(v@) == ps,
            None => r is None,
        },
{
    match (arch, all) {
        (None, None) => None,
        (Some(p), None) => Some(copy_strings(p)),
        (None, Some(p)) => Some(copy_strings(p)),
        (Some(p), Some(q)) => {
            let mut v = copy_strings(p);
            let w = copy_strings(q);
            let mut i: usize = 0;
            let ghost start = views(v@);
            while i < w.len()
                invariant
                    i <= w.len(),
                    views(v@) == start + views(w@).subrange(0, i as int),
                decreases w.len() - i,
            {
                let s = crate::text::string_from(w[i].as_str());
                let ghost before = views(v@);
                v.push(s);
                assert(views(v@) =~= before.push(s@));
                assert(views(w@).subrange(0, i + 1) =~= views(w@).subrange(0, i as int).push(w@[i as int]@));
                i = i + 1;
            }
            assert(views(w@).subrange(0, w.len() as int) =~= views(w@));
            Some(v)
        },
    }
}

/// A copy of a list of strings.
fn copy_strings(p: &Vec<String>) -> (r: Vec<String>)
    ensures
        views(r@) == views(p@),
{
    let mut v: Vec<String> = Vec::new();
    let mut i: usize = 0;
    while i < p.len()
        invariant
            i <= p.len(),
            views(v@) == views(p@).subrange(0, i as int),
        decreases p.len() - i,
    {
        let s = crate::text::string_from(p[i].as_str());
        let ghost before = views(v@);
        v.push(s);
        assert(views(v@) =~= before.push(s@));
        assert(views(p@).subrange(0, i + 1) =~= views(p@).subrange(0, i as int).push(p@[i as int]@));
        i = i + 1;
    }
    assert(views(p@).subrange(0, p.len() as int) =~= views(p@));
    v
}

/// The files of a `Contents` file: each path with the packages that ship
/// it (the last line of a path counts).
pub struct ContentsMap {
    files: StringHashMap<Vec<String>>,
}

impl View for ContentsMap {
    type V = Map<Seq<char>, Seq<Seq<char>>>;

    closed spec fn view(&self) -> Map<Seq<char>, Seq<Seq<char>>> {
        self.files@.map_values(|v: Vec<String>| views(v@))
    }
}

/// The packages of a path, if the map has it.
pub open spec fn packages_at(m: Map<Seq<char>, Seq<Seq<char>>>, path: Seq<char>) -> Option<Seq<Seq<char>>> {
    if m.contains_key(path) {
        Some(m[path])
    } else {
        None
    }
}

impl ContentsMap {
    /// An empty map.
    pub fn new() -> (r: Self)
        ensures
            r@ == Map::<Seq<char>, Seq<Seq<char>>>::empty(),
    {
        let r = ContentsMap { files: StringHashMap::new() };
        assert(r@ =~= Map::<Seq<char>, Seq<Seq<char>>>::empty());
        r
    }

    /// Adds what a line of a `Contents` file gives.
    pub fn insert_line(&mut self, line: &str, no_skip: bool)
        ensures
            final(self)@ == (match contents_line(line@, no_skip) {
                Some((p, ps)) => old(self)@.insert(p, ps),
                None => old(self)@,
            }),
    {
        match parse_contents_line(line, no_skip) {
            Some((path, packages)) => {
                let ghost k = path@;
                let ghost v = packages@;
                self.files.insert(path, packages);
                assert(self@ =~= old(self)@.insert(k, views(v)));
            },
            None => {},
        }
    }

    /// The packages of a path, if the map has it.
    pub fn get(&self, path: &str) -> (r: Option<&Vec<String>>)
        ensures
            match packages_at(self@, path@) {
                Some(ps) => r matches Some(v) && views(v@) == ps,
                None => r is None,
            },
    {
        self.files.get(path)
    }
}

/// How a file of stable moved: its path, the other path, the outcome,
/// and the packages in stable and in testing.
#[derive(Debug)]
pub struct MoveReport {
    pub path: String,
    pub path_to_test: String,
    pub outcome: MoveOutcome,
    pub stable_packages: Vec<String>,
    pub testing_packages: Vec<String>,
}

/// What is reported of a file: path, other path, outcome, packages in
/// stable and in testing.
pub open spec fn report_view(r: MoveReport) -> (Seq<char>, Seq<char>, MoveOutcome, Seq<Seq<char>>, Seq<Seq<char>>) {
    (r.path@, r.path_to_test@, r.outcome, views(r.stable_packages@), views(r.testing_packages@))
}

/// A file of stable on an architecture against testing on that
/// architecture and `all`: nothing where testing has no file under the
/// other path; else how it moved.
pub open spec fn arch_move(
    path: Seq<char>,
    stable: Seq<Seq<char>>,
    testing: Map<Seq<char>, Seq<Seq<char>>>,
    testing_all: Map<Seq<char>, Seq<Seq<char>>>,
    include_moved_in_package: bool,
) -> Option<(Seq<char>, Seq<char>, MoveOutcome, Seq<Seq<char>>, Seq<Seq<char>>)> {
    let other = path_to_test(path);
    match testing_packages(packages_at(testing, other), packages_at(testing_all, other)) {
        None => None,
        Some(n) => {
            let old = match testing_packages(packages_at(testing, path), packages_at(testing_all, path)) {
                Some(o) => o,
                None => Seq::empty(),
            };
            Some((path, other, move_outcome(stable, Some(n), old, include_moved_in_package), stable, n))
        },
    }
}

/// A file of stable on `all` against testing on an architecture: nothing
/// where testing lacks the file under either path; else how it moved.
pub open spec fn all_move(
    path: Seq<char>,
    stable: Seq<Seq<char>>,
    testing: Map<Seq<char>, Seq<Seq<char>>>,
    include_moved_in_package: bool,
) -> Option<(Seq<char>, Seq<char>, MoveOutcome, Seq<Seq<char>>, Seq<Seq<char>>)> {
    let other = path_to_test(path);
    match (packages_at(testing, other), packages_at(testing, path)) {
        (Some(n), Some(o)) => Some(
            (path, other, move_outcome(stable, Some(n), o, include_moved_in_package), stable, n),
        ),
        _ => None,
    }
}

/// Checks a file of stable on an architecture against testing on that
/// architecture (`testing`, empty for `all`) and on `all`.
pub fn check_arch_path(
    path: &str,
    stable_packages: &Vec<String>,
    testing: &ContentsMap,
    testing_all: &ContentsMap,
    include_moved_in_package: bool,
) -> (r: Option<MoveReport>)
    ensures
        match arch_move(path@, views(stable_packages@), testing@, testing_all@, include_moved_in_package) {
            Some(x) => r matches Some(y) && report_view(y) == x,
            None => r is None,
        },
{
    let other = compute_path_to_test(path);
    let new = match join_testing_packages(testing.get(other.as_str()), testing_all.get(other.as_str())) {
        Some(n) => n,
        None => return None,
    };
    let old = match join_testing_packages(testing.get(path), testing_all.get(path)) {
        Some(o) => o,
        None => {
            let e: Vec<String> = Vec::new();
            assert(views(e@) =~= Seq::<Seq<char>>::empty());
            e
        },
    };
    let outcome = classify_move(stable_packages, Some(&new), &old, include_moved_in_package);
    let stable = copy_strings(stable_packages);
    Some(
        MoveReport {
            path: crate::text::string_from(path),
            path_to_test: other,
            outcome,
            stable_packages: stable,
            testing_packages: new,
        },
    )
}

/// Checks a file of stable on `all` against testing on an architecture.
pub fn check_all_path(
    path: &str,
    stable_packages: &Vec<String>,
    testing: &ContentsMap,
    include_moved_in_package: bool,
) -> (r: Option<MoveReport>)
    ensures
        match all_move(path@, views(stable_packages@), testing@, include_moved_in_package) {
            Some(x) => r matches Some(y) && report_view(y) == x,
            None => r is None,
        },
{
    let other = compute_path_to_test(path);
    let new = match testing.get(other.as_str()) {
        Some(n) => copy_strings(n),
        None => return None,
    };
    let old = match testing.get(path) {
        Some(o) => copy_strings(o),
        None => return None,
    };
    let outcome = classify_move(stable_packages, Some(&new), &old, include_moved_in_package);
    let stable = copy_strings(stable_packages);
    Some(
        MoveReport {
            path: crate::text::string_from(path),
            path_to_test: other,
            outcome,
            stable_packages: stable,
            testing_packages: new,
        },
    )
}

} // verus!
