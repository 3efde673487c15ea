//! Bugs from the Ultimate Debian Database (UDD), as far as rebuilds are
//! concerned: which source packages have bugs that make them fail to build.

use vstd::prelude::*;

use crate::package::{name_error, PackageError, PackageName};
use crate::strings::views;
use crate::text::{split_all, split_str};

verus! {

/// Severity of a bug
#[derive(Debug, Clone, Copy, PartialEq, Eq, PartialOrd, Ord, Hash, Structural)]
pub enum Severity {
    Wishlist,
    Normal,
    Important,
    Serious,
    Grave,
    Critical,
}

/// The text of a severity.
pub open spec fn severity_name(x: Severity) -> Seq<char> {
    match x {
        Severity::Wishlist => "wishlist"@,
        Severity::Normal => "normal"@,
        Severity::Important => "important"@,
        Severity::Serious => "serious"@,
        Severity::Grave => "grave"@,
        Severity::Critical => "critical"@,
    }
}

/// The rank of a severity: from wishlist (lowest) to critical.
pub open spec fn severity_rank(x: Severity) -> int {
    match x {
        Severity::Wishlist => 0,
        Severity::Normal => 1,
        Severity::Important => 2,
        Severity::Serious => 3,
        Severity::Grave => 4,
        Severity::Critical => 5,
    }
}

impl Severity {
    /// The text of the severity.
    pub fn as_str(&self) -> (r: &'static str)
        ensures
            r@ == severity_name(*self),
    {
        match self {
            Self::Wishlist => "wishlist",
            Self::Normal => "normal",
            Self::Important => "important",
            Self::Serious => "serious",
            Self::Grave => "grave",
            Self::Critical => "critical",
        }
    }

    /// The rank of the severity, from wishlist (0) to critical (5).
    pub fn rank(&self) -> (r: u8)
        ensures
            r == severity_rank(*self),
    {
        match self {
            Self::Wishlist => 0,
            Self::Normal => 1,
            Self::Important => 2,
            Self::Serious => 3,
            Self::Grave => 4,
            Self::Critical => 5,
        }
    }

    /// The severity makes a bug release-critical: serious or higher.
    pub fn is_rc(&self) -> (r: bool)
        ensures
            r == (severity_rank(*self) >= 3),
    {
        self.rank() >= 3
    }
}

/// What parsing a comma-separated list of package names gives: the names,
/// or the error of the first piece that is no valid name.
pub open spec fn parse_name_list(pieces: Seq<Seq<char>>) -> Result<Seq<Seq<char>>, PackageError>
    decreases pieces.len(),
{
    if pieces.len() == 0 {
        Ok(Seq::empty())
    } else {
        match parse_name_list(pieces.drop_last()) {
            Err(e) => Err(e),
            Ok(names) => match name_error(pieces.last()) {
                Some(e) => Err(e),
                None => Ok(names.push(pieces.last())),
            },
        }
    }
}

/// The views of a list of package names.
pub open spec fn names_view(v: Seq<PackageName>) -> Seq<Seq<char>> {
    v.map_values(|x: PackageName| x@)
}

/// Parses a comma-separated list of package names.
pub fn parse_source_list(s: &str) -> (r: Result<Vec<PackageName>, PackageError>)
    ensures
        match parse_name_list(split_all(s@, ',')) {
            Ok(names) => r is Ok && names_view(r->Ok_0@) == names,
            Err(e) => r == Err::<Vec<PackageName>, PackageError>(e),
        },
{
    let pieces = split_str(s, ',');
    let ghost all = split_all(s@, ',');
    assert(views(pieces@) == all);
    let mut out: Vec<PackageName> = Vec::new();
    let mut i: usize = 0;
    assert(all.subrange(0, 0) =~= Seq::<Seq<char>>::empty());
    assert(names_view(out@) =~= Seq::<Seq<char>>::empty());
    while i < pieces.len()
        invariant
            i <= pieces.len(),
            views(pieces@) == all,
            all == split_all(s@, ','),
            parse_name_list(all.subrange(0, i as int)) == Ok::<Seq<Seq<char>>, PackageError>(names_view(out@)),
        decreases pieces.len() - i,
    {
        let ghost prefix = all.subrange(0, i + 1);
        assert(prefix.drop_last() =~= all.subrange(0, i as int));
        assert(prefix.last() == pieces@[i as int]@);
        match PackageName::try_from(pieces[i].as_str()) {
            Ok(name) => {
                let ghost old_out = out@;
                out.push(name);
                assert(names_view(out@) =~= names_view(old_out).push(name@));
            },
            Err(e) => {
                proof {
                    assert(parse_name_list(prefix) == Err::<Seq<Seq<char>>, PackageError>(e));
                    lemma_parse_name_list_err(all, i as int + 1);
                }
                return Err(e);
            },
        }
        i = i + 1;
    }
    assert(all.subrange(0, pieces.len() as int) =~= all);
    Ok(out)
}

/// An error on a prefix is the error on the whole list.
proof fn lemma_parse_name_list_err(all: Seq<Seq<char>>, k: int)
    requires
        0 <= k <= all.len(),
        parse_name_list(all.subrange(0, k)) is Err,
    ensures
        parse_name_list(all) == parse_name_list(all.subrange(0, k)),
    decreases all.len() - k,
{
    if k < all.len() {
        let p = all.subrange(0, k + 1);
        assert(p.drop_last() =~= all.subrange(0, k));
        lemma_parse_name_list_err(all, k + 1);
    } else {
        assert(all.subrange(0, k) =~= all);
    }
}

/// A bug of UDD
#[derive(Debug)]
pub struct UDDBug {
    pub id: u32,
    pub source: Vec<PackageName>,
    pub severity: Severity,
    pub title: String,
}

/// How often a name occurs in a list of names.
pub open spec fn name_count(names: Seq<PackageName>, n: Seq<char>) -> nat
    decreases names.len(),
{
    if names.len() == 0 {
        0
    } else {
        name_count(names.drop_last(), n) + if names.last()@ == n {
            1nat
        } else {
            0nat
        }
    }
}

/// The bugs that list the source package `n`, in their order, each as
/// often as it lists `n`.
pub open spec fn bugs_listing(bugs: Seq<UDDBug>, n: Seq<char>) -> Seq<UDDBug>
    decreases bugs.len(),
{
    if bugs.len() == 0 {
        Seq::empty()
    } else {
        bugs_listing(bugs.drop_last(), n) + Seq::new(name_count(bugs.last().source@, n), |k: int| bugs.last())
    }
}

/// Bugs of UDD, looked up by source package.
pub struct UDDBugs {
    bugs: Vec<UDDBug>,
}

impl View for UDDBugs {
    type V = Seq<UDDBug>;

    closed spec fn view(&self) -> Seq<UDDBug> {
        self.bugs@
    }
}

impl Default for UDDBugs {
    fn default() -> (r: Self)
        ensures
            r@ == Seq::<UDDBug>::empty(),
    {
        UDDBugs { bugs: Vec::new() }
    }
}

impl UDDBugs {
    /// The bugs, to be looked up by source package.
    pub fn new(bugs: Vec<UDDBug>) -> (r: Self)
        ensures
            r@ == bugs@,
    {
        UDDBugs { bugs }
    }

    /// The bugs that list a source package, or `None` if there are none.
    pub fn bugs_for_source(&self, source: &str) -> (r: Option<Vec<&UDDBug>>)
        ensures
            match r {
                None => bugs_listing(self@, source@).len() == 0,
                Some(v) => bugs_listing(self@, source@).len() > 0 && v@.len() == bugs_listing(self@, source@).len()
                    && forall|k: int| 0 <= k < v@.len() ==> *v@[k] == bugs_listing(self@, source@)[k],
            },
    {
        let mut out: Vec<&UDDBug> = Vec::new();
        let mut i: usize = 0;
        while i < self.bugs.len()
            invariant
                i <= self.bugs.len(),
                out@.len() == bugs_listing(self.bugs@.subrange(0, i as int), source@).len(),
                forall|k: int| 0 <= k < out@.len() ==> *out@[k] == bugs_listing(self.bugs@.subrange(0, i as int), source@)[k],
            decreases self.bugs.len() - i,
        {
            let bug = &self.bugs[i];
            let ghost before = bugs_listing(self.bugs@.subrange(0, i as int), source@);
            let mut j: usize = 0;
            while j < bug.source.len()
                invariant
                    j <= bug.source.len(),
                    bug == self.bugs@[i as int],
                    out@.len() == before.len() + name_count(bug.source@.subrange(0, j as int), source@),
                    forall|k: int| 0 <= k < before.len() ==> *out@[k] == before[k],
                    forall|k: int| before.len() <= k < out@.len() ==> *out@[k] == *bug,
                decreases bug.source.len() - j,
            {
                assert(bug.source@.subrange(0, j + 1).drop_last() =~= bug.source@.subrange(0, j as int));
                if bug.source[j].is(source) {
                    out.push(bug);
                }
                j = j + 1;
            }
            proof {
                let p = self.bugs@.subrange(0, i + 1);
                assert(p.drop_last() =~= self.bugs@.subrange(0, i as int));
                assert(p.last() == *bug);
                assert(bug.source@.subrange(0, bug.source@.len() as int) =~= bug.source@);
                let after = bugs_listing(p, source@);
                assert(after == before + Seq::new(name_count(bug.source@, source@), |k: int| *bug));
                assert forall|k: int| 0 <= k < out@.len() implies *out@[k] == after[k] by {
                    if k >= before.len() {
                        assert(after[k] == Seq::new(name_count(bug.source@, source@), |k: int| *bug)[k - before.len()]);
                    }
                }
            }
            i = i + 1;
        }
        assert(self.bugs@.subrange(0, self.bugs.len() as int) =~= self.bugs@);
        if out.len() == 0 {
            None
        } else {
            Some(out)
        }
    }
}

} // verus!
