//! `grep-excuses`: the excuses of packages or of their maintainers, as text.

use vstd::prelude::*;

use crate::excuses::ExcusesItem;
use crate::strings::views;
use crate::text::str_eq;
use crate::version::version_text;

verus! {

/// What `voca_rs::strip::strip_tags` gives for a text: the text without
/// its HTML tags.
pub uninterp spec fn tags_stripped(s: Seq<char>) -> Seq<char>;

/// `voca_rs::strip::strip_tags`: the text without its HTML tags. The
/// contract names the result: it depends on the text alone, and the empty
/// text gives the empty text; how tags are recognised is left to the crate.
#[verifier::external_body]
fn strip_tags(subject: &str) -> (r: String)
    ensures
        r@ == tags_stripped(subject@),
        subject@.len() == 0 ==> r@.len() == 0,
{
    voca_rs::strip::strip_tags(subject)
}

/// The excuse lines of a package, with their HTML tags stripped.
pub open spec fn excuse_lines_of(item: ExcusesItem) -> Seq<Seq<char>> {
    let head = item.source@ + " ("@ + (match item.old_version {
        Some(v) => version_text(v@),
        None => "-"@,
    }) + " to "@ + (match item.new_version {
        Some(v) => version_text(v@),
        None => "-"@,
    }) + ")"@;
    let maintainer = match item.maintainer {
        Some(m) => seq!["  Maintainer: "@ + m@],
        None => Seq::empty(),
    };
    seq![head] + maintainer + views(item.excuses@).map_values(|l: Seq<char>| "  "@ + tags_stripped(l))
}

/// The lines that describe the excuses of a package: the package with its
/// versions, its maintainer, and the excuses without HTML tags.
pub fn excuse_lines(excuse: &ExcusesItem) -> (r: Vec<String>)
    ensures
        views(r@) == excuse_lines_of(*excuse),
{
    let mut head = excuse.source.to_string();
    head.append(" (");
    match &excuse.old_version {
        Some(v) => {
            let t = v.to_string();
            head.append(t.as_str());
        },
        None => head.append("-"),
    }
    head.append(" to ");
    match &excuse.new_version {
        Some(v) => {
            let t = v.to_string();
            head.append(t.as_str());
        },
        None => head.append("-"),
    }
    head.append(")");
    let mut out: Vec<String> = Vec::new();
    out.push(head);
    if let Some(maintainer) = &excuse.maintainer {
        let mut m = String::from_str("  Maintainer: ");
        m.append(maintainer.as_str());
        out.push(m);
    }
    let ghost start = views(out@);
    let ghost ex = views(excuse.excuses@);
    let mut i: usize = 0;
    assert(ex.subrange(0, 0).map_values(|l: Seq<char>| "  "@ + tags_stripped(l)) =~= Seq::<Seq<char>>::empty());
    assert(start + Seq::<Seq<char>>::empty() =~= start);
    while i < excuse.excuses.len()
        invariant
            i <= excuse.excuses.len(),
            ex == views(excuse.excuses@),
            views(out@) == start + ex.subrange(0, i as int).map_values(|l: Seq<char>| "  "@ + tags_stripped(l)),
        decreases excuse.excuses.len() - i,
    {
        let stripped = strip_tags(excuse.excuses[i].as_str());
        let mut line = String::from_str("  ");
        line.append(stripped.as_str());
        let ghost before = views(out@);
        out.push(line);
        assert(views(out@) =~= before.push(line@));
        assert(ex[i as int] == excuse.excuses@[i as int]@);
        assert(ex.subrange(0, i + 1).map_values(|l: Seq<char>| "  "@ + tags_stripped(l)) =~= ex.subrange(
            0,
            i as int,
        ).map_values(|l: Seq<char>| "  "@ + tags_stripped(l)).push(line@));
        i = i + 1;
    }
    assert(ex.subrange(0, ex.len() as int) =~= ex);
    out
}

/// The item is of the package, or of the maintainer, that is asked for.
pub open spec fn excuse_matches(item: ExcusesItem, query: Seq<char>) -> bool {
    item.source@ == query || (item.maintainer matches Some(m) && m@ == query)
}

/// The positions of the items of a package or a maintainer, in order.
pub fn matching_excuses(excuses: &[ExcusesItem], query: &str) -> (r: Vec<usize>)
    ensures
        forall|k: int| 0 <= k < r@.len() ==> r@[k] < excuses@.len() && excuse_matches(excuses@[r@[k] as int], query@),
        forall|a: int, b: int| 0 <= a < b < r@.len() ==> r@[a] < r@[b],
        forall|i: int| 0 <= i < excuses@.len() && excuse_matches(#[trigger] excuses@[i], query@) ==> r@.contains(
            i as usize,
        ),
{
    let mut out: Vec<usize> = Vec::new();
    let mut i: usize = 0;
    while i < excuses.len()
        invariant
            i <= excuses.len(),
            forall|k: int| 0 <= k < out@.len() ==> out@[k] < i && excuse_matches(excuses@[out@[k] as int], query@),
            forall|a: int, b: int| 0 <= a < b < out@.len() ==> out@[a] < out@[b],
            forall|j: int| 0 <= j < i && excuse_matches(#[trigger] excuses@[j], query@) ==> out@.contains(j as usize),
        decreases excuses.len() - i,
    {
        let item = &excuses[i];
        let found = if item.source.is(query) {
            true
        } else {
            match &item.maintainer {
                Some(m) => str_eq(m.as_str(), query),
                None => false,
            }
        };
        if found {
            let ghost before = out@;
            out.push(i);
            proof {
                assert forall|j: int| 0 <= j < i + 1 && excuse_matches(#[trigger] excuses@[j], query@) implies out@.contains(
                    j as usize,
                ) by {
                    if j < i {
                        let k = choose|k: int| 0 <= k < before.len() && before[k] == j as usize;
                        assert(out@[k] == before[k]);
                    } else {
                        assert(out@[before.len() as int] == i);
                    }
                }
            }
        } else {
            proof {
                assert forall|j: int| 0 <= j < i + 1 && excuse_matches(#[trigger] excuses@[j], query@) implies out@.contains(
                    j as usize,
                ) by {
                    if j == i {
                        assert(!excuse_matches(excuses@[j], query@));
                    }
                }
            }
        }
        i = i + 1;
    }
    out
}

} // verus!
