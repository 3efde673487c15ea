//! # Representation of buildinfos
//!
//! This module provides `Buildinfo` to represent some fields of a `.buildinfo` file.

use vstd::prelude::*;

use crate::architectures::{parse_architecture, Architecture};
use crate::archive::{parse_component, Component};
use crate::error::ParseError;
use crate::package::PackageName;
use crate::strings::{split_words, views, words};
use crate::version::PackageVersion;

verus! {

/// A build info
#[derive(Debug)]
pub struct Buildinfo {
    /// Source package
    pub source: PackageName,
    /// Version of the package
    pub version: PackageVersion,
    /// Architectures of the build
    pub architecture: Vec<Architecture>,
}

/// What parsing words as architectures gives: the architectures, or an
/// error at the first word that names none.
pub open spec fn parse_architectures(ws: Seq<Seq<char>>) -> Option<Seq<Architecture>>
    decreases ws.len(),
{
    if ws.len() == 0 {
        Some(Seq::empty())
    } else {
        match parse_architectures(ws.drop_last()) {
            None => None,
            Some(archs) => match parse_architecture(ws.last()) {
                None => None,
                Some(a) => Some(archs.push(a)),
            },
        }
    }
}

proof fn lemma_parse_architectures_none(all: Seq<Seq<char>>, k: int)
    requires
        0 <= k <= all.len(),
        parse_architectures(all.subrange(0, k)) is None,
    ensures
        parse_architectures(all) is None,
    decreases all.len() - k,
{
    if k < all.len() {
        let p = all.subrange(0, k + 1);
        assert(p.drop_last() =~= all.subrange(0, k));
        lemma_parse_architectures_none(all, k + 1);
    } else {
        assert(all.subrange(0, k) =~= all);
    }
}

/// Parses a whitespace-separated list of architectures.
pub fn parse_architecture_list(s: &str) -> (r: Result<Vec<Architecture>, ParseError>)
    ensures
        match parse_architectures(words(s@, false)) {
            Some(archs) => r matches Ok(v) && v@ == archs,
            None => r == Err::<Vec<Architecture>, ParseError>(ParseError::InvalidArchitecture),
        },
{
    let ws = split_words(s, false);
    let ghost all = words(s@, false);
    let mut out: Vec<Architecture> = Vec::new();
    let mut i: usize = 0;
    assert(all.subrange(0, 0) =~= Seq::<Seq<char>>::empty());
    while i < ws.len()
        invariant
            i <= ws.len(),
            views(ws@) == all,
            all == words(s@, false),
            parse_architectures(all.subrange(0, i as int)) == Some(out@),
        decreases ws.len() - i,
    {
        let ghost p = all.subrange(0, i + 1);
        assert(p.drop_last() =~= all.subrange(0, i as int));
        assert(p.last() == ws@[i as int]@);
        match Architecture::try_from(ws[i].as_str()) {
            Ok(a) => out.push(a),
            Err(e) => {
                proof {
                    lemma_parse_architectures_none(all, i + 1);
                }
                return Err(e);
            },
        }
        i = i + 1;
    }
    assert(all.subrange(0, ws.len() as int) =~= all);
    Ok(out)
}

/// What parsing words as components gives: the components, or an error
/// at the first word that names none.
pub open spec fn parse_components(ws: Seq<Seq<char>>) -> Option<Seq<Component>>
    decreases ws.len(),
{
    if ws.len() == 0 {
        Some(Seq::empty())
    } else {
        match parse_components(ws.drop_last()) {
            None => None,
            Some(cs) => match parse_component(ws.last()) {
                None => None,
                Some(c) => Some(cs.push(c)),
            },
        }
    }
}

proof fn lemma_parse_components_none(all: Seq<Seq<char>>, k: int)
    requires
        0 <= k <= all.len(),
        parse_components(all.subrange(0, k)) is None,
    ensures
        parse_components(all) is None,
    decreases all.len() - k,
{
    if k < all.len() {
        let p = all.subrange(0, k + 1);
        assert(p.drop_last() =~= all.subrange(0, k));
        lemma_parse_components_none(all, k + 1);
    } else {
        assert(all.subrange(0, k) =~= all);
    }
}

/// Parses a whitespace-separated list of components.
pub fn parse_component_list(s: &str) -> (r: Result<Vec<Component>, ParseError>)
    ensures
        match parse_components(words(s@, false)) {
            Some(cs) => r matches Ok(v) && v@ == cs,
            None => r == Err::<Vec<Component>, ParseError>(ParseError::InvalidComponent),
        },
{
    let ws = split_words(s, false);
    let ghost all = words(s@, false);
    let mut out: Vec<Component> = Vec::new();
    let mut i: usize = 0;
    assert(all.subrange(0, 0) =~= Seq::<Seq<char>>::empty());
    while i < ws.len()
        invariant
            i <= ws.len(),
            views(ws@) == all,
            all == words(s@, false),
            parse_components(all.subrange(0, i as int)) == Some(out@),
        decreases ws.len() - i,
    {
        let ghost p = all.subrange(0, i + 1);
        assert(p.drop_last() =~= all.subrange(0, i as int));
        assert(p.last() == ws@[i as int]@);
        match Component::try_from(ws[i].as_str()) {
            Ok(c) => out.push(c),
            Err(e) => {
                proof {
                    lemma_parse_components_none(all, i + 1);
                }
                return Err(e);
            },
        }
        i = i + 1;
    }
    assert(all.subrange(0, ws.len() as int) =~= all);
    Ok(out)
}

} // verus!
