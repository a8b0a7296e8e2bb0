//! Where a path lies on disk for the workspace checks: the nearest existing
//! ancestor, resolved, with the missing components after it put back.
//! Resolving an ancestor is the host's part; it reports each one visited.
use vstd::prelude::*;
use crate::text::{push_str, string_of};

verus! {

/// One path on the way up from a checked path, nearest first, as the host
/// found it: where it lies on disk when it exists, and its last component.
#[derive(Debug)]
pub struct Ancestor {
    pub canonical: Option<String>,
    pub name: Option<String>,
}

pub type AncestorView = (Option<Seq<char>>, Option<Seq<char>>);

impl View for Ancestor {
    type V = AncestorView;

    open spec fn view(&self) -> AncestorView {
        (
            match self.canonical {
                Some(c) => Some(c@),
                None => None,
            },
            match self.name {
                Some(n) => Some(n@),
                None => None,
            },
        )
    }
}

pub open spec fn ancestor_views(v: Seq<Ancestor>) -> Seq<AncestorView> {
    v.map_values(|a: Ancestor| a@)
}

/// `base` with one more component (`PathBuf::push` of a relative name): a
/// separator goes between them unless `base` is empty or ends with one.
pub open spec fn push_component(base: Seq<char>, name: Seq<char>) -> Seq<char> {
    if base.len() == 0 || base.last() == '/' {
        base + name
    } else {
        base + "/"@ + name
    }
}

/// `base` with the missing components put back, outermost first (`tail`
/// lists them nearest first).
pub open spec fn reattached(base: Seq<char>, tail: Seq<Seq<char>>) -> Seq<char>
    decreases tail.len(),
{
    if tail.len() == 0 {
        base
    } else {
        reattached(push_component(base, tail.last()), tail.drop_last())
    }
}

/// The names of the first `i` ancestors that have one, nearest first.
pub open spec fn names_before(chain: Seq<AncestorView>, i: int) -> Seq<Seq<char>>
    decreases i,
{
    if i <= 0 {
        Seq::empty()
    } else {
        let r = names_before(chain, i - 1);
        match chain[i - 1].1 {
            Some(n) => r.push(n),
            None => r,
        }
    }
}

/// The first ancestor that exists, if any.
pub open spec fn first_existing(chain: Seq<AncestorView>, from: int) -> Option<int>
    decreases chain.len() - from,
{
    if from < 0 || from >= chain.len() {
        None
    } else if chain[from].0 is Some {
        Some(from)
    } else {
        first_existing(chain, from + 1)
    }
}

/// Where `path` lies: the first existing ancestor resolved, with the names
/// of the missing ones after it put back; `path` itself when none exists.
pub open spec fn location(path: Seq<char>, chain: Seq<AncestorView>) -> Seq<char> {
    match first_existing(chain, 0) {
        Some(i) => reattached(chain[i].0->Some_0, names_before(chain, i)),
        None => path,
    }
}

fn push_component_exec(base: &mut String, name: &str)
    ensures
        final(base)@ == push_component(old(base)@, name@),
{
    let ends_with_sep = match crate::text::chars_of(base.as_str()).last() {
        Some(c) => *c == '/',
        None => true,
    };
    proof {
        let v = old(base)@;
        if v.len() > 0 {
            assert(v.last() == v[v.len() - 1]);
        }
    }
    if !ends_with_sep {
        push_str(base, "/");
    }
    push_str(base, name);
    proof {
        if !ends_with_sep {
            assert(old(base)@ + "/"@ + name@ =~= final(base)@);
        }
    }
}

/// Where `path` lies on disk, given the ancestors the host visited from the
/// path itself upward.
pub fn resolved_location(path: &str, chain: &Vec<Ancestor>) -> (r: String)
    ensures
        r@ == location(path@, ancestor_views(chain@)),
{
    let ghost cv = ancestor_views(chain@);
    let mut i: usize = 0;
    let mut tail: Vec<String> = Vec::new();
    while i < chain.len() && chain[i].canonical.is_none()
        invariant
            i <= chain.len(),
            cv == ancestor_views(chain@),
            first_existing(cv, 0) == first_existing(cv, i as int),
            tail@.map_values(|s: String| s@) == names_before(cv, i as int),
        decreases chain.len() - i,
    {
        assert(cv[i as int] == chain@[i as int]@);
        let ghost before = tail@.map_values(|s: String| s@);
        match &chain[i].name {
            Some(n) => {
                tail.push(n.clone());
                assert(tail@.map_values(|s: String| s@) =~= before.push(n@));
            },
            None => {},
        }
        i += 1;
    }
    if i >= chain.len() {
        return string_of(path);
    }
    assert(cv[i as int] == chain@[i as int]@);
    let mut out = match &chain[i].canonical {
        Some(c) => c.clone(),
        None => string_of(path),
    };
    let ghost names = names_before(cv, i as int);
    let mut k: usize = tail.len();
    assert(names.take(k as int) =~= names);
    while k > 0
        invariant
            k <= tail.len(),
            names == tail@.map_values(|s: String| s@),
            reattached(cv[i as int].0->Some_0, names) == reattached(out@, names.take(k as int)),
        decreases k,
    {
        let ghost t = names.take(k as int);
        assert(t.last() == tail@[k - 1]@);
        assert(t.drop_last() =~= names.take(k - 1));
        push_component_exec(&mut out, tail[k - 1].as_str());
        k -= 1;
    }
    assert(names.take(0) =~= Seq::<Seq<char>>::empty());
    out
}

} // verus!
