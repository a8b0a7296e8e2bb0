//! Directory listings (`ls`): ordering of entries and the report text.
use vstd::prelude::*;
use vstd::multiset::Multiset;
use crate::text::{
    chars_of, decimal, lemma_lex_irreflexive, lemma_lex_total, lemma_lex_transitive, lex_less,
    lex_lt, push_char, push_decimal, push_str, seq_eq, string_of, views,
};

verus! {

broadcast use vstd::seq_lib::group_to_multiset_ensures;

/// Most entries a listing shows.
pub const DEFAULT_LS_LIMIT: usize = 1000;

/// A name with a number, ordered by name and then by number (the order of
/// `(String, u64)` tuples).
pub open spec fn entry_lt(a: (Seq<char>, u64), b: (Seq<char>, u64)) -> bool {
    lex_lt(a.0, b.0) || (a.0 == b.0 && a.1 < b.1)
}

pub open spec fn entry_views(v: Seq<(String, u64)>) -> Seq<(Seq<char>, u64)> {
    v.map_values(|e: (String, u64)| (e.0@, e.1))
}

/// In ascending order (equal entries may repeat).
pub open spec fn ascending(s: Seq<(Seq<char>, u64)>) -> bool {
    forall|i: int, j: int| 0 <= i < j < s.len() ==> !entry_lt(#[trigger] s[j], #[trigger] s[i])
}

proof fn lemma_entry_order(a: (Seq<char>, u64), b: (Seq<char>, u64), c: (Seq<char>, u64))
    ensures
        !entry_lt(a, a),
        entry_lt(a, b) || entry_lt(b, a) || a == b,
        entry_lt(a, b) && entry_lt(b, c) ==> entry_lt(a, c),
        !(entry_lt(a, b) && entry_lt(b, a)),
{
    lemma_lex_irreflexive(a.0);
    lemma_lex_total(a.0, b.0);
    if lex_lt(a.0, b.0) && lex_lt(b.0, c.0) {
        lemma_lex_transitive(a.0, b.0, c.0);
    }
    if lex_lt(a.0, b.0) && lex_lt(b.0, a.0) {
        lemma_lex_transitive(a.0, b.0, a.0);
    }
    if a.0 == b.0 && lex_lt(b.0, c.0) {
    }
    if lex_lt(a.0, b.0) && b.0 == c.0 {
    }
}

fn entry_less(a: &(String, u64), b: &(String, u64)) -> (r: bool)
    ensures
        r == entry_lt((a.0@, a.1), (b.0@, b.1)),
{
    let av = chars_of(a.0.as_str());
    let bv = chars_of(b.0.as_str());
    if lex_less(&av, &bv) {
        true
    } else if seq_eq(&av, &bv) {
        a.1 < b.1
    } else {
        false
    }
}

/// The entries in ascending order (`sort` on `(String, u64)`): ascending, and
/// holding the same entries as many times each.
pub fn sort_entries(v: Vec<(String, u64)>) -> (r: Vec<(String, u64)>)
    ensures
        ascending(entry_views(r@)),
        entry_views(r@).to_multiset() == entry_views(v@).to_multiset(),
{
    let mut src = v;
    let ghost all = entry_views(src@);
    let mut out: Vec<(String, u64)> = Vec::new();
    // Entries are taken from the back of `src` and inserted in order.
    while src.len() > 0
        invariant
            ascending(entry_views(out@)),
            entry_views(out@).to_multiset().add(entry_views(src@).to_multiset()) == all.to_multiset(),
        decreases src.len(),
    {
        let ghost before_src = entry_views(src@);
        let x = src.pop().unwrap();
        proof {
            assert(before_src =~= entry_views(src@).push((x.0@, x.1)));
        }
        let mut p: usize = 0;
        while p < out.len() && !entry_less(&x, &out[p])
            invariant
                p <= out.len(),
                forall|k: int| 0 <= k < p ==> !entry_lt((x.0@, x.1), #[trigger] entry_views(out@)[k]),
            decreases out.len() - p,
        {
            p += 1;
        }
        let ghost ov = entry_views(out@);
        let ghost xv = (x.0@, x.1);
        out.insert(p, x);
        proof {
            let nv = entry_views(out@);
            assert(nv =~= ov.insert(p as int, xv));
            assert forall|i: int, j: int| 0 <= i < j < nv.len() implies !entry_lt(#[trigger] nv[j], #[trigger] nv[i]) by {
                if i == p {
                    // x against a later element: x < out[p] (or p was the end).
                    assert(nv[j] == ov[j - 1]);
                    lemma_entry_order(xv, ov[p as int], ov[j - 1]);
                    lemma_entry_order(ov[j - 1], ov[p as int], xv);
                    lemma_entry_order(ov[j - 1], xv, ov[p as int]);
                    lemma_entry_order(ov[p as int], ov[j - 1], xv);
                } else if j == p {
                    assert(nv[i] == ov[i]);
                    lemma_entry_order(xv, ov[i], xv);
                } else if j < p {
                    assert(nv[i] == ov[i] && nv[j] == ov[j]);
                } else if i < p {
                    assert(nv[i] == ov[i] && nv[j] == ov[j - 1]);
                } else {
                    assert(nv[i] == ov[i - 1] && nv[j] == ov[j - 1]);
                }
            }
            assert(nv.remove(p as int) =~= ov);
            assert(nv.to_multiset() =~= ov.to_multiset().insert(xv));
            assert(before_src.to_multiset() =~= entry_views(src@).to_multiset().insert(xv));
            assert(nv.to_multiset().add(entry_views(src@).to_multiset()) =~= ov.to_multiset().add(
                before_src.to_multiset(),
            ));
        }
    }
    proof {
        assert(entry_views(src@).to_multiset() =~= Multiset::empty());
        assert(entry_views(out@).to_multiset().add(Multiset::empty()) =~= entry_views(out@).to_multiset());
    }
    out
}

/// What a listing reads of one directory entry: its name, whether it is a
/// directory, and its size. `None` for an entry whose metadata could not be
/// read (it is skipped but still counts toward the limit check).
pub struct EntryInfo {
    pub name: String,
    pub is_dir: bool,
    pub size: u64,
}

/// Entries seen in order: stop once `DEFAULT_LS_LIMIT` have been kept (the
/// listing is then truncated if any entry is left), skip unreadable ones,
/// keep directories as `name/` and files with their sizes.
pub open spec fn kept_entries(es: Seq<Option<(Seq<char>, bool, u64)>>) -> (Seq<Seq<char>>, Seq<(Seq<char>, u64)>, bool)
    decreases es.len(),
{
    if es.len() == 0 {
        (Seq::empty(), Seq::empty(), false)
    } else {
        let (d, f, t) = kept_entries(es.drop_last());
        if t || d.len() + f.len() >= DEFAULT_LS_LIMIT {
            (d, f, true)
        } else {
            match es.last() {
                None => (d, f, false),
                Some(e) => if e.1 {
                    (d.push(e.0 + "/"@), f, false)
                } else {
                    (d, f.push((e.0, e.2)), false)
                },
            }
        }
    }
}

pub open spec fn entry_infos(es: Seq<Option<EntryInfo>>) -> Seq<Option<(Seq<char>, bool, u64)>> {
    es.map_values(
        |e: Option<EntryInfo>|
            match e {
                Some(i) => Some((i.name@, i.is_dir, i.size)),
                None => None,
            },
    )
}

pub open spec fn dir_lines(ds: Seq<(Seq<char>, u64)>) -> Seq<char>
    decreases ds.len(),
{
    if ds.len() == 0 {
        Seq::empty()
    } else {
        dir_lines(ds.drop_last()) + ds.last().0 + "\n"@
    }
}

pub open spec fn file_lines(fs: Seq<(Seq<char>, u64)>) -> Seq<char>
    decreases fs.len(),
{
    if fs.len() == 0 {
        Seq::empty()
    } else {
        file_lines(fs.drop_last()) + fs.last().0 + " ("@ + decimal(fs.last().1 as nat) + " bytes)\n"@
    }
}

/// `s` without its trailing line breaks (`trim_end_matches('\n')`).
pub open spec fn without_trailing_newlines(s: Seq<char>) -> Seq<char>
    decreases s.len(),
{
    if s.len() > 0 && s.last() == '\n' {
        without_trailing_newlines(s.drop_last())
    } else {
        s
    }
}

/// The listing: the directories, then the files, each group in ascending
/// order (`sorted_dirs`, `sorted_files`), one per line; a note when it was
/// cut at the limit; or a notice naming `root` when the directory is empty.
pub open spec fn listing_text(
    sorted_dirs: Seq<(Seq<char>, u64)>,
    sorted_files: Seq<(Seq<char>, u64)>,
    truncated: bool,
    root: Seq<char>,
) -> Seq<char> {
    let body = dir_lines(sorted_dirs) + file_lines(sorted_files);
    if body.len() == 0 {
        "Directory is empty: "@ + root
    } else {
        without_trailing_newlines(
            if truncated {
                body + "\n[Output truncated at 1000 entries]"@
            } else {
                body
            },
        )
    }
}

pub open spec fn names_as_entries(ds: Seq<Seq<char>>) -> Seq<(Seq<char>, u64)> {
    ds.map_values(|d: Seq<char>| (d, 0u64))
}

/// `s` in ascending order: the ascending sequence holding the same entries.
pub open spec fn arranged(s: Seq<(Seq<char>, u64)>) -> Seq<(Seq<char>, u64)> {
    choose|r: Seq<(Seq<char>, u64)>| ascending(r) && r.to_multiset() == s.to_multiset()
}

/// Two ascending sequences holding the same entries are equal.
pub proof fn lemma_ascending_unique(a: Seq<(Seq<char>, u64)>, b: Seq<(Seq<char>, u64)>)
    requires
        ascending(a),
        ascending(b),
        a.to_multiset() == b.to_multiset(),
    ensures
        a == b,
    decreases a.len(),
{
    assert(a.to_multiset().len() == a.len());
    assert(b.to_multiset().len() == b.len());
    if a.len() == 0 {
        assert(b.len() == 0);
        assert(a =~= b);
    } else {
        assert(a.to_multiset().len() == a.len());
        assert(b.to_multiset().len() == b.len());
        assert(b.len() == a.len());
        assert(a.to_multiset().count(a[0]) > 0);
        assert(b.contains(a[0]));
        let k = choose|k: int| 0 <= k < b.len() && b[k] == a[0];
        assert(b.to_multiset().count(b[0]) > 0);
        assert(a.contains(b[0]));
        let m = choose|m: int| 0 <= m < a.len() && a[m] == b[0];
        if k > 0 {
            assert(!entry_lt(b[k], b[0]));
        }
        if m > 0 {
            assert(!entry_lt(a[m], a[0]));
        }
        lemma_entry_order(a[0], b[0], a[0]);
        assert(a[0] == b[0]);
        let a1 = a.remove(0);
        let b1 = b.remove(0);
        assert(a1 =~= a.drop_first());
        assert(b1 =~= b.drop_first());
        assert(a1.to_multiset() == a.to_multiset().remove(a[0]));
        assert(b1.to_multiset() == b.to_multiset().remove(b[0]));
        assert forall|i: int, j: int| 0 <= i < j < a1.len() implies !entry_lt(#[trigger] a1[j], #[trigger] a1[i]) by {
            assert(a1[i] == a[i + 1] && a1[j] == a[j + 1]);
        }
        assert forall|i: int, j: int| 0 <= i < j < b1.len() implies !entry_lt(#[trigger] b1[j], #[trigger] b1[i]) by {
            assert(b1[i] == b[i + 1] && b1[j] == b[j + 1]);
        }
        lemma_ascending_unique(a1, b1);
        assert forall|i: int| 0 <= i < a.len() implies a[i] == b[i] by {
            if i > 0 {
                assert(a[i] == a1[i - 1] && b[i] == b1[i - 1]);
            }
        }
        assert(a =~= b);
    }
}

/// A sorted copy is the arrangement of what was sorted.
pub proof fn lemma_is_arranged(r: Seq<(Seq<char>, u64)>, s: Seq<(Seq<char>, u64)>)
    requires
        ascending(r),
        r.to_multiset() == s.to_multiset(),
    ensures
        r == arranged(s),
{
    let a = arranged(s);
    assert(ascending(a) && a.to_multiset() == s.to_multiset());
    lemma_ascending_unique(r, a);
}

fn trim_trailing_newlines(s: String) -> (r: String)
    ensures
        r@ == without_trailing_newlines(s@),
{
    let v = chars_of(s.as_str());
    let mut n = v.len();
    assert(v@.take(n as int) =~= v@);
    while n > 0 && v[n - 1] == '\n'
        invariant
            n <= v.len(),
            v@ == s@,
            without_trailing_newlines(v@.take(n as int)) == without_trailing_newlines(v@),
        decreases n,
    {
        assert(v@.take(n as int).drop_last() =~= v@.take(n - 1));
        n -= 1;
    }
    let r = crate::text::string_from_chars(&v, 0, n);
    assert(v@.subrange(0, n as int) =~= v@.take(n as int));
    r
}

/// The `ls` report for the entries of directory `root`, in the order they
/// were read.
pub fn list_report(entries: &Vec<Option<EntryInfo>>, root: &str) -> (r: String)
    ensures
        ({
            let k = kept_entries(entry_infos(entries@));
            r@ == listing_text(arranged(names_as_entries(k.0)), arranged(k.1), k.2, root@)
        }),
{
    let mut dirs: Vec<(String, u64)> = Vec::new();
    let mut files: Vec<(String, u64)> = Vec::new();
    let mut truncated = false;
    let mut i: usize = 0;
    while i < entries.len()
        invariant
            i <= entries.len(),
            ({
                let k = kept_entries(entry_infos(entries@).take(i as int));
                &&& entry_views(dirs@) == names_as_entries(k.0)
                &&& entry_views(files@) == k.1
                &&& truncated == k.2
                &&& dirs@.len() == k.0.len()
            }),
            dirs@.len() + files@.len() <= i,
        decreases entries.len() - i,
    {
        proof {
            let t = entry_infos(entries@).take(i + 1);
            assert(t.drop_last() =~= entry_infos(entries@).take(i as int));
        }
        if truncated || dirs.len() + files.len() >= DEFAULT_LS_LIMIT {
            truncated = true;
        } else {
            match &entries[i] {
                None => {},
                Some(e) => {
                    if e.is_dir {
                        let mut d = crate::text::copy_string(&e.name);
                        push_str(&mut d, "/");
                        let ghost before = entry_views(dirs@);
                        dirs.push((d, 0));
                        assert(entry_views(dirs@) =~= before.push((e.name@ + "/"@, 0u64)));
                        let ghost k = kept_entries(entry_infos(entries@).take(i as int));
                        assert(names_as_entries(k.0.push(e.name@ + "/"@)) =~= names_as_entries(k.0).push(
                            (e.name@ + "/"@, 0u64),
                        ));
                    } else {
                        let n = crate::text::copy_string(&e.name);
                        let ghost before = entry_views(files@);
                        files.push((n, e.size));
                        assert(entry_views(files@) =~= before.push((e.name@, e.size)));
                    }
                },
            }
        }
        i += 1;
    }
    assert(entry_infos(entries@).take(entries.len() as int) =~= entry_infos(entries@));
    let ghost k = kept_entries(entry_infos(entries@));
    let ghost dv = entry_views(dirs@);
    let ghost fv = entry_views(files@);
    let sd = sort_entries(dirs);
    let sf = sort_entries(files);
    proof {
        lemma_is_arranged(entry_views(sd@), dv);
        lemma_is_arranged(entry_views(sf@), fv);
    }
    let mut out = String::new();
    let mut j: usize = 0;
    while j < sd.len()
        invariant
            j <= sd.len(),
            out@ == dir_lines(entry_views(sd@).take(j as int)),
        decreases sd.len() - j,
    {
        let ghost before = out@;
        push_str(&mut out, sd[j].0.as_str());
        push_str(&mut out, "\n");
        proof {
            let t = entry_views(sd@).take(j + 1);
            assert(t.drop_last() =~= entry_views(sd@).take(j as int));
            assert(out@ =~= before + t.last().0 + "\n"@);
        }
        j += 1;
    }
    assert(entry_views(sd@).take(sd.len() as int) =~= entry_views(sd@));
    let ghost dl = out@;
    let mut j: usize = 0;
    while j < sf.len()
        invariant
            j <= sf.len(),
            out@ == dl + file_lines(entry_views(sf@).take(j as int)),
        decreases sf.len() - j,
    {
        let ghost before = out@;
        push_str(&mut out, sf[j].0.as_str());
        push_str(&mut out, " (");
        push_decimal(&mut out, sf[j].1);
        push_str(&mut out, " bytes)\n");
        proof {
            let t = entry_views(sf@).take(j + 1);
            assert(t.drop_last() =~= entry_views(sf@).take(j as int));
            assert(out@ =~= before + t.last().0 + " ("@ + decimal(t.last().1 as nat) + " bytes)\n"@);
        }
        j += 1;
    }
    assert(entry_views(sf@).take(sf.len() as int) =~= entry_views(sf@));
    if chars_of(out.as_str()).len() == 0 {
        let mut e = string_of("Directory is empty: ");
        push_str(&mut e, root);
        return e;
    }
    if truncated {
        push_str(&mut out, "\n[Output truncated at 1000 entries]");
    }
    trim_trailing_newlines(out)
}

} // verus!
