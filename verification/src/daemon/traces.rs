//! Task traces kept on disk, and the shadow files a write leaves behind:
//! which files count, which trace is the latest, the order traces are
//! listed in, and which temporary files are stale.
use vstd::prelude::*;
use crate::text::{chars_of, push_str, str_eq, string_from_chars, string_of};
use crate::tools::middleware::transaction::{file_name, file_name_of};

verus! {

/// Position of the last `.` in `s`, if any.
pub open spec fn last_dot(s: Seq<char>) -> Option<int>
    decreases s.len(),
{
    if s.len() == 0 {
        None
    } else if s.last() == '.' {
        Some(s.len() - 1)
    } else {
        last_dot(s.drop_last())
    }
}

/// The extension of a file name (`Path::extension` on that name): what
/// follows its last `.`, unless the name has no `.` or its only `.` opens
/// it.
pub open spec fn name_extension(name: Seq<char>) -> Option<Seq<char>> {
    match last_dot(name) {
        Some(k) => if k == 0 {
            None
        } else {
            Some(name.subrange(k + 1, name.len() as int))
        },
        None => None,
    }
}

/// The extension of a path's file name.
pub open spec fn extension(path: Seq<char>) -> Option<Seq<char>> {
    match file_name(path) {
        Some(n) => name_extension(n),
        None => None,
    }
}

proof fn lemma_last_dot(s: Seq<char>, i: int)
    requires
        0 <= i <= s.len(),
        forall|j: int| i <= j < s.len() ==> s[j] != '.',
    ensures
        last_dot(s) == last_dot(s.subrange(0, i)),
    decreases s.len() - i,
{
    if i < s.len() {
        assert(s.last() != '.');
        assert(s.drop_last().subrange(0, i) =~= s.subrange(0, i));
        lemma_last_dot(s.drop_last(), i);
    } else {
        assert(s.subrange(0, i) =~= s);
    }
}

fn name_extension_of(name: &str) -> (r: Option<String>)
    ensures
        match r {
            Some(e) => name_extension(name@) == Some(e@),
            None => name_extension(name@) is None,
        },
{
    let v = chars_of(name);
    let mut i: usize = v.len();
    while i > 0 && v[i - 1] != '.'
        invariant
            i <= v.len(),
            v@ == name@,
            forall|j: int| i <= j < v.len() ==> v@[j] != '.',
        decreases i,
    {
        i -= 1;
    }
    proof {
        lemma_last_dot(v@, i as int);
        if i > 0 {
            let pre = v@.subrange(0, i as int);
            assert(pre.last() == '.');
            assert(last_dot(pre) == Some(i - 1));
        } else {
            assert(v@.subrange(0, 0) =~= Seq::<char>::empty());
        }
    }
    if i <= 1 {
        None
    } else {
        Some(string_from_chars(&v, i, v.len()))
    }
}

/// The extension of `path`'s file name.
pub fn path_extension(path: &str) -> (r: Option<String>)
    ensures
        match r {
            Some(e) => extension(path@) == Some(e@),
            None => extension(path@) is None,
        },
{
    match file_name_of(path) {
        Some(n) => name_extension_of(n.as_str()),
        None => None,
    }
}

fn has_extension(path: &str, ext: &str) -> (b: bool)
    ensures
        b == (extension(path@) == Some(ext@)),
{
    match path_extension(path) {
        Some(e) => str_eq(e.as_str(), ext),
        None => false,
    }
}

/// Whether `path` is a trace: its extension is `json`.
pub fn is_trace_file(path: &str) -> (b: bool)
    ensures
        b == (extension(path@) == Some("json"@)),
{
    has_extension(path, "json")
}

/// The file a task's trace is kept in.
pub fn trace_file_name(task_id: &str) -> (r: String)
    ensures
        r@ == task_id@ + ".json"@,
{
    let mut r = string_of(task_id);
    push_str(&mut r, ".json");
    r
}

/// Whether a directory entry is a shadow file old enough to purge: a file
/// with extension `tmp` whose age is known and exceeds `max_age_nanos`.
pub fn is_stale_temp(path: &str, is_file: bool, age_nanos: Option<u128>, max_age_nanos: u128) -> (b: bool)
    ensures
        b == (is_file && extension(path@) == Some("tmp"@) && match age_nanos {
            Some(a) => a > max_age_nanos,
            None => false,
        }),
{
    if !is_file || !has_extension(path, "tmp") {
        return false;
    }
    match age_nanos {
        Some(a) => a > max_age_nanos,
        None => false,
    }
}

/// The first position whose time is the greatest, counting only times after
/// the epoch (`0`); `None` when no position has one.
pub open spec fn latest_among(times: Seq<Option<u128>>) -> Option<int>
    decreases times.len(),
{
    if times.len() == 0 {
        None
    } else {
        let before = latest_among(times.drop_last());
        match times.last() {
            Some(t) => match before {
                Some(k) => if t > times[k]->0 {
                    Some(times.len() - 1)
                } else {
                    before
                },
                None => if t > 0 {
                    Some(times.len() - 1)
                } else {
                    None
                },
            },
            None => before,
        }
    }
}

proof fn lemma_latest_among(times: Seq<Option<u128>>)
    ensures
        match latest_among(times) {
            Some(k) => 0 <= k < times.len() && times[k] is Some && times[k]->0 > 0,
            None => true,
        },
    decreases times.len(),
{
    if times.len() > 0 {
        lemma_latest_among(times.drop_last());
    }
}

/// Which trace to load when none is named: among the candidates'
/// modification times (`None` where unknown), the first latest one after
/// the epoch.
pub fn latest_trace(times: &Vec<Option<u128>>) -> (r: Option<usize>)
    ensures
        match r {
            Some(k) => latest_among(times@) == Some(k as int),
            None => latest_among(times@) is None,
        },
{
    let mut best: Option<usize> = None;
    let mut best_time: u128 = 0;
    let mut i: usize = 0;
    while i < times.len()
        invariant
            i <= times.len(),
            match best {
                Some(k) => latest_among(times@.take(i as int)) == Some(k as int) && k < i && times@[k as int]
                    == Some(best_time),
                None => latest_among(times@.take(i as int)) is None && best_time == 0,
            },
        decreases times.len() - i,
    {
        proof {
            let t = times@.take(i + 1);
            assert(t.drop_last() =~= times@.take(i as int));
            assert(t.last() == times@[i as int]);
            lemma_latest_among(times@.take(i as int));
            if let Some(k) = best {
                assert(t[k as int] == times@[k as int]);
            }
        }
        match times[i] {
            Some(t) => {
                if t > best_time {
                    best = Some(i);
                    best_time = t;
                }
            },
            None => {},
        }
        i += 1;
    }
    assert(times@.take(times.len() as int) =~= times@);
    best
}

/// The key a trace is listed by: its start time, `0` when unknown.
pub open spec fn start_key(s: Option<u64>) -> u64 {
    match s {
        Some(t) => t,
        None => 0,
    }
}

/// Whether `order` lists positions `0..n` each once, newest start first,
/// ties kept in the order they were found in.
pub open spec fn newest_first(starts: Seq<Option<u64>>, order: Seq<usize>) -> bool {
    &&& order.len() == starts.len()
    &&& forall|i: int| 0 <= i < order.len() ==> (#[trigger] order[i]) < starts.len()
    &&& forall|i: int, j: int| 0 <= i < j < order.len() ==> order[i] != order[j]
    &&& forall|i: int, j: int|
        0 <= i < j < order.len() ==> start_key(starts[order[i] as int]) > start_key(starts[order[j] as int])
            || (start_key(starts[order[i] as int]) == start_key(starts[order[j] as int]) && order[i]
            < order[j])
}

/// Whether `a` comes before `b`: a later start, or the same start and an
/// earlier position.
pub open spec fn listed_before(starts: Seq<Option<u64>>, a: int, b: int) -> bool {
    start_key(starts[a]) > start_key(starts[b]) || (start_key(starts[a]) == start_key(starts[b]) && a < b)
}

fn key_of(s: Option<u64>) -> (k: u64)
    ensures
        k == start_key(s),
{
    match s {
        Some(t) => t,
        None => 0,
    }
}

/// The order traces are listed in: newest start first; traces that started
/// together keep the order they were found in.
pub fn trace_order(starts: &Vec<Option<u64>>) -> (order: Vec<usize>)
    ensures
        newest_first(starts@, order@),
{
    let n = starts.len();
    let mut order: Vec<usize> = Vec::new();
    let mut i: usize = 0;
    while i < n
        invariant
            n == starts.len(),
            i <= n,
            order.len() == i,
            forall|a: int| 0 <= a < order.len() ==> (#[trigger] order@[a]) < i,
            forall|a: int, b: int| 0 <= a < b < order.len() ==> order@[a] != order@[b],
            forall|a: int, b: int|
                0 <= a < b < order.len() ==> listed_before(starts@, order@[a] as int, order@[b] as int),
        decreases n - i,
    {
        let ki = key_of(starts[i]);
        // Find the insertion point: after every entry listed before `i`.
        let mut p: usize = 0;
        while p < order.len() && key_of(starts[order[p]]) >= ki
            invariant
                n == starts.len(),
                i < n,
                ki == start_key(starts@[i as int]),
                p <= order.len(),
                order.len() == i,
                forall|a: int| 0 <= a < order.len() ==> (#[trigger] order@[a]) < i,
                forall|a: int, b: int|
                    0 <= a < b < order.len() ==> listed_before(starts@, order@[a] as int, order@[b] as int),
                forall|a: int| 0 <= a < p ==> listed_before(starts@, #[trigger] order@[a] as int, i as int),
            decreases order.len() - p,
        {
            p += 1;
        }
        proof {
            assert forall|a: int| p <= a < order.len() implies listed_before(
                starts@,
                i as int,
                #[trigger] order@[a] as int,
            ) by {
                let q = order@[p as int];
                assert(start_key(starts@[q as int]) < ki);
                if a > p {
                    assert(listed_before(starts@, q as int, order@[a] as int));
                }
            }
        }
        let ghost before = order@;
        order.insert(p, i);
        proof {
            assert forall|a: int| 0 <= a < order.len() implies (#[trigger] order@[a]) < i + 1 by {
                if a < p {
                    assert(order@[a] == before[a]);
                } else if a > p {
                    assert(order@[a] == before[a - 1]);
                }
            }
            assert forall|a: int, b: int| 0 <= a < b < order.len() implies order@[a] != order@[b]
                && listed_before(starts@, order@[a] as int, order@[b] as int) by {
                if a < p {
                    assert(order@[a] == before[a]);
                    if b < p {
                        assert(order@[b] == before[b]);
                    } else if b > p {
                        assert(order@[b] == before[b - 1]);
                    }
                } else if a == p {
                    assert(order@[b] == before[b - 1]);
                } else {
                    assert(order@[a] == before[a - 1]);
                    assert(order@[b] == before[b - 1]);
                }
            }
        }
        i += 1;
    }
    proof {
        assert forall|a: int, b: int| 0 <= a < b < order.len() implies start_key(starts@[order@[a] as int])
            > start_key(starts@[order@[b] as int]) || (start_key(starts@[order@[a] as int]) == start_key(
            starts@[order@[b] as int],
        ) && order@[a] < order@[b]) by {
            assert(listed_before(starts@, order@[a] as int, order@[b] as int));
        }
    }
    order
}

} // verus!
