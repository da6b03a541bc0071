//! Clean-URL aliases for a page cache: `{dir}/index.html` is also served
//! as `{dir}`, and `{name}.html` as `{name}`. Existing keys are never
//! overwritten.
//!
//! Directory aliases are found first, against the cache's own keys; the
//! `.html` aliases are then found against the keys with the directory
//! aliases added, so a directory alias ending in `.html` gets an alias
//! of its own.
use vstd::prelude::*;

use crate::cache::{ends_with, ends_with_str, str_eq};
use crate::text::{chars_of, string_from_chars};

verus! {

broadcast use vstd::string::group_string_axioms;

/// The directory a `{dir}/index.html` key is the index of, if it has a
/// non-empty one.
pub open spec fn dir_alias(k: Seq<char>) -> Option<Seq<char>> {
    if ends_with(k, "/index.html"@) && k.len() > 11 {
        Some(k.take(k.len() - 11))
    } else {
        None
    }
}

/// The clean name of a `{name}.html` key, if it has a non-empty one and
/// is not an index page.
pub open spec fn html_alias(k: Seq<char>) -> Option<Seq<char>> {
    if k != "index.html"@ && !ends_with(k, "/index.html"@) && ends_with(k, ".html"@) && k.len() > 5 {
        Some(k.take(k.len() - 5))
    } else {
        None
    }
}

/// The aliases `f` proposes for `cands`, in order, each paired with the
/// key it serves, leaving out those already in `taken`.
pub open spec fn aliases_from(
    cands: Seq<Seq<char>>,
    taken: Seq<Seq<char>>,
    f: spec_fn(Seq<char>) -> Option<Seq<char>>,
) -> Seq<(Seq<char>, Seq<char>)>
    decreases cands.len(),
{
    if cands.len() == 0 {
        Seq::empty()
    } else {
        let prev = aliases_from(cands.drop_last(), taken, f);
        let k = cands.last();
        match f(k) {
            Some(a) => if taken.contains(a) {
                prev
            } else {
                prev.push((a, k))
            },
            None => prev,
        }
    }
}

/// The alias names of `plan`.
pub open spec fn alias_names(plan: Seq<(Seq<char>, Seq<char>)>) -> Seq<Seq<char>> {
    plan.map_values(|p: (Seq<char>, Seq<char>)| p.0)
}

/// The full plan for a cache with keys `keys`: the directory aliases,
/// then the `.html` aliases of the keys and directory aliases together.
pub open spec fn alias_plan(keys: Seq<Seq<char>>) -> Seq<(Seq<char>, Seq<char>)> {
    let dirs = aliases_from(keys, keys, |k: Seq<char>| dir_alias(k));
    let all = keys + alias_names(dirs);
    dirs + aliases_from(all, all, |k: Seq<char>| html_alias(k))
}

/// The characters of `v` as strings' views.
pub open spec fn views(v: Seq<String>) -> Seq<Seq<char>> {
    v.map_values(|s: String| s@)
}

fn contains_string(v: &Vec<String>, k: &str) -> (r: bool)
    ensures
        r == views(v@).contains(k@),
{
    let mut i: usize = 0;
    while i < v.len()
        invariant
            0 <= i <= v.len(),
            forall|j: int| 0 <= j < i ==> views(v@)[j] != k@,
        decreases v.len() - i,
    {
        if str_eq(v[i].as_str(), k) {
            assert(views(v@)[i as int] == k@);
            return true;
        }
        i = i + 1;
    }
    false
}

fn prefix(s: &str, n: usize) -> (r: String)
    requires
        n <= s@.len(),
    ensures
        r@ == s@.take(n as int),
{
    let v = chars_of(s);
    let mut w: Vec<char> = Vec::new();
    let mut i: usize = 0;
    while i < n
        invariant
            0 <= i <= n,
            n <= v@.len(),
            v@ == s@,
            w@ == s@.take(i as int),
        decreases n - i,
    {
        w.push(v[i]);
        assert(s@.take(i as int).push(s@[i as int]) =~= s@.take(i + 1));
        i = i + 1;
    }
    string_from_chars(&w)
}

fn dir_alias_of(k: &str) -> (r: Option<String>)
    ensures
        match dir_alias(k@) {
            Some(a) => r is Some && r->0@ == a,
            None => r is None,
        },
{
    let n = chars_of(k).len();
    proof {
        reveal_strlit("/index.html");
    }
    if ends_with_str(k, "/index.html") && n > 11 {
        Some(prefix(k, n - 11))
    } else {
        None
    }
}

fn html_alias_of(k: &str) -> (r: Option<String>)
    ensures
        match html_alias(k@) {
            Some(a) => r is Some && r->0@ == a,
            None => r is None,
        },
{
    let n = chars_of(k).len();
    proof {
        reveal_strlit(".html");
    }
    if !str_eq(k, "index.html") && !ends_with_str(k, "/index.html") && ends_with_str(k, ".html") && n > 5 {
        Some(prefix(k, n - 5))
    } else {
        None
    }
}

/// Append to `out` the aliases that `dir_alias` (when `dirs`) or
/// `html_alias` proposes for `cands`, leaving out those in `taken`.
fn push_aliases(cands: &Vec<String>, taken: &Vec<String>, dirs: bool, out: &mut Vec<(String, String)>)
    ensures
        plan_views(final(out)@) == plan_views(old(out)@) + aliases_from(
            views(cands@),
            views(taken@),
            if dirs {
                |k: Seq<char>| dir_alias(k)
            } else {
                |k: Seq<char>| html_alias(k)
            },
        ),
{
    let ghost f = if dirs {
        |k: Seq<char>| dir_alias(k)
    } else {
        |k: Seq<char>| html_alias(k)
    };
    let ghost start = plan_views(out@);
    let mut i: usize = 0;
    while i < cands.len()
        invariant
            0 <= i <= cands.len(),
            f == (if dirs {
                |k: Seq<char>| dir_alias(k)
            } else {
                |k: Seq<char>| html_alias(k)
            }),
            plan_views(out@) == start + aliases_from(views(cands@).take(i as int), views(taken@), f),
        decreases cands.len() - i,
    {
        let k = cands[i].as_str();
        let ghost next = views(cands@).take(i + 1);
        assert(next.drop_last() =~= views(cands@).take(i as int));
        assert(next.last() == k@);
        let proposed = if dirs {
            dir_alias_of(k)
        } else {
            html_alias_of(k)
        };
        assert(match f(k@) {
            Some(a) => proposed is Some && proposed->0@ == a,
            None => proposed is None,
        });
        match proposed {
            Some(a) => {
                if !contains_string(taken, a.as_str()) {
                    let ghost before = out@;
                    out.push((a, k.to_owned()));
                    assert(plan_views(out@) =~= plan_views(before).push((a@, k@)));
                }
            },
            None => {},
        }
        i = i + 1;
    }
    assert(views(cands@).take(cands.len() as int) =~= views(cands@));
}

/// The views of a plan's strings.
pub open spec fn plan_views(p: Seq<(String, String)>) -> Seq<(Seq<char>, Seq<char>)> {
    p.map_values(|e: (String, String)| (e.0@, e.1@))
}

/// The aliases to add to a cache whose keys are `keys`, each as
/// `(alias, key it serves)`, in the order they must be inserted: a
/// `.html` alias may serve a directory alias listed before it.
pub fn route_aliases(keys: &Vec<String>) -> (plan: Vec<(String, String)>)
    ensures
        plan_views(plan@) == alias_plan(views(keys@)),
{
    let mut plan: Vec<(String, String)> = Vec::new();
    push_aliases(keys, keys, true, &mut plan);
    let ghost dirs = plan_views(plan@);
    let mut all: Vec<String> = Vec::new();
    let mut i: usize = 0;
    while i < keys.len()
        invariant
            0 <= i <= keys.len(),
            views(all@) == views(keys@).take(i as int),
        decreases keys.len() - i,
    {
        let c = keys[i].clone();
        let ghost before = all@;
        all.push(c);
        assert(views(all@) == views(before).push(c@));
        assert(views(keys@).take(i as int).push(keys@[i as int]@) =~= views(keys@).take(i + 1));
        assert(views(all@) =~= views(keys@).take(i + 1));
        i = i + 1;
    }
    let mut j: usize = 0;
    while j < plan.len()
        invariant
            0 <= j <= plan.len(),
            plan_views(plan@) == dirs,
            views(all@) == views(keys@) + alias_names(dirs).take(j as int),
        decreases plan.len() - j,
    {
        let c = plan[j].0.clone();
        let ghost before = all@;
        assert(c@ == alias_names(dirs)[j as int]);
        all.push(c);
        assert(views(all@) == views(before).push(c@));
        assert(alias_names(dirs).take(j as int).push(alias_names(dirs)[j as int]) =~= alias_names(
            dirs,
        ).take(j + 1));
        assert(views(all@) =~= views(keys@) + alias_names(dirs).take(j + 1));
        j = j + 1;
    }
    assert(alias_names(dirs).take(plan.len() as int) =~= alias_names(dirs));
    assert(views(keys@).take(keys.len() as int) =~= views(keys@));
    push_aliases(&all, &all, false, &mut plan);
    plan
}

proof fn lemma_aliases_from_fresh(
    cands: Seq<Seq<char>>,
    taken: Seq<Seq<char>>,
    f: spec_fn(Seq<char>) -> Option<Seq<char>>,
)
    ensures
        forall|j: int| 0 <= j < aliases_from(cands, taken, f).len() ==> {
            let e = #[trigger] aliases_from(cands, taken, f)[j];
            &&& !taken.contains(e.0)
            &&& cands.contains(e.1)
            &&& f(e.1) == Some(e.0)
        },
    decreases cands.len(),
{
    if cands.len() > 0 {
        lemma_aliases_from_fresh(cands.drop_last(), taken, f);
        let prev = aliases_from(cands.drop_last(), taken, f);
        let cur = aliases_from(cands, taken, f);
        assert forall|j: int| 0 <= j < cur.len() implies {
            let e = #[trigger] cur[j];
            &&& !taken.contains(e.0)
            &&& cands.contains(e.1)
            &&& f(e.1) == Some(e.0)
        } by {
            if j < prev.len() {
                assert(cur[j] == prev[j]);
                let k = choose|k: int| 0 <= k < cands.drop_last().len() && cands.drop_last()[k] == prev[j].1;
                assert(cands[k] == cands.drop_last()[k]);
            } else {
                assert(cands[cands.len() - 1] == cands.last());
            }
        }
    }
}

/// The alias names: `{stem}/index.html` is the index of directory
/// `{stem}`, and `{stem}.html` is page `{stem}` unless it is itself an
/// index page (`index.html` or `.../index.html`).
pub proof fn law_alias_names(stem: Seq<char>)
    requires
        stem.len() > 0,
    ensures
        dir_alias(stem + "/index.html"@) == Some(stem),
        stem != "index"@ && !(stem.len() >= 6 && stem.skip(stem.len() - 6) == "/index"@) ==> html_alias(
            stem + ".html"@,
        ) == Some(stem),
{
    reveal_strlit("/index.html");
    reveal_strlit("index.html");
    reveal_strlit(".html");
    reveal_strlit("index");
    reveal_strlit("/index");
    let d = stem + "/index.html"@;
    assert(d.skip(d.len() - 11) =~= "/index.html"@);
    assert(d.take(d.len() - 11) =~= stem);
    let h = stem + ".html"@;
    assert(h.skip(h.len() - 5) =~= ".html"@);
    assert(h.take(h.len() - 5) =~= stem);
    if stem != "index"@ && !(stem.len() >= 6 && stem.skip(stem.len() - 6) == "/index"@) {
        if h == "index.html"@ {
            assert(stem =~= h.take(5));
            assert(stem =~= "index"@);
        }
        if ends_with(h, "/index.html"@) {
            assert(stem.skip(stem.len() - 6) =~= h.skip(h.len() - 11).take(6));
            assert(stem.skip(stem.len() - 6) =~= "/index"@);
        }
    }
}

/// Aliases never replace a page: no alias is already a key, each serves
/// a key of the cache or an alias listed before it, and each serves the
/// page its name points to (`{alias}/index.html` or `{alias}.html`).
pub proof fn law_aliases_never_overwrite(keys: Seq<Seq<char>>)
    ensures
        forall|j: int| 0 <= j < alias_plan(keys).len() ==> {
            let e = #[trigger] alias_plan(keys)[j];
            &&& !keys.contains(e.0)
            &&& (keys.contains(e.1) || exists|i: int| 0 <= i < j && alias_plan(keys)[i].0 == e.1)
            &&& (dir_alias(e.1) == Some(e.0) || html_alias(e.1) == Some(e.0))
        },
{
    let dirs = aliases_from(keys, keys, |k: Seq<char>| dir_alias(k));
    let all = keys + alias_names(dirs);
    let htmls = aliases_from(all, all, |k: Seq<char>| html_alias(k));
    lemma_aliases_from_fresh(keys, keys, |k: Seq<char>| dir_alias(k));
    lemma_aliases_from_fresh(all, all, |k: Seq<char>| html_alias(k));
    let plan = alias_plan(keys);
    assert(plan == dirs + htmls);
    assert forall|j: int| 0 <= j < plan.len() implies {
        let e = #[trigger] plan[j];
        &&& !keys.contains(e.0)
        &&& (keys.contains(e.1) || exists|i: int| 0 <= i < j && plan[i].0 == e.1)
        &&& (dir_alias(e.1) == Some(e.0) || html_alias(e.1) == Some(e.0))
    } by {
        if j < dirs.len() {
            assert(plan[j] == dirs[j]);
        } else {
            let e = htmls[j - dirs.len()];
            assert(plan[j] == e);
            assert(!all.contains(e.0));
            if keys.contains(e.0) {
                let k = choose|k: int| 0 <= k < keys.len() && keys[k] == e.0;
                assert(all[k] == keys[k]);
            }
            let k = choose|k: int| 0 <= k < all.len() && all[k] == e.1;
            if k >= keys.len() {
                let i = k - keys.len();
                assert(all[k] == alias_names(dirs)[i]);
                assert(plan[i] == dirs[i]);
            } else {
                assert(keys[k] == all[k]);
            }
        }
    }
}

} // verus!
