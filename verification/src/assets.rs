//! Matching the textures that registered content asks for with the picture
//! files found on disk.

use vstd::prelude::*;

use crate::atlas::SpriteIds;
use crate::text::{chars_of, string_eq_str};

verus! {

/// The file stem of a path: its file name without the last extension, as
/// `std::path::Path::file_stem` computes it.
pub uninterp spec fn path_file_stem(path: Seq<char>) -> Option<Seq<char>>;

/// Calls `std::path::Path::file_stem` on `path` and turns the stem into a
/// `String`. The stem of a path given as text is text itself, so nothing is
/// lost in that turn. What the stem is, is left to the name `path_file_stem`.
#[verifier::external_body]
fn file_stem(path: &String) -> (r: Option<String>)
    ensures
        match r {
            Some(s) => path_file_stem(path@) == Some(s@),
            None => path_file_stem(path@) is None,
        },
{
    match std::path::Path::new(path.as_str()).file_stem() {
        Some(stem) => Some(stem.to_string_lossy().into_owned()),
        None => None,
    }
}

/// The text after the last slash of `s` (or, when `backslash_too`, after the last
/// slash or backslash); all of `s` when there is none.
pub open spec fn after_last_sep(s: Seq<char>, backslash_too: bool) -> Seq<char>
    decreases s.len(),
{
    if s.len() == 0 {
        s
    } else if s.last() == '/' || (backslash_too && s.last() == '\\') {
        Seq::empty()
    } else {
        after_last_sep(s.drop_last(), backslash_too).push(s.last())
    }
}

/// `after_last_sep` on a string.
fn tail_after_sep(s: &String, backslash_too: bool) -> (r: String)
    ensures
        r@ == after_last_sep(s@, backslash_too),
{
    let chars = chars_of(s.as_str());
    let ghost t = s@;
    let mut start: usize = 0;
    let mut i: usize = 0;
    assert(t.take(0) =~= Seq::<char>::empty());
    while i < chars.len()
        invariant
            chars@ == t,
            t == s@,
            start <= i <= t.len(),
            after_last_sep(t.take(i as int), backslash_too) == t.subrange(start as int, i as int),
        decreases t.len() - i,
    {
        assert(t.take(i as int + 1).drop_last() =~= t.take(i as int));
        assert(t.take(i as int + 1).last() == t[i as int]);
        let c = chars[i];
        if c == '/' || (backslash_too && c == '\\') {
            start = i + 1;
            assert(t.subrange(start as int, start as int) =~= Seq::<char>::empty());
        } else {
            assert(t.subrange(start as int, i as int).push(c) =~= t.subrange(
                start as int,
                i as int + 1,
            ));
        }
        i = i + 1;
    }
    assert(t.take(t.len() as int) =~= t);
    let part = s.as_str().substring_char(start, chars.len());
    String::from_str(part)
}

/// The texts of a sequence of strings.
pub open spec fn texts(v: Seq<String>) -> Seq<Seq<char>> {
    v.map_values(|s: String| s@)
}

/// One requested texture `f` checked against the found files `checks`, in order:
/// each file with the same stem is added unless it is listed already.
pub open spec fn assets_step(acc: Seq<Seq<char>>, f: Seq<char>, checks: Seq<Seq<char>>) -> Seq<
    Seq<char>,
>
    decreases checks.len(),
{
    if checks.len() == 0 {
        acc
    } else {
        let prev = assets_step(acc, f, checks.drop_last());
        let c = checks.last();
        if path_file_stem(c) is Some && path_file_stem(c) == path_file_stem(f) && !prev.contains(c) {
            prev.push(c)
        } else {
            prev
        }
    }
}

/// The found files that some requested texture names by its stem, each once, in
/// the order the requests and then the files come.
pub open spec fn spec_assets(find: Seq<Seq<char>>, checks: Seq<Seq<char>>) -> Seq<Seq<char>>
    decreases find.len(),
{
    if find.len() == 0 {
        Seq::empty()
    } else {
        assets_step(spec_assets(find.drop_last(), checks), find.last(), checks)
    }
}

/// Every request without a stem meets only files without one.
pub open spec fn stems_fit(find: Seq<Seq<char>>, checks: Seq<Seq<char>>) -> bool {
    forall|i: int|
        0 <= i < find.len() && (#[trigger] path_file_stem(find[i])) is None ==> forall|j: int|
            0 <= j < checks.len() ==> (#[trigger] path_file_stem(checks[j])) is None
}

fn contains_text(v: &Vec<String>, s: &String) -> (r: bool)
    ensures
        r == texts(v@).contains(s@),
{
    let mut k: usize = 0;
    while k < v.len()
        invariant
            k <= v@.len(),
            forall|m: int| 0 <= m < k ==> (#[trigger] v@[m])@ != s@,
        decreases v@.len() - k,
    {
        if string_eq_str(s, v[k].as_str()) {
            assert(texts(v@)[k as int] == s@);
            return true;
        }
        k = k + 1;
    }
    assert forall|m: int| 0 <= m < texts(v@).len() implies texts(v@)[m] != s@ by {
        assert(texts(v@)[m] == v@[m]@);
    }
    false
}

/// The found files named by the requested textures, each once. A request whose
/// path has no stem must not meet a file whose path has one.
pub fn process_assets(find: &Vec<String>, check: &Vec<String>) -> (r: Vec<String>)
    requires
        stems_fit(texts(find@), texts(check@)),
    ensures
        texts(r@) == spec_assets(texts(find@), texts(check@)),
{
    let ghost fs = texts(find@);
    let ghost cs = texts(check@);
    let mut result: Vec<String> = Vec::new();
    let mut i: usize = 0;
    assert(fs.take(0) =~= Seq::<Seq<char>>::empty());
    assert(texts(result@) =~= Seq::<Seq<char>>::empty());
    while i < find.len()
        invariant
            fs == texts(find@),
            cs == texts(check@),
            stems_fit(fs, cs),
            i <= find@.len(),
            texts(result@) == spec_assets(fs.take(i as int), cs),
        decreases find@.len() - i,
    {
        let find_stem = file_stem(&find[i]);
        assert(fs.take(i as int + 1).drop_last() =~= fs.take(i as int));
        assert(fs.take(i as int + 1).last() == fs[i as int]);
        let ghost acc = texts(result@);
        let mut j: usize = 0;
        assert(cs.take(0) =~= Seq::<Seq<char>>::empty());
        while j < check.len()
            invariant
                fs == texts(find@),
                cs == texts(check@),
                stems_fit(fs, cs),
                i < find@.len(),
                j <= check@.len(),
                match find_stem {
                    Some(x) => path_file_stem(fs[i as int]) == Some(x@),
                    None => path_file_stem(fs[i as int]) is None,
                },
                texts(result@) == assets_step(acc, fs[i as int], cs.take(j as int)),
            decreases check@.len() - j,
        {
            assert(cs.take(j as int + 1).drop_last() =~= cs.take(j as int));
            assert(cs.take(j as int + 1).last() == cs[j as int]);
            assert(cs[j as int] == check@[j as int]@);
            assert(fs[i as int] == find@[i as int]@);
            match file_stem(&check[j]) {
                Some(c_stem) => {
                    match &find_stem {
                        Some(f_stem) => {
                            if c_stem == *f_stem {
                                if !contains_text(&result, &check[j]) {
                                    let ghost before = result@;
                                    result.push(check[j].clone());
                                    assert(texts(result@) =~= texts(before).push(cs[j as int]));
                                }
                            }
                        },
                        None => {
                            assert(path_file_stem(cs[j as int]) is None);
                        },
                    }
                },
                None => {},
            }
            j = j + 1;
        }
        assert(cs.take(check@.len() as int) =~= cs);
        i = i + 1;
    }
    assert(fs.take(find@.len() as int) =~= fs);
    result
}

/// `process_assets`, or `None` when a request without a stem meets a file with one.
pub fn match_assets(find: &Vec<String>, check: &Vec<String>) -> (r: Option<Vec<String>>)
    ensures
        stems_fit(texts(find@), texts(check@)) ==> (r matches Some(v) && texts(v@) == spec_assets(
            texts(find@),
            texts(check@),
        )),
        !stems_fit(texts(find@), texts(check@)) ==> r is None,
{
    let ghost fs = texts(find@);
    let ghost cs = texts(check@);
    let mut any_check_stem = false;
    let mut j: usize = 0;
    while j < check.len()
        invariant
            cs == texts(check@),
            j <= check@.len(),
            any_check_stem == exists|m: int| 0 <= m < j && (#[trigger] path_file_stem(cs[m])) is Some,
        decreases check@.len() - j,
    {
        assert(cs[j as int] == check@[j as int]@);
        if file_stem(&check[j]).is_some() {
            any_check_stem = true;
        }
        j = j + 1;
    }
    if !any_check_stem {
        return Some(process_assets(find, check));
    }
    let mut i: usize = 0;
    while i < find.len()
        invariant
            fs == texts(find@),
            cs == texts(check@),
            i <= find@.len(),
            exists|m: int| 0 <= m < cs.len() && (#[trigger] path_file_stem(cs[m])) is Some,
            forall|m: int| 0 <= m < i ==> (#[trigger] path_file_stem(fs[m])) is Some,
        decreases find@.len() - i,
    {
        assert(fs[i as int] == find@[i as int]@);
        if file_stem(&find[i]).is_none() {
            return None;
        }
        i = i + 1;
    }
    Some(process_assets(find, check))
}

/// Names of the pictures the interface needs.
pub open spec fn required_ui(stem: Option<Seq<char>>) -> bool {
    match stem {
        Some(s) => s == "about_avatar_ui_btn"@ || s == "inv_ui_btn"@ || s == "crafting_ui_btn"@ || s
            == "select"@,
        None => false,
    }
}

/// The found files, in order, whose stem names a picture the interface needs.
pub open spec fn spec_ui_assets(checks: Seq<Seq<char>>) -> Seq<Seq<char>>
    decreases checks.len(),
{
    if checks.len() == 0 {
        Seq::empty()
    } else {
        let prev = spec_ui_assets(checks.drop_last());
        if required_ui(path_file_stem(checks.last())) {
            prev.push(checks.last())
        } else {
            prev
        }
    }
}

/// The found files whose stem names a picture the interface needs.
pub fn process_ui_assets(check: &Vec<String>) -> (r: Vec<String>)
    ensures
        texts(r@) == spec_ui_assets(texts(check@)),
{
    let ghost cs = texts(check@);
    let mut valid: Vec<String> = Vec::new();
    let mut j: usize = 0;
    assert(cs.take(0) =~= Seq::<Seq<char>>::empty());
    assert(texts(valid@) =~= Seq::<Seq<char>>::empty());
    while j < check.len()
        invariant
            cs == texts(check@),
            j <= check@.len(),
            texts(valid@) == spec_ui_assets(cs.take(j as int)),
        decreases check@.len() - j,
    {
        assert(cs.take(j as int + 1).drop_last() =~= cs.take(j as int));
        assert(cs.take(j as int + 1).last() == cs[j as int]);
        assert(cs[j as int] == check@[j as int]@);
        match file_stem(&check[j]) {
            Some(stem) => {
                if string_eq_str(&stem, "about_avatar_ui_btn") || string_eq_str(&stem, "inv_ui_btn")
                    || string_eq_str(&stem, "crafting_ui_btn") || string_eq_str(&stem, "select") {
                    let ghost before = valid@;
                    valid.push(check[j].clone());
                    assert(texts(valid@) =~= texts(before).push(cs[j as int]));
                }
            },
            None => {},
        }
        j = j + 1;
    }
    assert(cs.take(check@.len() as int) =~= cs);
    valid
}

pub open spec fn no_duplicates(s: Seq<Seq<char>>) -> bool {
    forall|a: int, b: int| 0 <= a < b < s.len() ==> s[a] != s[b]
}

proof fn lemma_step_distinct_known(acc: Seq<Seq<char>>, f: Seq<char>, checks: Seq<Seq<char>>, all: Seq<Seq<char>>)
    requires
        no_duplicates(acc),
        forall|x: Seq<char>| acc.contains(x) ==> all.contains(x),
        forall|x: Seq<char>| checks.contains(x) ==> all.contains(x),
    ensures
        no_duplicates(assets_step(acc, f, checks)),
        forall|x: Seq<char>| assets_step(acc, f, checks).contains(x) ==> all.contains(x),
    decreases checks.len(),
{
    if checks.len() > 0 {
        let d = checks.drop_last();
        assert forall|x: Seq<char>| d.contains(x) implies all.contains(x) by {
            let k = choose|k: int| 0 <= k < d.len() && d[k] == x;
            assert(checks[k] == x);
        }
        lemma_step_distinct_known(acc, f, d, all);
        let prev = assets_step(acc, f, d);
        let c = checks.last();
        assert(checks.contains(c)) by {
            assert(checks[checks.len() - 1] == c);
        }
        if path_file_stem(c) is Some && path_file_stem(c) == path_file_stem(f) && !prev.contains(c) {
            let next = prev.push(c);
            assert forall|a: int, b: int| 0 <= a < b < next.len() implies next[a] != next[b] by {
                if b == next.len() - 1 {
                    assert(prev[a] == next[a]);
                    if next[a] == next[b] {
                        assert(prev.contains(c));
                    }
                }
            }
            assert forall|x: Seq<char>| next.contains(x) implies all.contains(x) by {
                let k = choose|k: int| 0 <= k < next.len() && next[k] == x;
                if k < prev.len() {
                    assert(prev[k] == x);
                }
            }
        }
    }
}

/// The texture list never names a file twice, and names only files that were found.
pub proof fn law_assets_distinct_and_found(find: Seq<Seq<char>>, checks: Seq<Seq<char>>)
    ensures
        no_duplicates(spec_assets(find, checks)),
        forall|x: Seq<char>| spec_assets(find, checks).contains(x) ==> checks.contains(x),
    decreases find.len(),
{
    if find.len() > 0 {
        law_assets_distinct_and_found(find.drop_last(), checks);
        lemma_step_distinct_known(spec_assets(find.drop_last(), checks), find.last(), checks, checks);
    }
}

} // verus!

verus! {

/// The texts of a sequence of optional strings.
pub open spec fn opt_texts(v: Seq<Option<String>>) -> Seq<Option<Seq<char>>> {
    v.map_values(
        |o: Option<String>|
            match o {
                Some(s) => Some(s@),
                None => None,
            },
    )
}

/// How many requested textures have `name` as the part after their last separator.
pub open spec fn count_named(req: Seq<Seq<char>>, name: Seq<char>) -> nat
    decreases req.len(),
{
    if req.len() == 0 {
        0
    } else {
        count_named(req.drop_last(), name) + if after_last_sep(req.last(), true) == name {
            1nat
        } else {
            0nat
        }
    }
}

/// The name an atlas entry is known by: the stem of the part of its path after
/// the last slash.
pub open spec fn atlas_name(path: Seq<char>) -> Option<Seq<char>> {
    path_file_stem(after_last_sep(path, false))
}

/// The atlas made from the first `n` found files: the table from picture names
/// to places, and, place by place, the found file put there. Each found file
/// that has a path and is a picture goes in once for each requested texture
/// whose last path part equals its own; its name then points at the last of
/// those places.
pub open spec fn atlas_plan(
    found: Seq<Option<Seq<char>>>,
    images: Seq<bool>,
    req: Seq<Seq<char>>,
    n: nat,
) -> (Map<Seq<char>, usize>, Seq<usize>)
    decreases n,
{
    if n == 0 {
        (Map::empty(), Seq::empty())
    } else {
        let prev = atlas_plan(found, images, req, (n - 1) as nat);
        let i = n - 1;
        match found[i] {
            Some(p) => {
                let k = count_named(req, after_last_sep(p, true));
                if images[i] && k > 0 {
                    (
                        prev.0.insert(atlas_name(p)->0, (prev.1.len() + k - 1) as usize),
                        prev.1 + Seq::new(k, |_j: int| i as usize),
                    )
                } else {
                    prev
                }
            },
            None => prev,
        }
    }
}

/// Every found picture that some request names has a name.
pub open spec fn atlas_names_present(
    found: Seq<Option<Seq<char>>>,
    images: Seq<bool>,
    req: Seq<Seq<char>>,
) -> bool {
    forall|i: int|
        0 <= i < found.len() && images[i] && (#[trigger] found[i]) is Some && count_named(
            req,
            after_last_sep(found[i]->0, true),
        ) > 0 ==> atlas_name(found[i]->0) is Some
}

proof fn lemma_count_named_take(req: Seq<Seq<char>>, name: Seq<char>, j: int)
    requires
        0 <= j <= req.len(),
    ensures
        count_named(req.take(j), name) <= count_named(req, name),
    decreases req.len(),
{
    if j == req.len() {
        assert(req.take(j) =~= req);
    } else {
        assert(req.drop_last().take(j) =~= req.take(j));
        lemma_count_named_take(req.drop_last(), name, j);
    }
}

/// Lays out an atlas: which found files go in, in what order, and the table from
/// picture names to their places. `found` holds the path of each loaded file,
/// where it has one; `images[i]` tells whether the `i`-th one is a picture;
/// `requested` lists the textures that content asked for. A found picture that
/// a request names must have a name.
pub fn index_atlas(found: &Vec<Option<String>>, images: &Vec<bool>, requested: &Vec<String>) -> (r: (
    SpriteIds,
    Vec<usize>,
))
    requires
        found@.len() == images@.len(),
        atlas_names_present(opt_texts(found@), images@, texts(requested@)),
    ensures
        (r.0@, r.1@) == atlas_plan(
            opt_texts(found@),
            images@,
            texts(requested@),
            found@.len() as nat,
        ),
{
    let ghost fs = opt_texts(found@);
    let ghost rs = texts(requested@);
    let mut ids = SpriteIds::new();
    let mut order: Vec<usize> = Vec::new();
    let mut n: usize = 0;
    while n < found.len()
        invariant
            fs == opt_texts(found@),
            rs == texts(requested@),
            found@.len() == images@.len(),
            atlas_names_present(fs, images@, rs),
            n <= found@.len(),
            (ids@, order@) == atlas_plan(fs, images@, rs, n as nat),
        decreases found@.len() - n,
    {
        let ghost prev = atlas_plan(fs, images@, rs, n as nat);
        assert(fs[n as int] == match found@[n as int] {
            Some(s) => Some(s@),
            None => None::<Seq<char>>,
        });
        match &found[n] {
            Some(p) => {
                if images[n] {
                    let base = tail_after_sep(p, true);
                    let ghost k = count_named(rs, base@);
                    let mut j: usize = 0;
                    let ghost mut cnt: nat = 0;
                    assert(rs.take(0) =~= Seq::<Seq<char>>::empty());
                    assert(prev.1 + Seq::new(0, |_j: int| n) =~= prev.1);
                    while j < requested.len()
                        invariant
                            fs == opt_texts(found@),
                            rs == texts(requested@),
                            n < found@.len(),
                            found@.len() == images@.len(),
                            images@[n as int],
                            fs[n as int] == Some(p@),
                            base@ == after_last_sep(p@, true),
                            k == count_named(rs, base@),
                            atlas_names_present(fs, images@, rs),
                            j <= requested@.len(),
                            cnt == count_named(rs.take(j as int), base@),
                            order@ == prev.1 + Seq::new(cnt, |_j: int| n),
                            cnt == 0 ==> ids@ == prev.0,
                            cnt > 0 ==> ids@ == prev.0.insert(
                                atlas_name(p@)->0,
                                (prev.1.len() + cnt - 1) as usize,
                            ),
                        decreases requested@.len() - j,
                    {
                        assert(rs.take(j as int + 1).drop_last() =~= rs.take(j as int));
                        assert(rs.take(j as int + 1).last() == rs[j as int]);
                        assert(rs[j as int] == requested@[j as int]@);
                        let rb = tail_after_sep(&requested[j], true);
                        if string_eq_str(&rb, base.as_str()) {
                            proof {
                                lemma_count_named_take(rs, base@, j as int + 1);
                                assert(fs[n as int] is Some);
                            }
                            let file = tail_after_sep(p, false);
                            match file_stem(&file) {
                                Some(stem) => {
                                    let pos = order.len();
                                    ids.insert(stem, pos);
                                    order.push(n);
                                    proof {
                                        assert(order@ =~= prev.1 + Seq::new(
                                            cnt + 1,
                                            |_j: int| n,
                                        ));
                                        cnt = cnt + 1;
                                    }
                                },
                                None => {
                                    assert(false);
                                },
                            }
                        }
                        j = j + 1;
                    }
                    assert(rs.take(requested@.len() as int) =~= rs);
                    assert(Seq::new(cnt, |_j: int| n) =~= Seq::new(
                        cnt,
                        |_j: int| (n as int) as usize,
                    ));
                }
            },
            None => {},
        }
        n = n + 1;
    }
    (ids, order)
}

/// Whether some requested texture has `name` as the part after its last separator.
fn any_named(requested: &Vec<String>, name: &String) -> (r: bool)
    ensures
        r == (count_named(texts(requested@), name@) > 0),
{
    let ghost rs = texts(requested@);
    let mut j: usize = 0;
    let mut hit = false;
    assert(rs.take(0) =~= Seq::<Seq<char>>::empty());
    while j < requested.len()
        invariant
            rs == texts(requested@),
            j <= requested@.len(),
            hit == (count_named(rs.take(j as int), name@) > 0),
        decreases requested@.len() - j,
    {
        assert(rs.take(j as int + 1).drop_last() =~= rs.take(j as int));
        assert(rs.take(j as int + 1).last() == rs[j as int]);
        assert(rs[j as int] == requested@[j as int]@);
        let rb = tail_after_sep(&requested[j], true);
        if string_eq_str(&rb, name.as_str()) {
            hit = true;
        }
        j = j + 1;
    }
    assert(rs.take(requested@.len() as int) =~= rs);
    hit
}

/// `index_atlas`, or `None` when the two lists of found files differ in length or
/// a found picture that a request names has no name.
pub fn try_index_atlas(found: &Vec<Option<String>>, images: &Vec<bool>, requested: &Vec<String>) -> (r:
    Option<(SpriteIds, Vec<usize>)>)
    ensures
        r is Some <==> (found@.len() == images@.len() && atlas_names_present(
            opt_texts(found@),
            images@,
            texts(requested@),
        )),
        r matches Some(plan) ==> (plan.0@, plan.1@) == atlas_plan(
            opt_texts(found@),
            images@,
            texts(requested@),
            found@.len() as nat,
        ),
{
    if found.len() != images.len() {
        return None;
    }
    let ghost fs = opt_texts(found@);
    let ghost rs = texts(requested@);
    let mut i: usize = 0;
    while i < found.len()
        invariant
            fs == opt_texts(found@),
            rs == texts(requested@),
            found@.len() == images@.len(),
            i <= found@.len(),
            forall|m: int|
                0 <= m < i && images@[m] && (#[trigger] fs[m]) is Some && count_named(
                    rs,
                    after_last_sep(fs[m]->0, true),
                ) > 0 ==> atlas_name(fs[m]->0) is Some,
        decreases found@.len() - i,
    {
        assert(fs[i as int] == match found@[i as int] {
            Some(s) => Some(s@),
            None => None::<Seq<char>>,
        });
        match &found[i] {
            Some(p) => {
                if images[i] {
                    let base = tail_after_sep(p, true);
                    if any_named(requested, &base) {
                        let file = tail_after_sep(p, false);
                        if file_stem(&file).is_none() {
                            assert(!atlas_names_present(fs, images@, rs)) by {
                                assert(fs[i as int] is Some);
                            }
                            return None;
                        }
                    }
                }
            },
            None => {},
        }
        i = i + 1;
    }
    Some(index_atlas(found, images, requested))
}

/// In an atlas laid out from found files, every place holds a found picture that
/// some request names, and every name in the table points at a place whose file
/// has that name. (Places are counted in `usize`, so the atlas is taken to fit.)
pub proof fn law_atlas_names_point_at_their_files(
    found: Seq<Option<Seq<char>>>,
    images: Seq<bool>,
    req: Seq<Seq<char>>,
    n: nat,
)
    requires
        n <= found.len() <= usize::MAX,
        found.len() == images.len(),
        atlas_names_present(found, images, req),
        atlas_plan(found, images, req, n).1.len() <= usize::MAX,
    ensures
        ({
            let plan = atlas_plan(found, images, req, n);
            &&& forall|k: int|
                0 <= k < plan.1.len() ==> {
                    let i = #[trigger] plan.1[k];
                    &&& i < n
                    &&& images[i as int]
                    &&& found[i as int] is Some
                    &&& count_named(req, after_last_sep(found[i as int]->0, true)) > 0
                }
            &&& forall|name: Seq<char>|
                #[trigger] plan.0.contains_key(name) ==> {
                    let k = plan.0[name];
                    &&& k < plan.1.len()
                    &&& atlas_name(found[plan.1[k as int] as int]->0) == Some(name)
                }
        }),
    decreases n,
{
    if n > 0 {
        let prev = atlas_plan(found, images, req, (n - 1) as nat);
        let plan = atlas_plan(found, images, req, n);
        assert(prev.1.len() <= plan.1.len());
        law_atlas_names_point_at_their_files(found, images, req, (n - 1) as nat);
        let i = n - 1;
        match found[i] {
            Some(p) => {
                let k = count_named(req, after_last_sep(p, true));
                if images[i] && k > 0 {
                    assert(found[i as int] is Some);
                    assert forall|m: int| 0 <= m < plan.1.len() implies {
                        let x = #[trigger] plan.1[m];
                        &&& x < n
                        &&& images[x as int]
                        &&& found[x as int] is Some
                        &&& count_named(req, after_last_sep(found[x as int]->0, true)) > 0
                    } by {
                        if m < prev.1.len() {
                            assert(plan.1[m] == prev.1[m]);
                        } else {
                            assert(plan.1[m] == i as usize);
                        }
                    }
                    assert forall|name: Seq<char>| #[trigger] plan.0.contains_key(name) implies {
                        let q = plan.0[name];
                        &&& q < plan.1.len()
                        &&& atlas_name(found[plan.1[q as int] as int]->0) == Some(name)
                    } by {
                        if name == atlas_name(p)->0 {
                            assert(plan.0[name] == (prev.1.len() + k - 1) as usize);
                            assert(plan.1[prev.1.len() + k - 1] == i as usize);
                        } else {
                            assert(prev.0.contains_key(name));
                            let q = prev.0[name];
                            assert(plan.1[q as int] == prev.1[q as int]);
                        }
                    }
                }
            },
            None => {},
        }
    }
}

/// In an atlas laid out from found files, the name of the file at every place is
/// in the table, and the table points each name at the last place, in folder
/// order, whose file has that name: a later file with the same name replaces an
/// earlier one in the table.
pub proof fn law_atlas_name_points_at_last_place(
    found: Seq<Option<Seq<char>>>,
    images: Seq<bool>,
    req: Seq<Seq<char>>,
    n: nat,
)
    requires
        n <= found.len() <= usize::MAX,
        found.len() == images.len(),
        atlas_names_present(found, images, req),
        atlas_plan(found, images, req, n).1.len() <= usize::MAX,
    ensures
        ({
            let plan = atlas_plan(found, images, req, n);
            &&& forall|k: int|
                0 <= k < plan.1.len() ==> {
                    let name = atlas_name(found[(#[trigger] plan.1[k]) as int]->0)->0;
                    &&& plan.0.contains_key(name)
                    &&& k <= plan.0[name]
                }
            &&& forall|name: Seq<char>, k: int|
                #![trigger plan.0.contains_key(name), plan.1[k]]
                plan.0.contains_key(name) && plan.0[name] < k < plan.1.len() ==> atlas_name(
                    found[plan.1[k] as int]->0,
                ) != Some(name)
        }),
    decreases n,
{
    if n > 0 {
        let prev = atlas_plan(found, images, req, (n - 1) as nat);
        let plan = atlas_plan(found, images, req, n);
        assert(prev.1.len() <= plan.1.len());
        law_atlas_name_points_at_last_place(found, images, req, (n - 1) as nat);
        law_atlas_names_point_at_their_files(found, images, req, (n - 1) as nat);
        let i = n - 1;
        match found[i] {
            Some(p) => {
                let k = count_named(req, after_last_sep(p, true));
                if images[i] && k > 0 {
                    assert(found[i as int] is Some);
                    let nm = atlas_name(p)->0;
                    let l = prev.1.len();
                    assert(atlas_name(p) == Some(nm));
                    assert forall|m: int| 0 <= m < plan.1.len() implies {
                        let name = atlas_name(found[(#[trigger] plan.1[m]) as int]->0)->0;
                        &&& plan.0.contains_key(name)
                        &&& m <= plan.0[name]
                    } by {
                        if m < l {
                            assert(plan.1[m] == prev.1[m]);
                        } else {
                            assert(plan.1[m] == i as usize);
                        }
                    }
                    assert forall|name: Seq<char>, m: int|
                        plan.0.contains_key(name) && plan.0[name] < m < plan.1.len() implies atlas_name(
                        found[plan.1[m] as int]->0,
                    ) != Some(name) by {
                        if name != nm {
                            assert(prev.0.contains_key(name));
                            assert(plan.0[name] == prev.0[name]);
                            if m < l {
                                assert(plan.1[m] == prev.1[m]);
                                assert(prev.0.contains_key(name) && prev.0[name] < m < prev.1.len());
                            } else {
                                assert(plan.1[m] == i as usize);
                            }
                        }
                    }
                }
            },
            None => {},
        }
    }
}

proof fn lemma_assets_step_members(acc: Seq<Seq<char>>, f: Seq<char>, checks: Seq<Seq<char>>)
    ensures
        forall|x: Seq<char>| acc.contains(x) ==> #[trigger] assets_step(acc, f, checks).contains(x),
        forall|j: int|
            0 <= j < checks.len() && path_file_stem(checks[j]) is Some && path_file_stem(checks[j])
                == path_file_stem(f) ==> #[trigger] assets_step(acc, f, checks).contains(checks[j]),
        forall|x: Seq<char>|
            #[trigger] assets_step(acc, f, checks).contains(x) ==> acc.contains(x) || exists|j: int|
                0 <= j < checks.len() && checks[j] == x && path_file_stem(x) is Some
                    && path_file_stem(x) == path_file_stem(f),
    decreases checks.len(),
{
    if checks.len() > 0 {
        let d = checks.drop_last();
        lemma_assets_step_members(acc, f, d);
        let prev = assets_step(acc, f, d);
        let c = checks.last();
        let cur = assets_step(acc, f, checks);
        assert forall|x: Seq<char>| prev.contains(x) implies cur.contains(x) by {
            let k = choose|k: int| 0 <= k < prev.len() && prev[k] == x;
            assert(cur[k] == x);
        }
        assert forall|j: int|
            0 <= j < checks.len() && path_file_stem(checks[j]) is Some && path_file_stem(checks[j])
                == path_file_stem(f) implies cur.contains(checks[j]) by {
            if j < d.len() {
                assert(d[j] == checks[j]);
                assert(prev.contains(d[j]));
            } else if !prev.contains(c) {
                assert(cur[prev.len() as int] == c);
            }
        }
        assert forall|x: Seq<char>| cur.contains(x) implies acc.contains(x) || exists|j: int|
            0 <= j < checks.len() && checks[j] == x && path_file_stem(x) is Some && path_file_stem(x)
                == path_file_stem(f) by {
            let k = choose|k: int| 0 <= k < cur.len() && cur[k] == x;
            if k < prev.len() {
                assert(prev[k] == x);
                assert(prev.contains(x));
                if !acc.contains(x) {
                    let j = choose|j: int|
                        0 <= j < d.len() && d[j] == x && path_file_stem(x) is Some && path_file_stem(x)
                            == path_file_stem(f);
                    assert(checks[j] == x);
                }
            } else {
                assert(checks[checks.len() - 1] == x);
            }
        }
    }
}

/// The texture list holds exactly the found files whose stem is the stem of some
/// requested texture: none is missed, and no other file is listed.
pub proof fn law_assets_are_the_files_named(find: Seq<Seq<char>>, checks: Seq<Seq<char>>)
    ensures
        forall|i: int, j: int|
            0 <= i < find.len() && 0 <= j < checks.len() && path_file_stem(checks[j]) is Some
                && #[trigger] path_file_stem(checks[j]) == #[trigger] path_file_stem(find[i])
                ==> spec_assets(find, checks).contains(checks[j]),
        forall|x: Seq<char>|
            #[trigger] spec_assets(find, checks).contains(x) ==> exists|i: int, j: int|
                0 <= i < find.len() && 0 <= j < checks.len() && checks[j] == x && path_file_stem(x)
                    is Some && path_file_stem(x) == path_file_stem(find[i]),
    decreases find.len(),
{
    if find.len() > 0 {
        let d = find.drop_last();
        law_assets_are_the_files_named(d, checks);
        let prev = spec_assets(d, checks);
        let f = find.last();
        lemma_assets_step_members(prev, f, checks);
        let cur = spec_assets(find, checks);
        assert forall|i: int, j: int|
            0 <= i < find.len() && 0 <= j < checks.len() && path_file_stem(checks[j]) is Some
                && path_file_stem(checks[j]) == path_file_stem(find[i]) implies cur.contains(
            checks[j],
        ) by {
            if i < d.len() {
                assert(d[i] == find[i]);
                assert(prev.contains(checks[j]));
            }
        }
        assert forall|x: Seq<char>| cur.contains(x) implies exists|i: int, j: int|
            0 <= i < find.len() && 0 <= j < checks.len() && checks[j] == x && path_file_stem(x)
                is Some && path_file_stem(x) == path_file_stem(find[i]) by {
            if prev.contains(x) {
                let (i, j) = choose|i: int, j: int|
                    0 <= i < d.len() && 0 <= j < checks.len() && checks[j] == x && path_file_stem(x)
                        is Some && path_file_stem(x) == path_file_stem(d[i]);
                assert(find[i] == d[i]);
            } else {
                let j = choose|j: int|
                    0 <= j < checks.len() && checks[j] == x && path_file_stem(x) is Some
                        && path_file_stem(x) == path_file_stem(f);
                assert(find[find.len() - 1] == f);
            }
        }
    }
}

/// The interface pictures are the found files whose stem is one of
/// `about_avatar_ui_btn`, `inv_ui_btn`, `crafting_ui_btn` and `select`: each
/// such file is kept, and no other file is.
pub proof fn law_ui_assets_are_the_button_pictures(checks: Seq<Seq<char>>)
    ensures
        forall|j: int|
            0 <= j < checks.len() && (path_file_stem(checks[j]) == Some("about_avatar_ui_btn"@)
                || path_file_stem(checks[j]) == Some("inv_ui_btn"@) || path_file_stem(checks[j])
                == Some("crafting_ui_btn"@) || path_file_stem(checks[j]) == Some("select"@))
                ==> #[trigger] spec_ui_assets(checks).contains(checks[j]),
        forall|x: Seq<char>|
            #[trigger] spec_ui_assets(checks).contains(x) ==> checks.contains(x) && (path_file_stem(x)
                == Some("about_avatar_ui_btn"@) || path_file_stem(x) == Some("inv_ui_btn"@)
                || path_file_stem(x) == Some("crafting_ui_btn"@) || path_file_stem(x) == Some(
                "select"@,
            )),
    decreases checks.len(),
{
    if checks.len() > 0 {
        let d = checks.drop_last();
        law_ui_assets_are_the_button_pictures(d);
        let prev = spec_ui_assets(d);
        let cur = spec_ui_assets(checks);
        let c = checks.last();
        assert forall|x: Seq<char>| prev.contains(x) implies cur.contains(x) by {
            let k = choose|k: int| 0 <= k < prev.len() && prev[k] == x;
            assert(cur[k] == x);
        }
        assert forall|j: int|
            0 <= j < checks.len() && (path_file_stem(checks[j]) == Some("about_avatar_ui_btn"@)
                || path_file_stem(checks[j]) == Some("inv_ui_btn"@) || path_file_stem(checks[j])
                == Some("crafting_ui_btn"@) || path_file_stem(checks[j]) == Some(
                "select"@,
            )) implies cur.contains(checks[j]) by {
            if j < d.len() {
                assert(d[j] == checks[j]);
                assert(prev.contains(d[j]));
            } else {
                assert(required_ui(path_file_stem(c)));
                assert(cur[prev.len() as int] == c);
            }
        }
        assert forall|x: Seq<char>| cur.contains(x) implies checks.contains(x) && (path_file_stem(x)
            == Some("about_avatar_ui_btn"@) || path_file_stem(x) == Some("inv_ui_btn"@)
            || path_file_stem(x) == Some("crafting_ui_btn"@) || path_file_stem(x) == Some(
            "select"@,
        )) by {
            let k = choose|k: int| 0 <= k < cur.len() && cur[k] == x;
            if k < prev.len() {
                assert(prev[k] == x);
                assert(prev.contains(x));
                let m = choose|m: int| 0 <= m < d.len() && d[m] == x;
                assert(checks[m] == x);
            } else {
                assert(checks[checks.len() - 1] == x);
            }
        }
    }
}

} // verus!
