use vstd::prelude::*;

use crate::json::{find_member, member, parse_json, parsed_json, Json};

verus! {

/// The category name that a bundled file gives: its name without the `.json`
/// extension. Files of any other kind give none.
pub open spec fn json_stem(name: Seq<char>) -> Option<Seq<char>> {
    if name.len() > 5 && name.subrange(name.len() - 5, name.len() as int) == ".json"@ {
        Some(name.subrange(0, name.len() - 5))
    } else {
        None
    }
}

/// The text of the last JSON file among `files` that gives the category `key`.
pub open spec fn text_for(files: Seq<(String, String)>, key: Seq<char>) -> Option<String>
    decreases files.len(),
{
    if files.len() == 0 {
        None
    } else if json_stem(files.last().0@) == Some(key) {
        Some(files.last().1)
    } else {
        text_for(files.drop_last(), key)
    }
}

/// No two pairs have the same name.
pub open spec fn names_distinct<T>(pairs: Seq<(String, T)>) -> bool {
    forall|i: int, j: int|
        0 <= i < j < pairs.len() ==> #[trigger] pairs[i].0@ != #[trigger] pairs[j].0@
}

/// Some pair has the name `key`.
pub open spec fn has_name<T>(pairs: Seq<(String, T)>, key: Seq<char>) -> bool {
    exists|i: int| 0 <= i < pairs.len() && #[trigger] pairs[i].0@ == key
}

/// Relies on str::strip_suffix with a string pattern: the part before `suffix`
/// where `s` ends with it, and nothing otherwise.
#[verifier::external_body]
fn strip_suffix<'a>(s: &'a str, suffix: &str) -> (r: Option<&'a str>)
    ensures
        match r {
            Some(p) => suffix@.len() <= s@.len() && s@.subrange(
                s@.len() - suffix@.len(),
                s@.len() as int,
            ) == suffix@ && p@ == s@.subrange(0, s@.len() - suffix@.len()),
            None => !(suffix@.len() <= s@.len() && s@.subrange(
                s@.len() - suffix@.len(),
                s@.len() as int,
            ) == suffix@),
        },
{
    s.strip_suffix(suffix)
}

/// The category name that a bundled file's name gives.
pub fn file_stem(name: &str) -> (r: Option<String>)
    ensures
        match r {
            Some(k) => json_stem(name@) == Some(k@),
            None => json_stem(name@) is None,
        },
{
    proof {
        reveal_strlit(".json");
    }
    match strip_suffix(name, ".json") {
        Some(stem) => {
            if stem.is_empty() {
                None
            } else {
                Some(stem.to_owned())
            }
        },
        None => None,
    }
}

/// The position of the pair named `key`, if any.
pub fn position_of<T>(pairs: &Vec<(String, T)>, key: &String) -> (r: Option<usize>)
    ensures
        match r {
            Some(j) => j < pairs.len() && pairs@[j as int].0@ == key@,
            None => !has_name(pairs@, key@),
        },
{
    let mut i: usize = 0;
    while i < pairs.len()
        invariant
            i <= pairs.len(),
            forall|j: int| 0 <= j < i ==> pairs@[j].0@ != key@,
        decreases pairs.len() - i,
    {
        if pairs[i].0 == *key {
            return Some(i);
        }
        i = i + 1;
    }
    None
}

/// The bundled JSON files, keyed by category name. `files` lists each bundled
/// file by name with its text; a later file of the same category name replaces
/// an earlier one.
pub fn get_all_files(files: &Vec<(String, String)>) -> (r: Vec<(String, String)>)
    ensures
        names_distinct(r@),
        forall|k: Seq<char>| has_name(r@, k) <==> text_for(files@, k) is Some,
        forall|i: int| 0 <= i < r.len() ==> text_for(files@, #[trigger] r@[i].0@) == Some(r@[i].1),
{
    let mut out: Vec<(String, String)> = Vec::new();
    let mut n: usize = 0;
    while n < files.len()
        invariant
            n <= files.len(),
            names_distinct(out@),
            forall|k: Seq<char>| has_name(out@, k) <==> text_for(files@.take(n as int), k) is Some,
            forall|i: int|
                0 <= i < out.len() ==> text_for(files@.take(n as int), #[trigger] out@[i].0@) == Some(
                    out@[i].1,
                ),
        decreases files.len() - n,
    {
        let ghost before = out@;
        let ghost seen = files@.take(n as int);
        let ghost now = files@.take(n + 1);
        assert(now.drop_last() =~= seen);
        assert(now.last() == files@[n as int]);
        match file_stem(&files[n].0) {
            None => {
                assert forall|k: Seq<char>| text_for(now, k) == text_for(seen, k) by {}
                assert(forall|k: Seq<char>| has_name(out@, k) <==> text_for(now, k) is Some);
            },
            Some(stem) => {
                let text = files[n].1.clone();
                let ghost key = stem@;
                assert forall|k: Seq<char>|
                    text_for(now, k) == (if k == key {
                        Some(text)
                    } else {
                        text_for(seen, k)
                    }) by {}
                match position_of(&out, &stem) {
                    Some(j) => {
                        let _ = out.remove(j);
                        out.insert(j, (stem, text));
                        assert(out@ =~= before.update(j as int, out@[j as int]));
                        assert(has_name(before, key));
                        assert forall|k: Seq<char>| has_name(out@, k) <==> has_name(before, k) by {
                            if has_name(before, k) {
                                let i = choose|i: int| 0 <= i < before.len() && before[i].0@ == k;
                                assert(out@[i].0@ == k);
                            }
                            if has_name(out@, k) {
                                let i = choose|i: int| 0 <= i < out@.len() && out@[i].0@ == k;
                                assert(before[i].0@ == k);
                            }
                        }
                        assert forall|k: Seq<char>| has_name(out@, k) <==> text_for(now, k) is Some by {
                            assert(has_name(before, k) <==> text_for(seen, k) is Some);
                            assert(text_for(now, k) == (if k == key {
                                Some(text)
                            } else {
                                text_for(seen, k)
                            }));
                        }
                    },
                    None => {
                        out.push((stem, text));
                        assert(out@.last().0@ == key);
                        assert forall|k: Seq<char>|
                            has_name(out@, k) <==> (has_name(before, k) || k == out@.last().0@) by {
                            if has_name(out@, k) && k != out@.last().0@ {
                                let i = choose|i: int| 0 <= i < out@.len() && out@[i].0@ == k;
                                assert(before[i].0@ == k);
                            }
                            if has_name(before, k) {
                                let i = choose|i: int| 0 <= i < before.len() && before[i].0@ == k;
                                assert(out@[i].0@ == k);
                            }
                        }
                        assert forall|k: Seq<char>| has_name(out@, k) <==> text_for(now, k) is Some by {
                            assert(has_name(before, k) <==> text_for(seen, k) is Some);
                            assert(text_for(now, k) == (if k == key {
                                Some(text)
                            } else {
                                text_for(seen, k)
                            }));
                        }
                    },
                }
            },
        }
        n = n + 1;
    }
    assert(files@.take(n as int) =~= files@);
    out
}

/// The categories, each with its parsed document.
#[derive(Debug)]
pub struct CategorySet {
    pub categories: Vec<(String, Json)>,
}

impl CategorySet {
    /// No two categories share a name.
    pub open spec fn wf(&self) -> bool {
        names_distinct(self.categories@)
    }

    /// The document of the category `name`.
    pub open spec fn lookup(&self, name: Seq<char>) -> Option<Json> {
        member(self.categories@, name)
    }

    pub fn get(&self, name: &String) -> (r: Option<&Json>)
        ensures
            match r {
                Some(v) => self.lookup(name@) == Some(*v),
                None => self.lookup(name@) is None,
            },
    {
        find_member(&self.categories, name)
    }
}

/// Parses every bundled JSON file into the set of categories, keyed by file
/// name without extension. Nothing comes back where some file that gives a
/// category is not valid JSON.
pub fn get_all_data(files: &Vec<(String, String)>) -> (r: Option<CategorySet>)
    ensures
        match r {
            Some(set) => {
                &&& set.wf()
                &&& forall|k: Seq<char>| has_name(set.categories@, k) <==> text_for(files@, k) is Some
                &&& forall|i: int|
                    0 <= i < set.categories.len() ==> {
                        let (name, doc) = #[trigger] set.categories@[i];
                        &&& text_for(files@, name@) is Some
                        &&& parsed_json(text_for(files@, name@)->Some_0@) == Some(doc)
                    }
            },
            None => exists|k: Seq<char>|
                {
                    &&& #[trigger] text_for(files@, k) is Some
                    &&& parsed_json(text_for(files@, k)->Some_0@) is None
                },
        },
{
    let listing = get_all_files(files);
    let mut categories: Vec<(String, Json)> = Vec::new();
    let mut i: usize = 0;
    while i < listing.len()
        invariant
            i <= listing.len(),
            categories.len() == i,
            names_distinct(listing@),
            forall|k: Seq<char>| has_name(listing@, k) <==> text_for(files@, k) is Some,
            forall|j: int|
                0 <= j < listing.len() ==> text_for(files@, #[trigger] listing@[j].0@) == Some(
                    listing@[j].1,
                ),
            forall|j: int|
                0 <= j < i ==> {
                    &&& (#[trigger] categories@[j]).0@ == listing@[j].0@
                    &&& parsed_json(listing@[j].1@) == Some(categories@[j].1)
                },
        decreases listing.len() - i,
    {
        match parse_json(listing[i].1.as_str()) {
            None => {
                assert(text_for(files@, listing@[i as int].0@) is Some);
                return None;
            },
            Some(doc) => {
                categories.push((listing[i].0.clone(), doc));
            },
        }
        i = i + 1;
    }
    let set = CategorySet { categories };
    assert forall|k: Seq<char>| has_name(set.categories@, k) <==> text_for(files@, k) is Some by {
        assert(has_name(listing@, k) <==> text_for(files@, k) is Some);
        if has_name(listing@, k) {
            let j = choose|j: int| 0 <= j < listing.len() && listing@[j].0@ == k;
            assert(set.categories@[j].0@ == k);
        }
        if has_name(set.categories@, k) {
            let j = choose|j: int| 0 <= j < set.categories.len() && set.categories@[j].0@ == k;
            assert(listing@[j].0@ == k);
        }
    }
    assert forall|a: int, b: int|
        0 <= a < b < set.categories.len() implies #[trigger] set.categories@[a].0@
            != #[trigger] set.categories@[b].0@ by {
        assert(listing@[a].0@ != listing@[b].0@);
    }
    Some(set)
}

} // verus!
